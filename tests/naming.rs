use sphere_render::naming::frame_file_name;

#[test]
fn names_are_zero_padded_to_three_digits() {
    assert_eq!(frame_file_name(0), "render000.png");
    assert_eq!(frame_file_name(7), "render007.png");
    assert_eq!(frame_file_name(42), "render042.png");
    assert_eq!(frame_file_name(312), "render312.png");
}

#[test]
fn wide_indices_keep_all_digits() {
    assert_eq!(frame_file_name(1000), "render1000.png");
    assert_eq!(frame_file_name(4294967295), "render4294967295.png");
}

#[test]
fn names_of_a_run_do_not_collide() {
    let names: std::collections::HashSet<String> = (1u32..313).map(frame_file_name).collect();
    assert_eq!(names.len(), 312);
}
