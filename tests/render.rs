use sphere_render::color::Color;
use sphere_render::render::render_layers;

fn layer_of(colors: &[(u8, u8, u8)]) -> Vec<Color> {
    colors.iter().map(|&(r, g, b)| Color::new(r, g, b)).collect()
}

#[test]
fn visible_means_any_channel_set() {
    assert!(!Color::new(0, 0, 0).is_visible());
    assert!(Color::new(1, 0, 0).is_visible());
    assert!(Color::new(0, 1, 0).is_visible());
    assert!(Color::new(0, 0, 1).is_visible());
}

#[test]
fn no_layers_gives_black_frame() {
    let samples = render_layers(2, 3, &Vec::new()).unwrap();
    assert_eq!(samples, vec![0u8; 18]);
}

#[test]
fn single_layer_is_copied_row_major() {
    let layer = layer_of(&[(1, 2, 3), (4, 5, 6), (7, 8, 9), (10, 11, 12), (13, 14, 15), (16, 17, 18)]);
    let samples = render_layers(3, 2, &vec![layer]).unwrap();
    assert_eq!(samples, (1u8..=18).collect::<Vec<u8>>());
}

#[test]
fn black_in_a_later_layer_keeps_earlier_color() {
    let a = layer_of(&[(200, 10, 0), (0, 0, 0)]);
    let b = layer_of(&[(0, 0, 0), (0, 0, 0)]);
    let samples = render_layers(2, 1, &vec![a, b]).unwrap();
    assert_eq!(samples, vec![200, 10, 0, 0, 0, 0]);
}

#[test]
fn later_layer_wins_where_both_draw() {
    // Pixel 0: both draw; pixel 1: only a; pixel 2: only b; pixel 3: neither.
    let a = layer_of(&[(10, 20, 30), (40, 50, 60), (0, 0, 0), (0, 0, 0)]);
    let b = layer_of(&[(70, 80, 90), (0, 0, 0), (0, 0, 5), (0, 0, 0)]);
    let ab = render_layers(2, 2, &vec![a.clone(), b.clone()]).unwrap();
    let ba = render_layers(2, 2, &vec![b, a]).unwrap();
    assert_eq!(ab, vec![70, 80, 90, 40, 50, 60, 0, 0, 5, 0, 0, 0]);
    assert_eq!(ba, vec![10, 20, 30, 40, 50, 60, 0, 0, 5, 0, 0, 0]);
}

#[test]
fn dim_hit_in_one_channel_still_overwrites() {
    let a = layer_of(&[(255, 255, 255)]);
    let b = layer_of(&[(0, 1, 0)]);
    let samples = render_layers(1, 1, &vec![a, b]).unwrap();
    assert_eq!(samples, vec![0, 1, 0]);
}

#[test]
fn layer_of_wrong_size_is_rejected() {
    let a = layer_of(&[(1, 1, 1), (2, 2, 2)]);
    let b = layer_of(&[(1, 1, 1)]);
    assert!(render_layers(2, 1, &vec![a.clone(), b]).is_none());
    assert!(render_layers(3, 1, &vec![a]).is_none());
}

#[test]
fn empty_frame() {
    let samples = render_layers(0, 5, &vec![Vec::new()]).unwrap();
    assert!(samples.is_empty());
}

#[test]
fn full_hd_frame_with_centered_disc() {
    let (w, h) = (1920usize, 1080usize);
    let mut layer = vec![Color::new(0, 0, 0); w * h];
    layer[540 * w + 960] = Color::new(128, 156, 255);
    let raw = render_layers(w as u32, h as u32, &vec![layer]).unwrap();
    assert_eq!(raw.len(), 3 * w * h);
    let i = 3 * (540 * w + 960);
    assert_eq!(&raw[i..i + 3], &[128, 156, 255]);
    assert_eq!(raw.iter().filter(|&&v| v != 0).count(), 3);
}
