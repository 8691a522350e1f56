use sphere_render::config::RenderConfig;
use sphere_render::schedule::{Action, BatchScheduler};

/// Runs the scheduler to the end, checking the in-flight bound at each step,
/// and returns the actions in order.
fn run(start: u32, end: u32, k: u32) -> Vec<Action> {
    let mut s = BatchScheduler::new(start, end, k);
    let mut actions = Vec::new();
    loop {
        let a = s.step();
        assert!(s.in_flight_count() <= k as usize + 1);
        let done = a == Action::Finished;
        actions.push(a);
        if done {
            return actions;
        }
    }
}

#[test]
fn batches_wait_after_bound_is_exceeded() {
    let actions = run(1, 6, 2);
    assert_eq!(
        actions,
        vec![
            Action::Spawn(1),
            Action::Spawn(2),
            Action::Spawn(3),
            Action::JoinAll(vec![1, 2, 3]),
            Action::Spawn(4),
            Action::Spawn(5),
            Action::JoinAll(vec![4, 5]),
            Action::Finished,
        ]
    );
}

#[test]
fn every_frame_joined_once_with_many_frames() {
    let (k, n) = (32u32, 312u32);
    let actions = run(1, n + 1, k);
    let mut spawned = Vec::new();
    let mut joined = Vec::new();
    for a in &actions {
        match a {
            Action::Spawn(i) => spawned.push(*i),
            Action::JoinAll(batch) => {
                assert!(batch.len() <= k as usize + 1);
                joined.extend(batch.iter().copied());
            }
            Action::Finished => {}
        }
    }
    let all: Vec<u32> = (1..=n).collect();
    assert_eq!(spawned, all);
    assert_eq!(joined, all);
    assert_eq!(actions.last(), Some(&Action::Finished));
}

#[test]
fn empty_range_finishes_at_once() {
    assert_eq!(run(5, 5, 4), vec![Action::Finished]);
    assert_eq!(run(9, 3, 4), vec![Action::Finished]);
}

#[test]
fn zero_bound_joins_each_frame_alone() {
    let actions = run(0, 2, 0);
    assert_eq!(
        actions,
        vec![
            Action::Spawn(0),
            Action::JoinAll(vec![0]),
            Action::Spawn(1),
            Action::JoinAll(vec![1]),
            Action::Finished,
        ]
    );
}

#[test]
fn finished_is_repeated() {
    let mut s = BatchScheduler::new(1, 1, 3);
    assert_eq!(s.step(), Action::Finished);
    assert_eq!(s.step(), Action::Finished);
}

#[test]
fn default_config_matches_the_animation() {
    let c = RenderConfig::default();
    assert_eq!((c.first_frame, c.end_frame), (1, 313));
    assert_eq!((c.width, c.height), (1920, 1080));
    assert_eq!(c.max_concurrency, 32);
}
