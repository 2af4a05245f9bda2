use bevy_box3d::counts::{capacity_len, default_worker_count, manifold_count, overflow_constraint_count};

#[test]
fn manifold_count_weights_native_buckets() {
    assert_eq!(manifold_count([2, 1, 0, -1, 0, 0, 0, 1]), 12);
    assert_eq!(overflow_constraint_count([0; 24]), 0);
    let mut colors = [0; 24];
    colors[23] = 7;
    assert_eq!(overflow_constraint_count(colors), 7);
}

#[test]
fn manifold_count_of_full_buckets() {
    assert_eq!(manifold_count([1, 1, 1, 1, 1, 1, 1, 1]), 36);
    assert_eq!(manifold_count([0, 0, 0, 0, 0, 0, 0, 0]), 0);
    assert_eq!(manifold_count([-5, -5, -5, -5, -5, -5, -5, -5]), 0);
    assert_eq!(manifold_count([0, 0, 0, 0, 0, 0, 0, 3]), 24);
}

#[test]
fn overflow_constraint_count_ignores_other_colors_and_negatives() {
    let mut colors = [9; 24];
    colors[23] = -4;
    assert_eq!(overflow_constraint_count(colors), 0);
    colors[23] = 1;
    assert_eq!(overflow_constraint_count(colors), 1);
}

#[test]
fn capacity_len_clamps_negative_counts() {
    assert_eq!(capacity_len(-1), 0);
    assert_eq!(capacity_len(i32::MIN), 0);
    assert_eq!(capacity_len(0), 0);
    assert_eq!(capacity_len(1024), 1024);
    assert_eq!(capacity_len(i32::MAX), i32::MAX as usize);
}

#[test]
fn default_worker_count_uses_half_the_parallelism() {
    assert_eq!(default_worker_count(Some(12), 64), 6);
    assert_eq!(default_worker_count(Some(32), 64), 8);
    assert_eq!(default_worker_count(Some(32), 4), 4);
    assert_eq!(default_worker_count(Some(1), 64), 1);
    assert_eq!(default_worker_count(Some(6), 0), 1);
    assert_eq!(default_worker_count(None, 64), 1);
}
