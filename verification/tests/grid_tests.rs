use rust_engine::grid::IntensityGrid;
use rust_engine::grid::MAX_SAMPLES;

#[test]
fn new_accepts_matching_shape() {
    let grid = IntensityGrid::new(3, 2, vec![1, 2, 3, 4, 5, 6]).expect("valid shape");
    assert_eq!(grid.width(), 3);
    assert_eq!(grid.height(), 2);
    assert_eq!(grid.sample_count(), 6);
    assert_eq!(grid.samples(), &vec![1u8, 2, 3, 4, 5, 6]);
}

#[test]
fn new_accepts_single_sample() {
    let grid = IntensityGrid::new(1, 1, vec![200]).expect("valid shape");
    assert_eq!(grid.sample_count(), 1);
    assert_eq!(grid.samples(), &vec![200u8]);
}

#[test]
fn new_rejects_zero_width() {
    assert!(IntensityGrid::new(0, 4, vec![]).is_none());
}

#[test]
fn new_rejects_zero_height() {
    assert!(IntensityGrid::new(4, 0, vec![]).is_none());
}

#[test]
fn new_rejects_too_few_samples() {
    assert!(IntensityGrid::new(2, 2, vec![1, 2, 3]).is_none());
}

#[test]
fn new_rejects_too_many_samples() {
    assert!(IntensityGrid::new(2, 2, vec![1, 2, 3, 4, 5]).is_none());
}

#[test]
fn new_rejects_more_cells_than_the_limit() {
    assert_eq!(MAX_SAMPLES, u32::MAX);
    assert!(IntensityGrid::new(65536, 65536, vec![0]).is_none());
    assert!(IntensityGrid::new(u32::MAX, u32::MAX, vec![0]).is_none());
}
