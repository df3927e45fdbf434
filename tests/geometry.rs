use lemmynator::geometry::fit_area_proportionally;

#[test]
fn fits_by_the_tighter_side() {
    assert_eq!(fit_area_proportionally(100, 50, 40, 40), (40, 20));
    assert_eq!(fit_area_proportionally(3, 7, 10, 10), (4, 10));
}

#[test]
fn rounds_halves_up() {
    assert_eq!(fit_area_proportionally(4, 3, 2, 10), (2, 2));
    assert_eq!(fit_area_proportionally(4, 2, 2, 10), (2, 1));
}

#[test]
fn never_below_one_cell() {
    assert_eq!(fit_area_proportionally(10, 10, 0, 5), (1, 1));
    assert_eq!(fit_area_proportionally(1000, 1, 10, 10), (10, 1));
}

#[test]
fn largest_sizes() {
    assert_eq!(fit_area_proportionally(u16::MAX, u16::MAX, u16::MAX, u16::MAX), (u16::MAX, u16::MAX));
    assert_eq!(fit_area_proportionally(1, 1, u16::MAX, 100), (100, 100));
}

#[test]
fn zero_sides() {
    assert_eq!(fit_area_proportionally(0, 0, 30, 40), (1, 1));
    assert_eq!(fit_area_proportionally(0, 5, 30, 40), (1, 40));
    assert_eq!(fit_area_proportionally(0, 5, 30, 0), (1, 1));
    assert_eq!(fit_area_proportionally(7, 0, 30, 40), (30, 1));
    assert_eq!(fit_area_proportionally(7, 0, 0, 40), (1, 1));
}
