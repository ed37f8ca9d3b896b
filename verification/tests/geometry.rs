use mechanics::vector::{saturate, Vector, COORD_MAX};

#[test]
fn coord_max_is_two_to_the_24() {
    assert_eq!(COORD_MAX, 1 << 24);
}

#[test]
fn saturate_keeps_values_in_range() {
    assert_eq!(saturate(0), 0);
    assert_eq!(saturate(-17), -17);
    assert_eq!(saturate(COORD_MAX as i128), COORD_MAX);
    assert_eq!(saturate(-(COORD_MAX as i128)), -COORD_MAX);
}

#[test]
fn saturate_clamps_values_out_of_range() {
    assert_eq!(saturate(COORD_MAX as i128 + 1), COORD_MAX);
    assert_eq!(saturate(-(COORD_MAX as i128) - 1), -COORD_MAX);
    assert_eq!(saturate(i128::MAX), COORD_MAX);
    assert_eq!(saturate(i128::MIN), -COORD_MAX);
}

#[test]
fn vector_validity_follows_the_range() {
    assert!(Vector::new(0, 0).is_valid());
    assert!(Vector::new(COORD_MAX, -COORD_MAX).is_valid());
    assert!(!Vector::new(COORD_MAX + 1, 0).is_valid());
    assert!(!Vector::new(0, -COORD_MAX - 1).is_valid());
}

#[test]
fn distance_squared_is_exact() {
    let a = Vector::new(0, 0);
    let b = Vector::new(3, 4);
    assert_eq!(a.distance_squared(&b), 25);
    assert_eq!(b.distance_squared(&a), 25);
    assert_eq!(a.distance_squared(&a), 0);
    let far = Vector::new(COORD_MAX, COORD_MAX);
    let near = Vector::new(-COORD_MAX, -COORD_MAX);
    let side = 2 * COORD_MAX as i128;
    assert_eq!(far.distance_squared(&near), 2 * side * side);
}

#[test]
fn moved_by_adds_componentwise() {
    let p = Vector::new(10, -20);
    assert_eq!(p.moved_by(&Vector::new(5, 7)), Vector::new(15, -13));
    assert_eq!(p.moved_by(&Vector::new(0, 0)), p);
}

#[test]
fn moved_by_saturates_at_the_edge() {
    let p = Vector::new(COORD_MAX - 1, -COORD_MAX + 1);
    assert_eq!(p.moved_by(&Vector::new(5, -5)), Vector::new(COORD_MAX, -COORD_MAX));
}
