use raytracer::checker::checker_keeps_color;

#[test]
fn origin_tile_keeps_color() {
    assert!(checker_keeps_color(0, 0));
}

#[test]
fn odd_tiles_are_black() {
    assert!(!checker_keeps_color(0, 1));
    assert!(!checker_keeps_color(1, 0));
    assert!(!checker_keeps_color(3, -2));
    assert!(!checker_keeps_color(-5, 0));
}

#[test]
fn even_tiles_keep_color() {
    assert!(checker_keeps_color(1, 1));
    assert!(checker_keeps_color(-1, -1));
    assert!(checker_keeps_color(-2, 4));
    assert!(checker_keeps_color(7, -3));
}

#[test]
fn extreme_tiles() {
    assert!(checker_keeps_color(i64::MIN, 0));
    assert!(checker_keeps_color(i64::MAX, 1));
    assert!(!checker_keeps_color(i64::MIN, i64::MAX));
}
