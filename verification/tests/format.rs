use gpui_plot::geometry::point2;
use gpui_plot::geometry::size2;
use gpui_plot::geometry::Point2;
use gpui_plot::geometry::Ratio;
use gpui_plot::utils::math::display_double_smartly;

fn r(n: i64, d: i64) -> Ratio {
    Ratio::new(n, d).unwrap()
}

#[test]
fn display_trims_trailing_zeros() {
    assert_eq!(display_double_smartly(&r(150, 100)), "1.5");
    assert_eq!(display_double_smartly(&r(2, 1)), "2");
    assert_eq!(display_double_smartly(&r(1, 10)), "0.1");
}

#[test]
fn display_keeps_significant_digits() {
    assert_eq!(display_double_smartly(&r(105, 100)), "1.05");
    assert_eq!(display_double_smartly(&r(0, 1)), "0");
    assert_eq!(display_double_smartly(&r(-3, 2)), "-1.5");
    assert_eq!(display_double_smartly(&r(12345, 1)), "12345");
}

#[test]
fn display_truncates_deep_fractions() {
    // 1/3 is truncated to nine fraction digits
    assert_eq!(display_double_smartly(&r(1, 3)), "0.333333333");
}

#[test]
fn point_and_size_constructors() {
    let p = point2(1i64, 2i64);
    assert_eq!(p.x, 1);
    assert_eq!(p.y, 2);
    let q = Point2::new(3i64, 4i64).flip();
    assert_eq!(q.x, 4);
    assert_eq!(q.y, 3);
    let s = size2(5i64, 6i64);
    assert_eq!(s.width, 5);
    assert_eq!(s.height, 6);
}
