use gpui_plot::figure::ticks::x_tick_label_origin;
use gpui_plot::figure::ticks::y_tick_label_origin;
use gpui_plot::geometry::fold_element_bounds;
use gpui_plot::geometry::point2;
use gpui_plot::geometry::AxesBounds;
use gpui_plot::geometry::AxisRange;
use gpui_plot::geometry::Line;
use gpui_plot::geometry::LineDirection;
use gpui_plot::geometry::Marker;
use gpui_plot::geometry::MarkerShape;
use gpui_plot::geometry::Markers;
use gpui_plot::geometry::Ratio;

fn ri(n: i64) -> Ratio {
    Ratio::from_int(n)
}

fn bounds(x0: i64, x1: i64, y0: i64, y1: i64) -> AxesBounds<Ratio, Ratio> {
    AxesBounds::new(
        AxisRange::new(ri(x0), ri(x1)).unwrap(),
        AxisRange::new(ri(y0), ri(y1)).unwrap(),
    )
}

#[test]
fn line_between_points_tags_direction() {
    let v: Line<Ratio, Ratio> = Line::between_points(point2(ri(3), ri(0)), point2(ri(3), ri(9)));
    assert_eq!(v.direction, LineDirection::Vertical);
    let h: Line<Ratio, Ratio> = Line::between_points(point2(ri(0), ri(4)), point2(ri(7), ri(4)));
    assert_eq!(h.direction, LineDirection::Horizontal);
    let a: Line<Ratio, Ratio> = Line::between_points(point2(ri(0), ri(0)), point2(ri(1), ri(2)));
    assert_eq!(a.direction, LineDirection::Any);
}

#[test]
fn line_ranges_cover_points() {
    let mut line: Line<Ratio, Ratio> = Line::new();
    line.add_point(point2(ri(5), ri(-2)));
    line.add_point(point2(ri(-3), ri(8)));
    line.add_point(point2(ri(1), ri(0)));
    let xr = line.get_x_range().unwrap();
    assert!(xr.min().eq_val(&ri(-3)));
    assert!(xr.max().eq_val(&ri(5)));
    let yr = line.get_y_range().unwrap();
    assert!(yr.min().eq_val(&ri(-2)));
    assert!(yr.max().eq_val(&ri(8)));
    let empty: Line<Ratio, Ratio> = Line::new();
    assert!(empty.get_x_range().is_none());
}

#[test]
fn marker_ranges_cover_positions() {
    let mut ms: Markers<Ratio, Ratio> = Markers::new();
    ms.add_marker(Marker::new(point2(ri(10), ri(1)), ri(4)).shape(MarkerShape::Square));
    ms.add_marker(Marker::new(point2(ri(-4), ri(7)), ri(4)));
    let xr = ms.get_x_range().unwrap();
    assert!(xr.min().eq_val(&ri(-4)));
    assert!(xr.max().eq_val(&ri(10)));
    let yr = ms.get_y_range().unwrap();
    assert!(yr.min().eq_val(&ri(1)));
    assert!(yr.max().eq_val(&ri(7)));
}

#[test]
fn fold_covers_all_elements() {
    let rs = vec![bounds(0, 10, 0, 5), bounds(-5, 3, 2, 9), bounds(1, 2, -1, 0)];
    let b = fold_element_bounds(&rs).unwrap();
    assert!(b.x.min().eq_val(&ri(-5)));
    assert!(b.x.max().eq_val(&ri(10)));
    assert!(b.y.min().eq_val(&ri(-1)));
    assert!(b.y.max().eq_val(&ri(9)));
    let none: Vec<AxesBounds<Ratio, Ratio>> = Vec::new();
    assert!(fold_element_bounds(&none).is_none());
}

#[test]
fn tick_label_origins() {
    let p = x_tick_label_origin(&ri(100), &ri(12), 4, &ri(600)).unwrap();
    assert!(p.x.eq_val(&ri(88)));
    assert!(p.y.eq_val(&ri(603)));
    let q = y_tick_label_origin(&ri(300), &ri(12), 3, &ri(30)).unwrap();
    assert!(q.x.eq_val(&ri(9)));
    assert!(q.y.eq_val(&ri(294)));
}
