use gpui_plot::figure::axes::AxesContext;
use gpui_plot::figure::axes::AxesModel;
use gpui_plot::figure::grid::GridModel;
use gpui_plot::geometry::point2;
use gpui_plot::geometry::AxesBounds;
use gpui_plot::geometry::AxesBoundsPixels;
use gpui_plot::geometry::AxisError;
use gpui_plot::geometry::AxisRange;
use gpui_plot::geometry::Ratio;
use gpui_plot::geometry::Size2;

fn r(n: i64, d: i64) -> Ratio {
    Ratio::new(n, d).unwrap()
}

fn ri(n: i64) -> Ratio {
    Ratio::from_int(n)
}

fn range(min: i64, max: i64) -> AxisRange<Ratio> {
    AxisRange::new(ri(min), ri(max)).unwrap()
}

fn model_0_100_800x600() -> AxesModel<Ratio, Ratio> {
    // an explicit whole-number base keeps the stored fractions small
    let x = AxisRange::new_with_base(ri(50), ri(0), ri(100)).unwrap();
    let y = AxisRange::new_with_base(ri(50), ri(0), ri(100)).unwrap();
    let bounds = AxesBounds::new(x, y);
    let grid = GridModel::from_numbers(10, 10);
    let mut model = AxesModel::new(bounds, grid);
    let px = AxesBoundsPixels::from_bounds(
        &point2(ri(0), ri(0)),
        &Size2::new(ri(800), ri(600)),
    )
    .unwrap();
    model.update_scale(&px).unwrap();
    model
}

#[test]
fn range_construction_picks_midpoint_base() {
    let rg = range(0, 100);
    assert!(rg.min().eq_val(&ri(0)));
    assert!(rg.max().eq_val(&ri(100)));
    assert!(rg.size_ratio().eq_val(&ri(100)));
}

#[test]
fn range_construction_rejects_inverted() {
    let e = AxisRange::<Ratio>::new(ri(10), ri(0));
    assert_eq!(e.err(), Some(AxisError::InvertedRange));
}

#[test]
fn range_set_min_keeps_state_on_inversion() {
    let mut rg = range(0, 100);
    assert_eq!(rg.set_min(ri(200)), Err(AxisError::InvertedRange));
    assert!(rg.min().eq_val(&ri(0)));
    assert!(rg.set_min(ri(50)).is_ok());
    assert!(rg.min().eq_val(&ri(50)));
    assert!(rg.max().eq_val(&ri(100)));
}

#[test]
fn ratio_rejects_zero_denominator() {
    assert!(Ratio::new(1, 0).is_none());
    assert!(Ratio::new(1, -2).is_some());
    assert!(Ratio::new(1, -2).unwrap().eq_val(&r(-1, 2)));
}

#[test]
fn union_is_smallest_covering_interval() {
    let a = range(0, 50);
    let b = range(-20, 30);
    let u = a.union(&b).unwrap();
    assert!(u.min().eq_val(&ri(-20)));
    assert!(u.max().eq_val(&ri(50)));
    let v = b.union(&a).unwrap();
    assert!(v.min().eq_val(&ri(-20)));
    assert!(v.max().eq_val(&ri(50)));
}

#[test]
fn union_of_nested_ranges() {
    let a = range(0, 100);
    let b = range(10, 20);
    let u = a.union(&b).unwrap();
    assert!(u.min().eq_val(&ri(0)));
    assert!(u.max().eq_val(&ri(100)));
}

#[test]
fn transform_round_trip() {
    let model = model_0_100_800x600();
    let p = model.transform_point(&point2(ri(37), ri(64))).unwrap();
    let back = model.transform_point_reverse(&p).unwrap();
    assert!(back.x.eq_val(&ri(37)));
    assert!(back.y.eq_val(&ri(64)));
}

#[test]
fn transform_maps_min_and_max_to_pixel_edges() {
    let model = model_0_100_800x600();
    let lo = model.transform_point(&point2(ri(0), ri(0))).unwrap();
    let hi = model.transform_point(&point2(ri(100), ri(100))).unwrap();
    assert!(lo.x.eq_val(&ri(0)));
    assert!(lo.y.eq_val(&ri(600)));
    assert!(hi.x.eq_val(&ri(800)));
    assert!(hi.y.eq_val(&ri(0)));
}

#[test]
fn pan_by_ten_percent_shifts_x_range_left() {
    let mut model = model_0_100_800x600();
    model.pan_begin(point2(ri(0), ri(0)));
    model.pan(point2(ri(80), ri(0))).unwrap();
    assert!(model.axes_bounds.x.min().eq_val(&ri(-10)));
    assert!(model.axes_bounds.x.max().eq_val(&ri(90)));
    assert!(model.axes_bounds.y.min().eq_val(&ri(0)));
    assert!(model.axes_bounds.y.max().eq_val(&ri(100)));
}

#[test]
fn pan_replay_matches_single_jump() {
    // a square viewport keeps the exact fractions well inside the window
    // while several pan events stack up
    fn square_model() -> AxesModel<Ratio, Ratio> {
        let x = AxisRange::new_with_base(ri(50), ri(0), ri(100)).unwrap();
        let y = AxisRange::new_with_base(ri(50), ri(0), ri(100)).unwrap();
        let mut model = AxesModel::new(AxesBounds::new(x, y), GridModel::from_numbers(10, 10));
        let px = AxesBoundsPixels::from_bounds(
            &point2(ri(0), ri(0)),
            &Size2::new(ri(100), ri(100)),
        )
        .unwrap();
        model.update_scale(&px).unwrap();
        model
    }
    let mut one = square_model();
    one.pan_begin(point2(ri(0), ri(0)));
    one.pan(point2(ri(10), ri(5))).unwrap();
    one.pan(point2(ri(43), ri(-12))).unwrap();
    one.pan(point2(ri(57), ri(3))).unwrap();
    one.pan(point2(ri(80), ri(24))).unwrap();
    let mut two = square_model();
    two.pan_begin(point2(ri(0), ri(0)));
    two.pan(point2(ri(80), ri(24))).unwrap();
    assert!(one.axes_bounds.x.min().eq_val(&two.axes_bounds.x.min()));
    assert!(one.axes_bounds.x.max().eq_val(&two.axes_bounds.x.max()));
    assert!(one.axes_bounds.y.min().eq_val(&two.axes_bounds.y.min()));
    assert!(one.axes_bounds.y.max().eq_val(&two.axes_bounds.y.max()));
}

#[test]
fn zoom_about_center_doubles_half_width() {
    let mut model = model_0_100_800x600();
    // pixel (400, 300) lies over the data point (50, 50)
    model.zoom_begin(point2(ri(400), ri(300))).unwrap();
    model.zoom(&ri(2)).unwrap();
    assert!(model.axes_bounds.x.min().eq_val(&ri(-50)));
    assert!(model.axes_bounds.x.max().eq_val(&ri(150)));
    assert!(model.axes_bounds.y.min().eq_val(&ri(-50)));
    assert!(model.axes_bounds.y.max().eq_val(&ri(150)));
}

#[test]
fn zoom_sequence_with_inverses_restores_bounds() {
    let mut model = model_0_100_800x600();
    model.zoom_begin(point2(ri(200), ri(100))).unwrap();
    model.zoom(&ri(2)).unwrap();
    model.zoom(&r(3, 2)).unwrap();
    model.zoom(&r(2, 3)).unwrap();
    model.zoom(&r(1, 2)).unwrap();
    assert!(model.axes_bounds.x.min().eq_val(&ri(0)));
    assert!(model.axes_bounds.x.max().eq_val(&ri(100)));
    assert!(model.axes_bounds.y.min().eq_val(&ri(0)));
    assert!(model.axes_bounds.y.max().eq_val(&ri(100)));
}

#[test]
fn zoom_rejects_non_positive_factor() {
    let mut model = model_0_100_800x600();
    model.zoom_begin(point2(ri(400), ri(300))).unwrap();
    assert_eq!(model.zoom(&ri(0)), Err(AxisError::DegenerateScale));
    assert_eq!(model.zoom(&ri(-1)), Err(AxisError::DegenerateScale));
    assert!(model.axes_bounds.x.min().eq_val(&ri(0)));
}

#[test]
fn grid_lines_stay_inside_bounds() {
    let model = model_0_100_800x600();
    let cx = AxesContext::new_without_context(&model);
    let mut grid: GridModel<Ratio, Ratio> = GridModel::from_numbers(10, 10);
    grid.update_grid(&cx).unwrap();
    assert_eq!(grid.grid_x_lines.len(), 11);
    assert_eq!(grid.grid_y_lines.len(), 11);
    for (i, line) in grid.grid_x_lines.iter().enumerate() {
        assert!(line.eq_val(&ri(10 * i as i64)));
    }
}

#[test]
fn grid_by_density_matches_step() {
    let model = model_0_100_800x600();
    let cx = AxesContext::new_without_context(&model);
    let mut grid: GridModel<Ratio, Ratio> = GridModel::from_density(ri(25), ri(50));
    grid.update_grid(&cx).unwrap();
    assert_eq!(grid.grid_x_lines.len(), 5);
    assert_eq!(grid.grid_y_lines.len(), 3);
    assert!(grid.grid_x_lines[1].eq_val(&ri(25)));
    assert!(grid.grid_y_lines[2].eq_val(&ri(100)));
}

#[test]
fn iter_step_rejects_non_positive_step() {
    let rg = range(0, 100);
    assert_eq!(rg.iter_step_by(&ri(0)).err(), Some(AxisError::DegenerateScale));
    assert_eq!(rg.iter_step_by(&ri(-5)).err(), Some(AxisError::DegenerateScale));
}

#[test]
fn iter_step_handles_non_dividing_step() {
    let rg = range(0, 10);
    let vals = rg.iter_step_by(&ri(3)).unwrap();
    assert_eq!(vals.len(), 4);
    assert!(vals[3].eq_val(&ri(9)));
}

#[test]
fn resize_scales_about_midpoint() {
    let mut bounds = AxesBounds::new(range(0, 100), range(20, 40));
    bounds.resize(&r(1, 2)).unwrap();
    assert!(bounds.x.min().eq_val(&ri(25)));
    assert!(bounds.x.max().eq_val(&ri(75)));
    assert!(bounds.y.min().eq_val(&ri(25)));
    assert!(bounds.y.max().eq_val(&ri(35)));
}

#[test]
fn contains_uses_inclusive_endpoints() {
    let bounds = AxesBounds::new(range(0, 100), range(0, 100));
    assert!(bounds.contains(&point2(ri(0), ri(100))));
    assert!(bounds.contains(&point2(ri(50), ri(50))));
    assert!(!bounds.contains(&point2(ri(-1), ri(50))));
    assert!(!bounds.contains(&point2(ri(50), ri(101))));
}

#[test]
fn fractional_pointer_positions_pan_and_zoom() {
    // pointer positions as a float bridge would produce them: nanoscale
    // denominators, reduced away inside the engine
    let mut model = model_0_100_800x600();
    let px = |v: i64| Ratio::new(v, 1_000_000_000).unwrap();
    model.pan_begin(point2(px(0), px(0)));
    model.pan(point2(px(80_250_000_000), px(0))).unwrap();
    model.pan(point2(px(80_000_000_000), px(0))).unwrap();
    assert!(model.axes_bounds.x.min().eq_val(&ri(-10)));
    model.pan_end();
    model.zoom_begin(point2(px(400_000_000_000), px(300_000_000_000))).unwrap();
    model.zoom(&px(2_000_000_000)).unwrap();
    model.zoom(&px(500_000_000)).unwrap();
    // the inverse pair restores the gesture-start snapshot, the panned view
    assert!(model.axes_bounds.x.min().eq_val(&ri(-10)));
    assert!(model.axes_bounds.x.max().eq_val(&ri(90)));
}

#[test]
fn two_pan_gestures_in_sequence() {
    let mut model = model_0_100_800x600();
    model.pan_begin(point2(ri(0), ri(0)));
    model.pan(point2(ri(80), ri(0))).unwrap();
    model.pan_end();
    model.pan_begin(point2(ri(0), ri(0)));
    model.pan(point2(ri(-80), ri(0))).unwrap();
    model.pan_end();
    assert!(model.axes_bounds.x.min().eq_val(&ri(0)));
    assert!(model.axes_bounds.x.max().eq_val(&ri(100)));
}

#[test]
fn union_of_deep_fractional_ranges() {
    // offsets with large power-of-two denominators reduce away instead of
    // exhausting the representation window
    let tiny = |n: i64, p: u32| Ratio::new(n, 1i64 << p).unwrap();
    let a = AxisRange::new_with_base(ri(0), tiny(-5, 22), ri(1)).unwrap();
    let b = AxisRange::new_with_base(tiny(-1, 20), tiny(-1, 20), ri(2)).unwrap();
    let u = a.union(&b).unwrap();
    assert!(u.min().eq_val(&tiny(-5, 22)));
    assert!(u.max().eq_val(&ri(2)));
}
