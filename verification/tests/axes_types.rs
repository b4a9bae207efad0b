use gpui_plot::geometry::AxisRange;
use gpui_plot::geometry::AxisType;
use gpui_plot::geometry::DateValue;
use gpui_plot::geometry::DurationValue;
use gpui_plot::geometry::Ratio;

#[test]
fn date_axis_labels_through_calendar() {
    let epoch = DateValue::from_epoch_days(0).unwrap();
    assert_eq!(epoch.format(), "1970-01-01");
    let next = DateValue::from_epoch_days(1).unwrap();
    assert_eq!(next.format(), "1970-01-02");
    let before = DateValue::from_epoch_days(-1).unwrap();
    assert_eq!(before.format(), "1969-12-31");
    assert!(DateValue::from_epoch_days(20_000_000).is_none());
}

#[test]
fn duration_axis_labels() {
    let d = DurationValue::from_nanos(1_500_000_000);
    assert_eq!(d.format(), "PT1.5S");
    let z = DurationValue::from_nanos(0);
    assert_eq!(z.format(), "P0D");
}

#[test]
fn date_range_snaps_to_whole_days() {
    let d0 = DateValue::from_epoch_days(0).unwrap();
    let d9 = DateValue::from_epoch_days(9).unwrap();
    let rg = AxisRange::new_with_base(d0, d0, d9).unwrap();
    assert_eq!(rg.min().days, 0);
    assert_eq!(rg.max().days, 9);
    assert!(rg.contains(&DateValue::from_epoch_days(5).unwrap()));
    assert!(!rg.contains(&DateValue::from_epoch_days(10).unwrap()));
}

#[test]
fn duration_range_round_trip() {
    let a = DurationValue::from_nanos(0);
    let b = DurationValue::from_nanos(1_000_000);
    let rg = AxisRange::new_with_base(a, a, b).unwrap();
    assert_eq!(rg.min().nanos, 0);
    assert_eq!(rg.max().nanos, 1_000_000);
    let s = rg.size_ratio();
    assert!(s.eq_val(&Ratio::from_int(1_000_000)));
}
