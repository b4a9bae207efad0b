//! Tick-label placement: the pixel origin of a label anchored just
//! outside the plot rectangle, its half-width estimated from the label's
//! character count (an approximation, not glyph measurement).

use crate::geometry::axis::AxisError;
use crate::geometry::point::Point2;
use crate::geometry::ratio::rv_add;
use crate::geometry::ratio::rv_div;
use crate::geometry::ratio::rv_int;
use crate::geometry::ratio::rv_mul;
use crate::geometry::ratio::rv_sub;
use crate::geometry::ratio::Ratio;
use vstd::prelude::*;

verus! {

/// The origin of a bottom-edge tick label: centered under its grid line
/// (shifted left by a quarter font width per character) and a small gap
/// below the plot's bottom edge.
pub fn x_tick_label_origin(x_px: &Ratio, font_size: &Ratio, text_len: usize, bottom_px: &Ratio) -> (r: Result<
    Point2<Ratio, Ratio>,
    AxisError,
>)
    requires
        x_px.wf(),
        font_size.wf(),
        bottom_px.wf(),
        text_len < 10000,
    ensures
        r matches Ok(p) ==> {
            &&& p.x.wf() && p.x@ == rv_sub(
                x_px@,
                rv_div(rv_mul(font_size@, rv_int(text_len as int)), rv_int(4)),
            )
            &&& p.y.wf() && p.y@ == rv_add(bottom_px@, rv_int(3))
        },
{
    let len = Ratio::from_int(text_len as i64);
    let four = Ratio::from_int(4);
    let three = Ratio::from_int(3);
    let w = match font_size.mul(&len) {
        Some(v) => v,
        None => {
            return Err(AxisError::Unrepresentable);
        },
    };
    let q = match w.div(&four) {
        Some(v) => v,
        None => {
            return Err(AxisError::Unrepresentable);
        },
    };
    let x = match x_px.sub(&q) {
        Some(v) => v,
        None => {
            return Err(AxisError::Unrepresentable);
        },
    };
    let y = match bottom_px.add(&three) {
        Some(v) => v,
        None => {
            return Err(AxisError::Unrepresentable);
        },
    };
    Ok(Point2 { x, y })
}

/// The origin of a left-edge tick label: shifted left of the plot's left
/// edge by half a font width per character plus a small gap, and centered
/// on its grid line (half a font height above it).
pub fn y_tick_label_origin(y_px: &Ratio, font_size: &Ratio, text_len: usize, left_px: &Ratio) -> (r: Result<
    Point2<Ratio, Ratio>,
    AxisError,
>)
    requires
        y_px.wf(),
        font_size.wf(),
        left_px.wf(),
        text_len < 10000,
    ensures
        r matches Ok(p) ==> {
            &&& p.x.wf() && p.x@ == rv_sub(
                rv_sub(left_px@, rv_div(rv_mul(font_size@, rv_int(text_len as int)), rv_int(2))),
                rv_int(3),
            )
            &&& p.y.wf() && p.y@ == rv_sub(y_px@, rv_div(font_size@, rv_int(2)))
        },
{
    let len = Ratio::from_int(text_len as i64);
    let two = Ratio::from_int(2);
    let three = Ratio::from_int(3);
    let w = match font_size.mul(&len) {
        Some(v) => v,
        None => {
            return Err(AxisError::Unrepresentable);
        },
    };
    let q = match w.div(&two) {
        Some(v) => v,
        None => {
            return Err(AxisError::Unrepresentable);
        },
    };
    let x1 = match left_px.sub(&q) {
        Some(v) => v,
        None => {
            return Err(AxisError::Unrepresentable);
        },
    };
    let x = match x1.sub(&three) {
        Some(v) => v,
        None => {
            return Err(AxisError::Unrepresentable);
        },
    };
    let half = match font_size.div(&two) {
        Some(v) => v,
        None => {
            return Err(AxisError::Unrepresentable);
        },
    };
    let y = match y_px.sub(&half) {
        Some(v) => v,
        None => {
            return Err(AxisError::Unrepresentable);
        },
    };
    Ok(Point2 { x, y })
}

} // verus!
