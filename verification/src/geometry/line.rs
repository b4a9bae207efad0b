//! Polyline data plotted inside axes.

use crate::geometry::axis::AxisRange;
use crate::geometry::axis::AxisType;
use crate::geometry::point::Point2;
use crate::geometry::ratio::RatVal;
use crate::geometry::ratio::Ratio;
use vstd::prelude::*;

verus! {

/// Whether a line is axis-aligned.
#[derive(Debug, Clone, Copy, PartialEq, Eq, Structural)]
pub enum LineDirection {
    Horizontal,
    Vertical,
    Any,
}

/// A solid color, as byte channels (the paint layer converts to its own
/// color space).
#[derive(Debug, Clone, Copy, PartialEq, Eq, Structural)]
pub struct PlotColor {
    pub red: u8,
    pub green: u8,
    pub blue: u8,
    pub alpha: u8,
}

/// A polyline in data coordinates, with its stroke width in pixels.
#[derive(Debug, Clone)]
pub struct Line<X: AxisType, Y: AxisType> {
    pub points: Vec<Point2<X, Y>>,
    pub width: Ratio,
    pub color: PlotColor,
    pub direction: LineDirection,
}

impl<X: AxisType, Y: AxisType> Line<X, Y> {
    pub open spec fn wf(self) -> bool {
        &&& forall|i: int|
            0 <= i < self.points.len() ==> (#[trigger] self.points[i]).x.wf_val()
                && self.points[i].y.wf_val()
        &&& self.width.wf()
    }

    /// An empty line with a hairline stroke.
    pub fn new() -> (r: Line<X, Y>)
        ensures
            r.wf(),
            r.points@.len() == 0,
            r.direction == LineDirection::Any,
    {
        Line {
            points: Vec::new(),
            width: Ratio::from_int(1),
            color: PlotColor { red: 0, green: 0, blue: 0, alpha: 255 },
            direction: LineDirection::Any,
        }
    }

    /// A two-point segment, tagged vertical or horizontal when one
    /// coordinate repeats exactly.
    pub fn between_points(start: Point2<X, Y>, end: Point2<X, Y>) -> (r: Line<X, Y>)
        requires
            start.x.wf_val(),
            start.y.wf_val(),
            end.x.wf_val(),
            end.y.wf_val(),
        ensures
            r.wf(),
            r.points@.len() == 2,
            r.points@[0] == start,
            r.points@[1] == end,
            r.direction == (if crate::geometry::ratio::rv_eq(start.x.rat(), end.x.rat()) {
                LineDirection::Vertical
            } else if crate::geometry::ratio::rv_eq(start.y.rat(), end.y.rat()) {
                LineDirection::Horizontal
            } else {
                LineDirection::Any
            }),
    {
        let mut line = Self::new();
        line.points.push(start);
        line.points.push(end);
        let sx = start.x.to_ratio();
        let ex = end.x.to_ratio();
        let sy = start.y.to_ratio();
        let ey = end.y.to_ratio();
        if sx.eq_val(&ex) {
            line.direction = LineDirection::Vertical;
        } else if sy.eq_val(&ey) {
            line.direction = LineDirection::Horizontal;
        }
        line
    }

    pub fn add_point(&mut self, point: Point2<X, Y>)
        requires
            old(self).wf(),
            point.x.wf_val(),
            point.y.wf_val(),
        ensures
            final(self).wf(),
            final(self).points@ == old(self).points@.push(point),
            final(self).width == old(self).width,
            final(self).color == old(self).color,
            final(self).direction == old(self).direction,
    {
        self.points.push(point);
    }

    pub fn clear(&mut self)
        requires
            old(self).wf(),
        ensures
            final(self).wf(),
            final(self).points@.len() == 0,
            final(self).width == old(self).width,
            final(self).color == old(self).color,
            final(self).direction == old(self).direction,
    {
        self.points.clear();
    }

    /// The smallest interval covering the points' horizontal coordinates;
    /// `None` for an empty line or when the interval cannot be built.
    pub fn get_x_range(&self) -> (r: Option<AxisRange<X>>)
        requires
            self.wf(),
        ensures
            self.points@.len() == 0 ==> r is None,
            r matches Some(rg) ==> rg.wf() && (forall|i: int|
                0 <= i < self.points@.len() ==> crate::geometry::ratio::rv_le(
                    rg.min_rat(),
                    (#[trigger] self.points@[i]).x.rat(),
                ) && crate::geometry::ratio::rv_le(self.points@[i].x.rat(), rg.max_rat())),
    {
        let mut xs: Vec<X> = Vec::new();
        let mut i: usize = 0;
        while i < self.points.len()
            invariant
                self.wf(),
                i <= self.points.len(),
                xs@.len() == i,
                forall|k: int| 0 <= k < i ==> (#[trigger] xs@[k]) == self.points@[k].x,
            decreases self.points.len() - i,
        {
            let p = &self.points[i];
            xs.push(p.x);
            i = i + 1;
        }
        let r = range_of_values(&xs);
        proof {
            if r is Some {
                let rg = r->Some_0;
                assert forall|i: int| 0 <= i < self.points@.len() implies crate::geometry::ratio::rv_le(
                    rg.min_rat(),
                    (#[trigger] self.points@[i]).x.rat(),
                ) && crate::geometry::ratio::rv_le(self.points@[i].x.rat(), rg.max_rat()) by {
                    assert(xs@[i] == self.points@[i].x);
                }
            }
        }
        r
    }

    /// The smallest interval covering the points' vertical coordinates.
    pub fn get_y_range(&self) -> (r: Option<AxisRange<Y>>)
        requires
            self.wf(),
        ensures
            self.points@.len() == 0 ==> r is None,
            r matches Some(rg) ==> rg.wf() && (forall|i: int|
                0 <= i < self.points@.len() ==> crate::geometry::ratio::rv_le(
                    rg.min_rat(),
                    (#[trigger] self.points@[i]).y.rat(),
                ) && crate::geometry::ratio::rv_le(self.points@[i].y.rat(), rg.max_rat())),
    {
        let mut ys: Vec<Y> = Vec::new();
        let mut i: usize = 0;
        while i < self.points.len()
            invariant
                self.wf(),
                i <= self.points.len(),
                ys@.len() == i,
                forall|k: int| 0 <= k < i ==> (#[trigger] ys@[k]) == self.points@[k].y,
            decreases self.points.len() - i,
        {
            let p = &self.points[i];
            ys.push(p.y);
            i = i + 1;
        }
        let r = range_of_values(&ys);
        proof {
            if r is Some {
                let rg = r->Some_0;
                assert forall|i: int| 0 <= i < self.points@.len() implies crate::geometry::ratio::rv_le(
                    rg.min_rat(),
                    (#[trigger] self.points@[i]).y.rat(),
                ) && crate::geometry::ratio::rv_le(self.points@[i].y.rat(), rg.max_rat()) by {
                    assert(ys@[i] == self.points@[i].y);
                }
            }
        }
        r
    }
}

/// The smallest interval covering all the values: its endpoints are the
/// least and greatest values, up to the coordinate type's rounding.
pub fn range_of_values<T: AxisType>(vals: &Vec<T>) -> (r: Option<AxisRange<T>>)
    requires
        forall|i: int| 0 <= i < vals.len() ==> (#[trigger] vals[i]).wf_val(),
    ensures
        vals@.len() == 0 ==> r is None,
        r matches Some(rg) ==> rg.wf() && (forall|i: int|
            0 <= i < vals@.len() ==> crate::geometry::ratio::rv_le(
                rg.min_rat(),
                (#[trigger] vals@[i]).rat(),
            ) && crate::geometry::ratio::rv_le(vals@[i].rat(), rg.max_rat())),
{
    if vals.len() == 0 {
        return None;
    }
    let mut mn: T = vals[0];
    let mut mx: T = vals[0];
    let mut i: usize = 1;
    while i < vals.len()
        invariant
            forall|k: int| 0 <= k < vals.len() ==> (#[trigger] vals[k]).wf_val(),
            vals.len() > 0,
            1 <= i <= vals.len(),
            mn.wf_val(),
            mx.wf_val(),
            forall|k: int|
                0 <= k < i ==> crate::geometry::ratio::rv_le(
                    mn.rat(),
                    (#[trigger] vals@[k]).rat(),
                ) && crate::geometry::ratio::rv_le(vals@[k].rat(), mx.rat()),
        decreases vals.len() - i,
    {
        let v = vals[i];
        let vr = v.to_ratio();
        let mnr = mn.to_ratio();
        let mxr = mx.to_ratio();
        if vr.lt(&mnr) {
            proof {
                lemma_bound_tightens_min(vals@, i as int, mn.rat(), v.rat());
            }
            mn = v;
        }
        if mxr.lt(&vr) {
            proof {
                lemma_bound_tightens_max(vals@, i as int, mx.rat(), v.rat());
            }
            mx = v;
        }
        i = i + 1;
    }
    match AxisRange::new_with_base(mn, mn, mx) {
        Ok(rg) => {
            proof {
                assert forall|k: int| 0 <= k < vals@.len() implies crate::geometry::ratio::rv_le(
                    rg.min_rat(),
                    (#[trigger] vals@[k]).rat(),
                ) && crate::geometry::ratio::rv_le(vals@[k].rat(), rg.max_rat()) by {
                    vals@[k].lemma_wf_rat();
                    mn.lemma_wf_rat();
                    mx.lemma_wf_rat();
                    crate::geometry::ratio::lemma_rv_le_congruence(
                        mn.rat(),
                        vals@[k].rat(),
                        rg.min_rat(),
                        vals@[k].rat(),
                    );
                    crate::geometry::ratio::lemma_rv_eq_symm(rg.max_rat(), mx.rat());
                    crate::geometry::ratio::lemma_rv_le_congruence(
                        vals@[k].rat(),
                        mx.rat(),
                        vals@[k].rat(),
                        rg.max_rat(),
                    );
                }
            }
            Some(rg)
        },
        Err(_) => None,
    }
}

/// A smaller new minimum keeps the running lower bound valid.
proof fn lemma_bound_tightens_min<T: AxisType>(vals: Seq<T>, i: int, mn: RatVal, v: RatVal)
    requires
        forall|k: int| 0 <= k < vals.len() ==> (#[trigger] vals[k]).wf_val(),
        0 <= i < vals.len(),
        crate::geometry::ratio::rv_wf(mn),
        crate::geometry::ratio::rv_wf(v),
        crate::geometry::ratio::rv_lt(v, mn),
        forall|k: int|
            0 <= k < i ==> crate::geometry::ratio::rv_le(mn, (#[trigger] vals[k]).rat()),
    ensures
        forall|k: int| 0 <= k < i ==> crate::geometry::ratio::rv_le(v, (#[trigger] vals[k]).rat()),
{
    assert forall|k: int| 0 <= k < i implies crate::geometry::ratio::rv_le(
        v,
        (#[trigger] vals[k]).rat(),
    ) by {
        vals[k].lemma_wf_rat();
        crate::geometry::ratio::lemma_rv_le_trans(v, mn, vals[k].rat());
    }
}

/// A larger new maximum keeps the running upper bound valid.
proof fn lemma_bound_tightens_max<T: AxisType>(vals: Seq<T>, i: int, mx: RatVal, v: RatVal)
    requires
        forall|k: int| 0 <= k < vals.len() ==> (#[trigger] vals[k]).wf_val(),
        0 <= i < vals.len(),
        crate::geometry::ratio::rv_wf(mx),
        crate::geometry::ratio::rv_wf(v),
        crate::geometry::ratio::rv_lt(mx, v),
        forall|k: int|
            0 <= k < i ==> crate::geometry::ratio::rv_le((#[trigger] vals[k]).rat(), mx),
    ensures
        forall|k: int| 0 <= k < i ==> crate::geometry::ratio::rv_le((#[trigger] vals[k]).rat(), v),
{
    assert forall|k: int| 0 <= k < i implies crate::geometry::ratio::rv_le(
        (#[trigger] vals[k]).rat(),
        v,
    ) by {
        vals[k].lemma_wf_rat();
        crate::geometry::ratio::lemma_rv_le_trans(vals[k].rat(), mx, v);
    }
}

} // verus!
