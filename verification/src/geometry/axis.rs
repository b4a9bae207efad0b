//! Axis coordinate types, data ranges and their pixel-space projection.
//!
//! An [`AxisRange`] stores a fixed base value of its coordinate type plus two
//! exact offsets, rather than absolute endpoints; under repeated pan/zoom
//! only the small offsets are touched, which keeps the stored fractions far
//! from the representation bounds even when the absolute coordinates are
//! huge (for instance nanosecond timestamps).  Every mutation re-checks the
//! representation window and the coordinate type's domain, and leaves the
//! previous valid state in place when the check fails.

use crate::geometry::point::Point2;
use crate::geometry::ratio::in_bounds;
use crate::geometry::ratio::lemma_rv_le_sub_monotone;
use crate::geometry::ratio::rv_add;
use crate::geometry::ratio::rv_div;
use crate::geometry::ratio::rv_eq;
use crate::geometry::ratio::rv_floor;
use crate::geometry::ratio::rv_int;
use crate::geometry::ratio::rv_le;
use crate::geometry::ratio::rv_lt;
use crate::geometry::ratio::rv_mul;
use crate::geometry::ratio::rv_neg;
use crate::geometry::ratio::rv_sub;
use crate::geometry::ratio::rv_wf;
use crate::geometry::ratio::rv_zero;
use crate::geometry::ratio::RatVal;
use crate::geometry::ratio::Ratio;
use vstd::prelude::*;

verus! {

/// Why an axis operation was refused.  Every refusal leaves the previous
/// valid state untouched.
#[derive(Debug, Clone, Copy, PartialEq, Eq, Structural)]
pub enum AxisError {
    /// A range was given with `max < min`.
    InvertedRange,
    /// An exact result left the representable window of [`Ratio`], or a
    /// coordinate left its type's domain.
    Unrepresentable,
    /// A scale or step that must be strictly positive (or nonzero) was not.
    DegenerateScale,
    /// A pixel scale was needed before it had been computed.
    MissingScale,
}

/// A value usable as a coordinate on one chart axis.
///
/// Every coordinate is backed by an exact fraction: `rat` gives that value,
/// `to_ratio` materializes it, and `try_from_ratio` comes back, rounding to
/// the type's own resolution as described by `snap` (the identity for plain
/// numeric axes, whole days for calendar-date axes, and so on) and failing
/// off the type's domain (`from_defined`).
pub trait AxisType: Sized + Copy {
    /// The exact numeric value of this coordinate.
    spec fn rat(self) -> RatVal;

    /// Invariant of a valid coordinate of this type.
    spec fn wf_val(self) -> bool;

    /// How a numeric value rounds onto this type's own resolution.
    spec fn snap(r: RatVal) -> RatVal;

    /// The numeric values from which a coordinate can be produced.
    spec fn from_defined(r: RatVal) -> bool;

    /// A valid coordinate's numeric value fits the representation window
    /// and lies in the type's own domain.
    proof fn lemma_wf_rat(self)
        requires
            self.wf_val(),
        ensures
            in_bounds(self.rat()),
            Self::from_defined(self.rat()),
    ;

    /// A valid coordinate's own value does not round.
    proof fn lemma_snap_fixed(self)
        requires
            self.wf_val(),
        ensures
            Self::snap(self.rat()) == self.rat(),
    ;

    /// Rounding is idempotent, and a rounded value stays well formed and
    /// in the domain.
    proof fn lemma_snap_idempotent(r: RatVal)
        requires
            rv_wf(r),
            Self::from_defined(r),
        ensures
            Self::snap(Self::snap(r)) == Self::snap(r),
            Self::from_defined(Self::snap(r)),
            rv_wf(Self::snap(r)),
    ;

    /// Rounding onto the type's resolution preserves order.
    proof fn lemma_snap_monotone(r1: RatVal, r2: RatVal)
        requires
            rv_wf(r1),
            rv_wf(r2),
            rv_le(r1, r2),
            Self::from_defined(r1),
            Self::from_defined(r2),
        ensures
            rv_le(Self::snap(r1), Self::snap(r2)),
    ;

    fn to_ratio(&self) -> (r: Ratio)
        requires
            self.wf_val(),
        ensures
            r.wf(),
            r@ == self.rat(),
    ;

    fn try_from_ratio(r: &Ratio) -> (v: Option<Self>)
        requires
            r.wf(),
        ensures
            v is Some <==> Self::from_defined(r@),
            v matches Some(x) ==> x.wf_val() && x.rat() == Self::snap(r@),
    ;

    /// A human-readable label for this coordinate.
    fn format(&self) -> (s: String)
        requires
            self.wf_val(),
    ;
}

/// Where a data value lands on the pixel axis: `px_min + (v - min) * ppe`.
pub open spec fn transform_spec(min_v: RatVal, ppe: RatVal, px_min: RatVal, v: RatVal) -> RatVal {
    rv_add(rv_mul(rv_sub(v, min_v), ppe), px_min)
}

/// Which data value lies under a pixel: `min + (p - px_min) / ppe`.
pub open spec fn transform_reverse_spec(
    min_v: RatVal,
    ppe: RatVal,
    px_min: RatVal,
    p: RatVal,
) -> RatVal {
    rv_add(min_v, rv_div(rv_sub(p, px_min), ppe))
}

/// One axis of the on-screen rectangle: a pixel interval plus the cached
/// pixels-per-data-unit scale, absent until the first scale update.
#[derive(Debug, Clone, Copy)]
pub struct AxisRangePixels {
    pub min: Ratio,
    pub max: Ratio,
    pub size: Ratio,
    pub pixels_per_element: Option<Ratio>,
}

impl AxisRangePixels {
    /// The interval is representable and a cached scale, if any, is a
    /// usable (nonzero) factor.
    pub open spec fn wf(self) -> bool {
        &&& self.min.wf()
        &&& self.max.wf()
        &&& self.size.wf()
        &&& match self.pixels_per_element {
            Some(p) => p.wf() && p@.num != 0,
            None => true,
        }
    }

    /// A pixel interval with no scale cached yet.
    pub fn from_bounds(min: Ratio, max: Ratio, size: Ratio) -> (r: AxisRangePixels)
        requires
            min.wf(),
            max.wf(),
            size.wf(),
        ensures
            r.wf(),
            r.min == min,
            r.max == max,
            r.size == size,
            r.pixels_per_element is None,
    {
        AxisRangePixels { min, max, size, pixels_per_element: None }
    }
}

/// The on-screen rectangle both axes map onto.  The vertical interval is
/// stored flipped (`min` is the bottom edge, the larger pixel coordinate),
/// so that growing data values move up the screen.
#[derive(Debug, Clone, Copy)]
pub struct AxesBoundsPixels {
    pub x: AxisRangePixels,
    pub y: AxisRangePixels,
}

impl AxesBoundsPixels {
    pub open spec fn wf(self) -> bool {
        self.x.wf() && self.y.wf()
    }

    /// Build the rectangle from its origin (top-left) and size.
    pub fn from_bounds(origin: &Point2<Ratio, Ratio>, size: &Size2Ratio) -> (r: Result<
        AxesBoundsPixels,
        AxisError,
    >)
        requires
            origin.x.wf(),
            origin.y.wf(),
            size.width.wf(),
            size.height.wf(),
        ensures
            r matches Ok(b) ==> {
                &&& b.wf()
                &&& b.x.min@ == origin.x@
                &&& b.x.max@ == rv_add(origin.x@, size.width@)
                &&& b.x.size@ == size.width@
                &&& b.y.min@ == rv_add(origin.y@, size.height@)
                &&& b.y.max@ == origin.y@
                &&& b.y.size@ == size.height@
                &&& b.x.pixels_per_element is None
                &&& b.y.pixels_per_element is None
            },
            r is Ok <==> in_bounds(rv_add(origin.x@, size.width@)) && in_bounds(
                rv_add(origin.y@, size.height@),
            ),
    {
        let x_max = match origin.x.add(&size.width) {
            Some(v) => v,
            None => {
                return Err(AxisError::Unrepresentable);
            },
        };
        let y_min = match origin.y.add(&size.height) {
            Some(v) => v,
            None => {
                return Err(AxisError::Unrepresentable);
            },
        };
        Ok(
            AxesBoundsPixels {
                x: AxisRangePixels::from_bounds(origin.x, x_max, size.width),
                y: AxisRangePixels::from_bounds(y_min, origin.y, size.height),
            },
        )
    }

    /// Left edge.
    pub fn min_x(&self) -> (r: Ratio)
        ensures
            r == self.x.min,
    {
        self.x.min
    }

    /// Right edge.
    pub fn max_x(&self) -> (r: Ratio)
        ensures
            r == self.x.max,
    {
        self.x.max
    }

    pub fn width(&self) -> (r: Ratio)
        ensures
            r == self.x.size,
    {
        self.x.size
    }

    /// Top edge (the smaller pixel coordinate, stored as the y maximum).
    pub fn min_y(&self) -> (r: Ratio)
        ensures
            r == self.y.max,
    {
        self.y.max
    }

    /// Bottom edge (the larger pixel coordinate, stored as the y minimum).
    pub fn max_y(&self) -> (r: Ratio)
        ensures
            r == self.y.min,
    {
        self.y.min
    }

    pub fn height(&self) -> (r: Ratio)
        ensures
            r == self.y.size,
    {
        self.y.size
    }
}

/// The size type used for pixel rectangles.
pub type Size2Ratio = crate::geometry::size::Size2<Ratio, Ratio>;

} // verus!

verus! {

/// A one-dimensional inclusive data interval `[min, max]` over one axis,
/// stored as a base coordinate plus two exact offsets.
#[derive(Debug, Clone, Copy)]
pub struct AxisRange<T> {
    pub base: T,
    pub min_to_base: Ratio,
    pub max_to_base: Ratio,
}

impl<T: AxisType> AxisRange<T> {
    /// The exact numeric position of the lower endpoint.
    pub open spec fn min_rat(self) -> RatVal {
        rv_add(self.base.rat(), self.min_to_base@)
    }

    /// The exact numeric position of the upper endpoint.
    pub open spec fn max_rat(self) -> RatVal {
        rv_add(self.base.rat(), self.max_to_base@)
    }

    /// The exact numeric width of the interval.
    pub open spec fn size_rat(self) -> RatVal {
        rv_sub(self.max_to_base@, self.min_to_base@)
    }

    /// The lower endpoint as the coordinate type sees it.
    pub open spec fn min_snap(self) -> RatVal {
        T::snap(self.min_rat())
    }

    /// The upper endpoint as the coordinate type sees it.
    pub open spec fn max_snap(self) -> RatVal {
        T::snap(self.max_rat())
    }

    /// Invariant: the interval is not inverted, both endpoints (and the
    /// width) stay in the representation window, and both endpoints lie in
    /// the coordinate type's domain.
    pub open spec fn wf(self) -> bool {
        &&& self.base.wf_val()
        &&& self.min_to_base.wf()
        &&& self.max_to_base.wf()
        &&& rv_le(self.min_to_base@, self.max_to_base@)
        &&& in_bounds(self.min_rat())
        &&& in_bounds(self.max_rat())
        &&& in_bounds(self.size_rat())
        &&& T::from_defined(self.min_rat())
        &&& T::from_defined(self.max_rat())
    }

    /// The checks [`Self::new_with_base`] makes after ruling out an
    /// inverted interval, for a base of numeric value `base_r`: both
    /// offsets are stored in lowest terms and must fit the representation
    /// window, as must the endpoints they reconstruct and the interval
    /// width, and both endpoints must lie in the coordinate type's domain.
    pub open spec fn with_base_defined(base_r: RatVal, minv: RatVal, maxv: RatVal) -> bool {
        let nmin = crate::geometry::ratio::rv_norm(rv_sub(minv, base_r));
        let nmax = crate::geometry::ratio::rv_norm(rv_sub(maxv, base_r));
        &&& in_bounds(nmin)
        &&& in_bounds(nmax)
        &&& in_bounds(rv_add(base_r, nmin))
        &&& in_bounds(rv_add(base_r, nmax))
        &&& in_bounds(rv_sub(nmax, nmin))
        &&& T::from_defined(rv_add(base_r, nmin))
        &&& T::from_defined(rv_add(base_r, nmax))
    }

    /// Build the interval `[min, max]` around the given base coordinate.
    /// Refused when `max < min` or when an offset or endpoint leaves the
    /// representable window or the coordinate type's domain; nothing is
    /// rounded silently.
    pub fn new_with_base(base: T, min: T, max: T) -> (r: Result<AxisRange<T>, AxisError>)
        requires
            base.wf_val(),
            min.wf_val(),
            max.wf_val(),
        ensures
            r matches Ok(rg) ==> {
                &&& rg.wf()
                &&& rg.base == base
                &&& rg.min_to_base@ == crate::geometry::ratio::rv_norm(
                    rv_sub(min.rat(), base.rat()),
                )
                &&& rg.max_to_base@ == crate::geometry::ratio::rv_norm(
                    rv_sub(max.rat(), base.rat()),
                )
                &&& rv_eq(rg.min_rat(), min.rat())
                &&& rv_eq(rg.max_rat(), max.rat())
            },
            (r == Err::<AxisRange<T>, AxisError>(AxisError::InvertedRange)) <==> rv_lt(
                max.rat(),
                min.rat(),
            ),
            r is Ok <==> (rv_le(min.rat(), max.rat()) && Self::with_base_defined(
                base.rat(),
                min.rat(),
                max.rat(),
            )),
    {
        let br = base.to_ratio();
        let minr = min.to_ratio();
        let maxr = max.to_ratio();
        if maxr.lt(&minr) {
            return Err(AxisError::InvertedRange);
        }
        let min_off = match minr.sub_reduced(&br) {
            Some(v) => v,
            None => {
                return Err(AxisError::Unrepresentable);
            },
        };
        let max_off = match maxr.sub_reduced(&br) {
            Some(v) => v,
            None => {
                return Err(AxisError::Unrepresentable);
            },
        };
        let min_back = match br.add(&min_off) {
            Some(v) => v,
            None => {
                return Err(AxisError::Unrepresentable);
            },
        };
        let max_back = match br.add(&max_off) {
            Some(v) => v,
            None => {
                return Err(AxisError::Unrepresentable);
            },
        };
        if max_off.sub(&min_off).is_none() {
            return Err(AxisError::Unrepresentable);
        }
        if T::try_from_ratio(&min_back).is_none() {
            return Err(AxisError::Unrepresentable);
        }
        if T::try_from_ratio(&max_back).is_none() {
            return Err(AxisError::Unrepresentable);
        }
        proof {
            let sub_min = rv_sub(min.rat(), base.rat());
            let sub_max = rv_sub(max.rat(), base.rat());
            crate::geometry::ratio::lemma_rv_add_wf(min.rat(), base.rat());
            crate::geometry::ratio::lemma_rv_add_wf(max.rat(), base.rat());
            crate::geometry::ratio::lemma_rv_norm(sub_min);
            crate::geometry::ratio::lemma_rv_norm(sub_max);
            lemma_rv_le_sub_monotone(min.rat(), max.rat(), base.rat());
            crate::geometry::ratio::lemma_rv_le_congruence(
                sub_min,
                sub_max,
                min_off@,
                max_off@,
            );
            // the reconstructed endpoints equal the given ones
            crate::geometry::ratio::lemma_rv_add_congruence(
                base.rat(),
                min_off@,
                base.rat(),
                sub_min,
            );
            crate::geometry::ratio::lemma_rv_add_sub_cancel(min.rat(), base.rat());
            crate::geometry::ratio::lemma_rv_add_comm(sub_min, base.rat());
            crate::geometry::ratio::lemma_rv_add_wf(base.rat(), min_off@);
            crate::geometry::ratio::lemma_rv_add_wf(base.rat(), sub_min);
            crate::geometry::ratio::lemma_rv_eq_trans(
                rv_add(base.rat(), min_off@),
                rv_add(base.rat(), sub_min),
                min.rat(),
            );
            crate::geometry::ratio::lemma_rv_add_congruence(
                base.rat(),
                max_off@,
                base.rat(),
                sub_max,
            );
            crate::geometry::ratio::lemma_rv_add_sub_cancel(max.rat(), base.rat());
            crate::geometry::ratio::lemma_rv_add_comm(sub_max, base.rat());
            crate::geometry::ratio::lemma_rv_add_wf(base.rat(), max_off@);
            crate::geometry::ratio::lemma_rv_add_wf(base.rat(), sub_max);
            crate::geometry::ratio::lemma_rv_eq_trans(
                rv_add(base.rat(), max_off@),
                rv_add(base.rat(), sub_max),
                max.rat(),
            );
        }
        Ok(AxisRange { base, min_to_base: min_off, max_to_base: max_off })
    }

    /// The checks [`Self::new`] makes besides those of
    /// [`Self::new_with_base`]: the midpoint must be representable and in
    /// the coordinate type's domain.
    pub open spec fn midpoint_defined(minv: RatVal, maxv: RatVal) -> bool {
        &&& in_bounds(rv_add(minv, maxv))
        &&& in_bounds(rv_div(rv_add(minv, maxv), rv_int(2)))
        &&& T::from_defined(rv_div(rv_add(minv, maxv), rv_int(2)))
    }

    /// The numeric midpoint of `[minv, maxv]`.
    pub open spec fn midpoint_spec(minv: RatVal, maxv: RatVal) -> RatVal {
        rv_div(rv_add(minv, maxv), rv_int(2))
    }

    /// Build the interval `[min, max]`, choosing its midpoint as the base
    /// coordinate.  Refused when `max < min` (an inverted interval is a
    /// caller error, never carried onward) or when a value leaves the
    /// representable window or the coordinate type's domain.
    pub fn new(min: T, max: T) -> (r: Result<AxisRange<T>, AxisError>)
        requires
            min.wf_val(),
            max.wf_val(),
        ensures
            r matches Ok(rg) ==> {
                &&& rg.wf()
                &&& rg.base.rat() == T::snap(Self::midpoint_spec(min.rat(), max.rat()))
                &&& rv_eq(rg.min_rat(), min.rat())
                &&& rv_eq(rg.max_rat(), max.rat())
            },
            (r == Err::<AxisRange<T>, AxisError>(AxisError::InvertedRange)) <==> rv_lt(
                max.rat(),
                min.rat(),
            ),
            r is Ok <==> (rv_le(min.rat(), max.rat()) && Self::midpoint_defined(
                min.rat(),
                max.rat(),
            ) && Self::with_base_defined(
                T::snap(Self::midpoint_spec(min.rat(), max.rat())),
                min.rat(),
                max.rat(),
            )),
    {
        let minr = min.to_ratio();
        let maxr = max.to_ratio();
        if maxr.lt(&minr) {
            return Err(AxisError::InvertedRange);
        }
        let sum = match minr.add(&maxr) {
            Some(v) => v,
            None => {
                return Err(AxisError::Unrepresentable);
            },
        };
        let two = Ratio::from_int(2);
        let mid = match sum.div(&two) {
            Some(v) => v,
            None => {
                return Err(AxisError::Unrepresentable);
            },
        };
        let base = match T::try_from_ratio(&mid) {
            Some(v) => v,
            None => {
                return Err(AxisError::Unrepresentable);
            },
        };
        match Self::new_with_base(base, min, max) {
            Ok(rg) => Ok(rg),
            Err(e) => Err(e),
        }
    }

    /// The lower endpoint, rounded onto the coordinate type's resolution.
    pub fn min(&self) -> (v: T)
        requires
            self.wf(),
        ensures
            v.wf_val(),
            v.rat() == self.min_snap(),
    {
        let br = self.base.to_ratio();
        match br.add(&self.min_to_base) {
            Some(m) => match T::try_from_ratio(&m) {
                Some(v) => v,
                None => vstd::pervasive::unreached(),
            },
            None => vstd::pervasive::unreached(),
        }
    }

    /// The upper endpoint, rounded onto the coordinate type's resolution.
    pub fn max(&self) -> (v: T)
        requires
            self.wf(),
        ensures
            v.wf_val(),
            v.rat() == self.max_snap(),
    {
        let br = self.base.to_ratio();
        match br.add(&self.max_to_base) {
            Some(m) => match T::try_from_ratio(&m) {
                Some(v) => v,
                None => vstd::pervasive::unreached(),
            },
            None => vstd::pervasive::unreached(),
        }
    }

    /// Move the lower endpoint; the attempt is discarded when it would
    /// invert the interval or leave the representable window.
    pub fn set_min(&mut self, min: T) -> (r: Result<(), AxisError>)
        requires
            old(self).wf(),
            min.wf_val(),
        ensures
            r is Ok ==> {
                &&& final(self).wf()
                &&& final(self).base == old(self).base
                &&& final(self).max_to_base == old(self).max_to_base
                &&& final(self).min_to_base@ == crate::geometry::ratio::rv_norm(
                    rv_sub(min.rat(), old(self).base.rat()),
                )
                &&& rv_eq(final(self).min_rat(), min.rat())
            },
            r is Err ==> *final(self) == *old(self),
    {
        let br = self.base.to_ratio();
        let minr = min.to_ratio();
        let min_off = match minr.sub_reduced(&br) {
            Some(v) => v,
            None => {
                return Err(AxisError::Unrepresentable);
            },
        };
        if !min_off.le(&self.max_to_base) {
            return Err(AxisError::InvertedRange);
        }
        let min_back = match br.add(&min_off) {
            Some(v) => v,
            None => {
                return Err(AxisError::Unrepresentable);
            },
        };
        if self.max_to_base.sub(&min_off).is_none() {
            return Err(AxisError::Unrepresentable);
        }
        if T::try_from_ratio(&min_back).is_none() {
            return Err(AxisError::Unrepresentable);
        }
        proof {
            let sub_min = rv_sub(min.rat(), self.base.rat());
            crate::geometry::ratio::lemma_rv_add_wf(min.rat(), self.base.rat());
            crate::geometry::ratio::lemma_rv_norm(sub_min);
            crate::geometry::ratio::lemma_rv_add_congruence(
                self.base.rat(),
                min_off@,
                self.base.rat(),
                sub_min,
            );
            crate::geometry::ratio::lemma_rv_add_sub_cancel(min.rat(), self.base.rat());
            crate::geometry::ratio::lemma_rv_add_comm(sub_min, self.base.rat());
            crate::geometry::ratio::lemma_rv_add_wf(self.base.rat(), min_off@);
            crate::geometry::ratio::lemma_rv_add_wf(self.base.rat(), sub_min);
            crate::geometry::ratio::lemma_rv_eq_trans(
                rv_add(self.base.rat(), min_off@),
                rv_add(self.base.rat(), sub_min),
                min.rat(),
            );
        }
        self.min_to_base = min_off;
        Ok(())
    }

    /// Move the upper endpoint; the attempt is discarded when it would
    /// invert the interval or leave the representable window.
    pub fn set_max(&mut self, max: T) -> (r: Result<(), AxisError>)
        requires
            old(self).wf(),
            max.wf_val(),
        ensures
            r is Ok ==> {
                &&& final(self).wf()
                &&& final(self).base == old(self).base
                &&& final(self).min_to_base == old(self).min_to_base
                &&& final(self).max_to_base@ == crate::geometry::ratio::rv_norm(
                    rv_sub(max.rat(), old(self).base.rat()),
                )
                &&& rv_eq(final(self).max_rat(), max.rat())
            },
            r is Err ==> *final(self) == *old(self),
    {
        let br = self.base.to_ratio();
        let maxr = max.to_ratio();
        let max_off = match maxr.sub_reduced(&br) {
            Some(v) => v,
            None => {
                return Err(AxisError::Unrepresentable);
            },
        };
        if !self.min_to_base.le(&max_off) {
            return Err(AxisError::InvertedRange);
        }
        let max_back = match br.add(&max_off) {
            Some(v) => v,
            None => {
                return Err(AxisError::Unrepresentable);
            },
        };
        if max_off.sub(&self.min_to_base).is_none() {
            return Err(AxisError::Unrepresentable);
        }
        if T::try_from_ratio(&max_back).is_none() {
            return Err(AxisError::Unrepresentable);
        }
        proof {
            let sub_max = rv_sub(max.rat(), self.base.rat());
            crate::geometry::ratio::lemma_rv_add_wf(max.rat(), self.base.rat());
            crate::geometry::ratio::lemma_rv_norm(sub_max);
            crate::geometry::ratio::lemma_rv_add_congruence(
                self.base.rat(),
                max_off@,
                self.base.rat(),
                sub_max,
            );
            crate::geometry::ratio::lemma_rv_add_sub_cancel(max.rat(), self.base.rat());
            crate::geometry::ratio::lemma_rv_add_comm(sub_max, self.base.rat());
            crate::geometry::ratio::lemma_rv_add_wf(self.base.rat(), max_off@);
            crate::geometry::ratio::lemma_rv_add_wf(self.base.rat(), sub_max);
            crate::geometry::ratio::lemma_rv_eq_trans(
                rv_add(self.base.rat(), max_off@),
                rv_add(self.base.rat(), sub_max),
                max.rat(),
            );
        }
        self.max_to_base = max_off;
        Ok(())
    }

    /// Whether `value` lies inside the interval, as the coordinate type
    /// sees its endpoints.
    pub fn contains(&self, value: &T) -> (r: bool)
        requires
            self.wf(),
            value.wf_val(),
        ensures
            r == (rv_le(self.min_snap(), value.rat()) && rv_le(value.rat(), self.max_snap())),
    {
        let vr = value.to_ratio();
        let mn = self.min();
        let mx = self.max();
        let mnr = mn.to_ratio();
        let mxr = mx.to_ratio();
        mnr.le(&vr) && vr.le(&mxr)
    }

    /// The exact width of the interval.
    pub fn size_ratio(&self) -> (r: Ratio)
        requires
            self.wf(),
        ensures
            r.wf(),
            r@ == self.size_rat(),
    {
        match self.max_to_base.sub(&self.min_to_base) {
            Some(v) => v,
            None => vstd::pervasive::unreached(),
        }
    }

    /// How many pixels one data unit covers on the given pixel interval.
    /// Refused for an empty interval (the scale would be infinite) or when
    /// the quotient leaves the representable window.
    /// The value and definedness of the pixels-per-data-unit scale.
    pub open spec fn scale_spec(self, pxsize: RatVal) -> RatVal {
        crate::geometry::ratio::rv_norm(rv_div(pxsize, self.size_rat()))
    }

    pub open spec fn scale_defined(self, pxsize: RatVal) -> bool {
        self.size_rat().num != 0 && in_bounds(self.scale_spec(pxsize))
    }

    pub fn pixels_per_element(&self, bounds: &AxisRangePixels) -> (r: Result<Ratio, AxisError>)
        requires
            self.wf(),
            bounds.wf(),
        ensures
            r matches Ok(p) ==> p.wf() && p@ == self.scale_spec(bounds.size@) && rv_eq(
                p@,
                rv_div(bounds.size@, self.size_rat()),
            ),
            r is Ok <==> self.scale_defined(bounds.size@),
            (r == Err::<Ratio, AxisError>(AxisError::DegenerateScale)) <==> self.size_rat().num
                == 0,
    {
        let s = self.size_ratio();
        if s.is_zero() {
            return Err(AxisError::DegenerateScale);
        }
        match bounds.size.div_reduced(&s) {
            Some(p) => {
                proof {
                    crate::geometry::ratio::lemma_rv_div_wf(bounds.size@, self.size_rat());
                    crate::geometry::ratio::lemma_rv_norm(rv_div(bounds.size@, self.size_rat()));
                }
                Ok(p)
            },
            None => Err(AxisError::Unrepresentable),
        }
    }

    /// How much data distance a pixel distance `delta` covers.
    /// The value and definedness of a pixel distance converted to a data
    /// distance.
    pub open spec fn elements_spec(self, delta: RatVal, pxsize: RatVal) -> RatVal {
        crate::geometry::ratio::rv_norm(
            rv_div(
                crate::geometry::ratio::rv_norm(rv_mul(delta, self.size_rat())),
                pxsize,
            ),
        )
    }

    pub open spec fn elements_defined(self, delta: RatVal, pxsize: RatVal) -> bool {
        &&& pxsize.num != 0
        &&& in_bounds(crate::geometry::ratio::rv_norm(rv_mul(delta, self.size_rat())))
        &&& in_bounds(self.elements_spec(delta, pxsize))
    }

    pub fn elements_per_pixels(&self, delta: &Ratio, bounds: &AxisRangePixels) -> (r: Result<
        Ratio,
        AxisError,
    >)
        requires
            self.wf(),
            delta.wf(),
            bounds.wf(),
        ensures
            r matches Ok(d) ==> d.wf() && d@ == self.elements_spec(delta@, bounds.size@) && rv_eq(
                d@,
                rv_div(rv_mul(delta@, self.size_rat()), bounds.size@),
            ),
            r is Ok <==> self.elements_defined(delta@, bounds.size@),
            (r == Err::<Ratio, AxisError>(AxisError::DegenerateScale)) <==> bounds.size@.num == 0,
    {
        if bounds.size.is_zero() {
            return Err(AxisError::DegenerateScale);
        }
        let s = self.size_ratio();
        let m = match delta.mul_reduced(&s) {
            Some(v) => v,
            None => {
                return Err(AxisError::Unrepresentable);
            },
        };
        match m.div_reduced(&bounds.size) {
            Some(v) => {
                proof {
                    let mul_ex = rv_mul(delta@, self.size_rat());
                    crate::geometry::ratio::lemma_rv_add_wf(delta@, self.size_rat());
                    crate::geometry::ratio::lemma_rv_norm(mul_ex);
                    crate::geometry::ratio::lemma_rv_div_congruence(m@, mul_ex, bounds.size@);
                    crate::geometry::ratio::lemma_rv_div_wf(m@, bounds.size@);
                    crate::geometry::ratio::lemma_rv_div_wf(mul_ex, bounds.size@);
                    crate::geometry::ratio::lemma_rv_norm(rv_div(m@, bounds.size@));
                    crate::geometry::ratio::lemma_rv_eq_trans(
                        v@,
                        rv_div(m@, bounds.size@),
                        rv_div(mul_ex, bounds.size@),
                    );
                }
                Ok(v)
            },
            None => Err(AxisError::Unrepresentable),
        }
    }
}

} // verus!

verus! {

impl<T: AxisType> AxisRange<T> {
    /// The checks [`Self::transform`] makes once a scale `ppe` is cached.
    pub open spec fn transform_defined(self, ppe: RatVal, px_min: RatVal, v: RatVal) -> bool {
        &&& in_bounds(rv_sub(v, T::snap(self.min_rat())))
        &&& in_bounds(rv_mul(rv_sub(v, T::snap(self.min_rat())), ppe))
        &&& in_bounds(transform_spec(T::snap(self.min_rat()), ppe, px_min, v))
    }

    /// Map a data value onto the pixel axis with the cached scale.
    /// Refused when no scale is cached or a step leaves the representable
    /// window.
    pub fn transform(&self, bounds: &AxisRangePixels, value: &T) -> (r: Result<Ratio, AxisError>)
        requires
            self.wf(),
            bounds.wf(),
            value.wf_val(),
        ensures
            r matches Ok(p) ==> {
                &&& bounds.pixels_per_element matches Some(s) && p.wf() && p@ == transform_spec(
                    T::snap(self.min_rat()),
                    s@,
                    bounds.min@,
                    value.rat(),
                )
            },
            r is Ok <==> (bounds.pixels_per_element matches Some(s) && self.transform_defined(
                s@,
                bounds.min@,
                value.rat(),
            )),
            (r == Err::<Ratio, AxisError>(AxisError::MissingScale)) <==> bounds.pixels_per_element
                is None,
    {
        let ppe = match bounds.pixels_per_element {
            Some(p) => p,
            None => {
                return Err(AxisError::MissingScale);
            },
        };
        let mn = self.min();
        let mnr = mn.to_ratio();
        let vr = value.to_ratio();
        let d = match vr.sub(&mnr) {
            Some(v) => v,
            None => {
                return Err(AxisError::Unrepresentable);
            },
        };
        let m = match d.mul(&ppe) {
            Some(v) => v,
            None => {
                return Err(AxisError::Unrepresentable);
            },
        };
        match m.add(&bounds.min) {
            Some(p) => Ok(p),
            None => Err(AxisError::Unrepresentable),
        }
    }

    /// The checks [`Self::transform_reverse`] makes once a scale is cached.
    pub open spec fn transform_reverse_defined(
        self,
        ppe: RatVal,
        px_min: RatVal,
        p: RatVal,
    ) -> bool {
        &&& in_bounds(rv_sub(p, px_min))
        &&& in_bounds(rv_div(rv_sub(p, px_min), ppe))
        &&& in_bounds(transform_reverse_spec(T::snap(self.min_rat()), ppe, px_min, p))
        &&& T::from_defined(transform_reverse_spec(T::snap(self.min_rat()), ppe, px_min, p))
    }

    /// Map a pixel position back to the data value under it, with the same
    /// cached scale that [`Self::transform`] uses.
    pub fn transform_reverse(&self, bounds: &AxisRangePixels, pixel: &Ratio) -> (r: Result<
        T,
        AxisError,
    >)
        requires
            self.wf(),
            bounds.wf(),
            pixel.wf(),
        ensures
            r matches Ok(v) ==> {
                &&& bounds.pixels_per_element matches Some(s) && v.wf_val() && v.rat() == T::snap(
                    transform_reverse_spec(T::snap(self.min_rat()), s@, bounds.min@, pixel@),
                )
            },
            r is Ok <==> (bounds.pixels_per_element matches Some(s)
                && self.transform_reverse_defined(s@, bounds.min@, pixel@)),
            (r == Err::<T, AxisError>(AxisError::MissingScale)) <==> bounds.pixels_per_element
                is None,
    {
        let ppe = match bounds.pixels_per_element {
            Some(p) => p,
            None => {
                return Err(AxisError::MissingScale);
            },
        };
        let mn = self.min();
        let mnr = mn.to_ratio();
        let d = match pixel.sub(&bounds.min) {
            Some(v) => v,
            None => {
                return Err(AxisError::Unrepresentable);
            },
        };
        let q = match d.div(&ppe) {
            Some(v) => v,
            None => {
                return Err(AxisError::Unrepresentable);
            },
        };
        let s = match mnr.add(&q) {
            Some(v) => v,
            None => {
                return Err(AxisError::Unrepresentable);
            },
        };
        match T::try_from_ratio(&s) {
            Some(v) => Ok(v),
            None => Err(AxisError::Unrepresentable),
        }
    }

    /// The value (in lowest terms at each step) and definedness of a pixel
    /// position mapped back to a base-relative offset.
    pub open spec fn reverse_ratio_spec(self, ppe: RatVal, px_min: RatVal, p: RatVal) -> RatVal {
        crate::geometry::ratio::rv_norm(
            rv_add(
                self.min_to_base@,
                crate::geometry::ratio::rv_norm(
                    rv_div(crate::geometry::ratio::rv_norm(rv_sub(p, px_min)), ppe),
                ),
            ),
        )
    }

    pub open spec fn reverse_ratio_defined(self, ppe: RatVal, px_min: RatVal, p: RatVal) -> bool {
        &&& in_bounds(crate::geometry::ratio::rv_norm(rv_sub(p, px_min)))
        &&& in_bounds(
            crate::geometry::ratio::rv_norm(
                rv_div(crate::geometry::ratio::rv_norm(rv_sub(p, px_min)), ppe),
            ),
        )
        &&& in_bounds(self.reverse_ratio_spec(ppe, px_min, p))
    }

    /// Map a pixel position back to a base-relative offset, without rounding
    /// onto the coordinate type.  This is the form the zoom pivot uses.
    pub fn transform_reverse_ratio(&self, bounds: &AxisRangePixels, pixel: &Ratio) -> (r: Result<
        Ratio,
        AxisError,
    >)
        requires
            self.wf(),
            bounds.wf(),
            pixel.wf(),
        ensures
            r matches Ok(v) ==> {
                &&& bounds.pixels_per_element matches Some(s) && v.wf() && v@
                    == self.reverse_ratio_spec(s@, bounds.min@, pixel@) && rv_eq(
                    v@,
                    transform_reverse_spec(self.min_to_base@, s@, bounds.min@, pixel@),
                )
            },
            r is Ok <==> (bounds.pixels_per_element matches Some(s)
                && self.reverse_ratio_defined(s@, bounds.min@, pixel@)),
            (r == Err::<Ratio, AxisError>(AxisError::MissingScale)) <==> bounds.pixels_per_element
                is None,
    {
        let ppe = match bounds.pixels_per_element {
            Some(p) => p,
            None => {
                return Err(AxisError::MissingScale);
            },
        };
        let d = match pixel.sub_reduced(&bounds.min) {
            Some(v) => v,
            None => {
                return Err(AxisError::Unrepresentable);
            },
        };
        let q = match d.div_reduced(&ppe) {
            Some(v) => v,
            None => {
                return Err(AxisError::Unrepresentable);
            },
        };
        match self.min_to_base.add_reduced(&q) {
            Some(v) => {
                proof {
                    let sub_ex = rv_sub(pixel@, bounds.min@);
                    crate::geometry::ratio::lemma_rv_add_wf(pixel@, bounds.min@);
                    crate::geometry::ratio::lemma_rv_norm(sub_ex);
                    crate::geometry::ratio::lemma_rv_div_congruence(d@, sub_ex, ppe@);
                    crate::geometry::ratio::lemma_rv_div_wf(d@, ppe@);
                    crate::geometry::ratio::lemma_rv_div_wf(sub_ex, ppe@);
                    crate::geometry::ratio::lemma_rv_norm(rv_div(d@, ppe@));
                    crate::geometry::ratio::lemma_rv_eq_trans(
                        q@,
                        rv_div(d@, ppe@),
                        rv_div(sub_ex, ppe@),
                    );
                    crate::geometry::ratio::lemma_rv_add_congruence(
                        self.min_to_base@,
                        q@,
                        self.min_to_base@,
                        rv_div(sub_ex, ppe@),
                    );
                    crate::geometry::ratio::lemma_rv_add_wf(self.min_to_base@, q@);
                    crate::geometry::ratio::lemma_rv_norm(rv_add(self.min_to_base@, q@));
                    crate::geometry::ratio::lemma_rv_add_wf(
                        self.min_to_base@,
                        rv_div(sub_ex, ppe@),
                    );
                    crate::geometry::ratio::lemma_rv_eq_trans(
                        v@,
                        rv_add(self.min_to_base@, q@),
                        rv_add(self.min_to_base@, rv_div(sub_ex, ppe@)),
                    );
                }
                Ok(v)
            },
            None => Err(AxisError::Unrepresentable),
        }
    }

    /// The checks [`Self::translate_offsets`] makes: both shifted offsets,
    /// stored in lowest terms, must fit the representation window, as must
    /// the endpoints they reconstruct and the width, and both endpoints
    /// must lie in the coordinate type's domain.
    pub open spec fn translate_defined(self, delta: RatVal) -> bool {
        let nmin = crate::geometry::ratio::rv_norm(rv_add(self.min_to_base@, delta));
        let nmax = crate::geometry::ratio::rv_norm(rv_add(self.max_to_base@, delta));
        &&& in_bounds(nmin)
        &&& in_bounds(nmax)
        &&& in_bounds(rv_add(self.base.rat(), nmin))
        &&& in_bounds(rv_add(self.base.rat(), nmax))
        &&& in_bounds(rv_sub(nmax, nmin))
        &&& T::from_defined(rv_add(self.base.rat(), nmin))
        &&& T::from_defined(rv_add(self.base.rat(), nmax))
    }

    /// Shift both offsets by the same exact amount (the pan primitive); the
    /// base coordinate is untouched.  The attempt is discarded when the
    /// shifted interval leaves the representable window or the coordinate
    /// type's domain.
    pub fn translate_offsets(&mut self, delta: &Ratio) -> (r: Result<(), AxisError>)
        requires
            old(self).wf(),
            delta.wf(),
        ensures
            r is Ok ==> {
                &&& final(self).wf()
                &&& final(self).base == old(self).base
                &&& final(self).min_to_base@ == crate::geometry::ratio::rv_norm(
                    rv_add(old(self).min_to_base@, delta@),
                )
                &&& final(self).max_to_base@ == crate::geometry::ratio::rv_norm(
                    rv_add(old(self).max_to_base@, delta@),
                )
                &&& rv_eq(final(self).min_to_base@, rv_add(old(self).min_to_base@, delta@))
                &&& rv_eq(final(self).max_to_base@, rv_add(old(self).max_to_base@, delta@))
            },
            r is Err ==> *final(self) == *old(self),
            r is Ok <==> old(self).translate_defined(delta@),
    {
        let new_min = match self.min_to_base.add_reduced(delta) {
            Some(v) => v,
            None => {
                return Err(AxisError::Unrepresentable);
            },
        };
        let new_max = match self.max_to_base.add_reduced(delta) {
            Some(v) => v,
            None => {
                return Err(AxisError::Unrepresentable);
            },
        };
        let br = self.base.to_ratio();
        let min_back = match br.add(&new_min) {
            Some(v) => v,
            None => {
                return Err(AxisError::Unrepresentable);
            },
        };
        let max_back = match br.add(&new_max) {
            Some(v) => v,
            None => {
                return Err(AxisError::Unrepresentable);
            },
        };
        if new_max.sub(&new_min).is_none() {
            return Err(AxisError::Unrepresentable);
        }
        if T::try_from_ratio(&min_back).is_none() {
            return Err(AxisError::Unrepresentable);
        }
        if T::try_from_ratio(&max_back).is_none() {
            return Err(AxisError::Unrepresentable);
        }
        proof {
            let add_min = rv_add(self.min_to_base@, delta@);
            let add_max = rv_add(self.max_to_base@, delta@);
            crate::geometry::ratio::lemma_rv_add_wf(self.min_to_base@, delta@);
            crate::geometry::ratio::lemma_rv_add_wf(self.max_to_base@, delta@);
            crate::geometry::ratio::lemma_rv_norm(add_min);
            crate::geometry::ratio::lemma_rv_norm(add_max);
            crate::geometry::ratio::lemma_rv_le_add_monotone(
                self.min_to_base@,
                self.max_to_base@,
                delta@,
            );
            crate::geometry::ratio::lemma_rv_le_congruence(
                add_min,
                add_max,
                new_min@,
                new_max@,
            );
        }
        self.min_to_base = new_min;
        self.max_to_base = new_max;
        Ok(())
    }

    /// The base the union picks: the smaller of the two bases (ties keep
    /// `self`'s).
    pub open spec fn union_base(self, other: AxisRange<T>) -> T {
        if rv_lt(other.base.rat(), self.base.rat()) {
            other.base
        } else {
            self.base
        }
    }

    /// The union's lower endpoint: the smaller of the two lower endpoints
    /// as the coordinate type sees them.
    pub open spec fn union_min(self, other: AxisRange<T>) -> RatVal {
        if rv_le(self.min_snap(), other.min_snap()) {
            self.min_snap()
        } else {
            other.min_snap()
        }
    }

    /// The union's upper endpoint: the larger of the two upper endpoints
    /// as the coordinate type sees them.
    pub open spec fn union_max(self, other: AxisRange<T>) -> RatVal {
        if rv_le(other.max_snap(), self.max_snap()) {
            self.max_snap()
        } else {
            other.max_snap()
        }
    }

    /// The smallest interval covering both `self` and `other`: its lower
    /// endpoint is the minimum of the two lower endpoints and its upper
    /// endpoint the maximum of the two upper endpoints.  `None` only when
    /// the combined interval cannot be represented around the chosen base.
    pub fn union(&self, other: &AxisRange<T>) -> (r: Option<AxisRange<T>>)
        requires
            self.wf(),
            other.wf(),
        ensures
            r matches Some(u) ==> {
                &&& u.wf()
                &&& u.base == self.union_base(*other)
                &&& rv_eq(u.min_rat(), self.union_min(*other))
                &&& rv_eq(u.max_rat(), self.union_max(*other))
            },
            r is Some <==> AxisRange::<T>::with_base_defined(
                self.union_base(*other).rat(),
                self.union_min(*other),
                self.union_max(*other),
            ),
    {
        let sb = self.base.to_ratio();
        let ob = other.base.to_ratio();
        let base = if ob.lt(&sb) {
            other.base
        } else {
            self.base
        };
        let smin = self.min();
        let omin = other.min();
        let sminr = smin.to_ratio();
        let ominr = omin.to_ratio();
        let minv = if sminr.le(&ominr) {
            smin
        } else {
            omin
        };
        let smax = self.max();
        let omax = other.max();
        let smaxr = smax.to_ratio();
        let omaxr = omax.to_ratio();
        let maxv = if omaxr.le(&smaxr) {
            smax
        } else {
            omax
        };
        proof {
            crate::geometry::ratio::lemma_rv_le_add_monotone(
                self.min_to_base@,
                self.max_to_base@,
                self.base.rat(),
            );
            crate::geometry::ratio::lemma_rv_add_comm(self.min_to_base@, self.base.rat());
            crate::geometry::ratio::lemma_rv_add_comm(self.max_to_base@, self.base.rat());
            crate::geometry::ratio::lemma_rv_le_add_monotone(
                other.min_to_base@,
                other.max_to_base@,
                other.base.rat(),
            );
            crate::geometry::ratio::lemma_rv_add_comm(other.min_to_base@, other.base.rat());
            crate::geometry::ratio::lemma_rv_add_comm(other.max_to_base@, other.base.rat());
            T::lemma_snap_monotone(self.min_rat(), self.max_rat());
            T::lemma_snap_monotone(other.min_rat(), other.max_rat());
            crate::geometry::ratio::lemma_rv_le_trans(minv.rat(), self.min_snap(), self.max_snap());
            crate::geometry::ratio::lemma_rv_le_trans(minv.rat(), self.max_snap(), maxv.rat());
        }
        match Self::new_with_base(base, minv, maxv) {
            Ok(u) => Some(u),
            Err(_) => None,
        }
    }
}

} // verus!


verus! {

/// The `k`-th grid offset: `min_off` stepped `k` times by `step`.
pub open spec fn step_off(min_off: RatVal, step: RatVal, k: nat) -> RatVal
    decreases k,
{
    if k == 0 {
        min_off
    } else {
        crate::geometry::ratio::rv_norm(rv_add(step_off(min_off, step, (k - 1) as nat), step))
    }
}

/// The same offset in closed form: `min_off + k * step`.
pub open spec fn step_off_closed(min_off: RatVal, step: RatVal, k: int) -> RatVal {
    rv_add(min_off, rv_mul(rv_int(k), step))
}

/// Stepped offsets stay well formed.
pub proof fn lemma_step_off_wf(min_off: RatVal, step: RatVal, k: nat)
    requires
        rv_wf(min_off),
        rv_wf(step),
    ensures
        rv_wf(step_off(min_off, step, k)),
    decreases k,
{
    if k > 0 {
        lemma_step_off_wf(min_off, step, (k - 1) as nat);
        crate::geometry::ratio::lemma_den_positive(
            step_off(min_off, step, (k - 1) as nat).den,
            step.den,
        );
        crate::geometry::ratio::lemma_rv_norm(
            rv_add(step_off(min_off, step, (k - 1) as nat), step),
        );
    }
}

/// The `k`-th stepped offset equals `min_off + k * step`.
#[verifier::rlimit(100)]
pub proof fn lemma_step_off_closed_form(min_off: RatVal, step: RatVal, k: nat)
    requires
        rv_wf(min_off),
        rv_wf(step),
    ensures
        rv_eq(step_off(min_off, step, k), step_off_closed(min_off, step, k as int)),
    decreases k,
{
    let an = min_off.num;
    let ad = min_off.den;
    let sn = step.num;
    let sd = step.den;
    if k == 0 {
        assert(an * (ad * (1 * sd)) == (an * (1 * sd) + (0 * sn) * ad) * ad) by (nonlinear_arith) {}
    } else {
        let j = (k - 1) as nat;
        lemma_step_off_closed_form(min_off, step, j);
        lemma_step_off_wf(min_off, step, j);
        lemma_step_off_wf(min_off, step, k);
        let prev = step_off(min_off, step, j);
        crate::geometry::ratio::lemma_rv_add_wf(prev, step);
        crate::geometry::ratio::lemma_rv_norm(rv_add(prev, step));
        let pn = prev.num;
        let pd = prev.den;
        // the induction hypothesis, written over the scalar parts
        let ji = j as int;
        assert(ad * (1 * sd) == ad * sd);
        assert(an * (1 * sd) == an * sd);
        assert(pn * (ad * sd) == (an * sd + ji * sn * ad) * pd);
        assert((pn * sd + sn * pd) * (ad * sd) == (pn * (ad * sd)) * sd + sn * pd * ad * sd)
            by (nonlinear_arith) {}
        assert((pn * (ad * sd)) * sd == ((an * sd + ji * sn * ad) * pd) * sd);
        assert(((an * sd + ji * sn * ad) * pd) * sd == (an * sd + ji * sn * ad) * (pd * sd))
            by (nonlinear_arith) {}
        assert((an * sd + ji * sn * ad) * (pd * sd) == (an * sd) * (pd * sd) + (ji * sn * ad) * (pd
            * sd)) by (nonlinear_arith) {}
        assert((ji * sn * ad) * (pd * sd) == ji * (sn * ad * pd * sd)) by (nonlinear_arith) {}
        assert((an * sd) * (pd * sd) == an * sd * pd * sd) by (nonlinear_arith) {}
        assert(((an * sd + ji * sn * ad) * pd) * sd == an * sd * pd * sd + ji * (sn * ad * pd
            * sd));
        let ki2 = ji + 1;
        assert((an * sd + ki2 * sn * ad) * (pd * sd) == (an * sd) * (pd * sd) + (ki2 * sn * ad) * (
        pd * sd)) by (nonlinear_arith) {}
        assert((an * sd) * (pd * sd) == an * sd * pd * sd) by (nonlinear_arith) {}
        assert((ki2 * sn * ad) * (pd * sd) == ki2 * (sn * ad * pd * sd)) by (nonlinear_arith) {}
        assert((an * sd + ki2 * sn * ad) * (pd * sd) == an * sd * pd * sd + ki2 * (sn * ad * pd
            * sd));
        assert(sn * pd * ad * sd == sn * ad * pd * sd) by (nonlinear_arith) {}
        assert((ji + 1) * (sn * ad * pd * sd) == ji * (sn * ad * pd * sd) + sn * ad * pd * sd)
            by (nonlinear_arith) {}
        assert(((an * sd + ji * sn * ad) * pd) * sd + sn * pd * ad * sd == (an * sd + (ji + 1) * sn
            * ad) * (pd * sd));
        assert((pn * sd + sn * pd) * (ad * (1 * sd)) == (an * (1 * sd) + ((k as int) * sn) * ad) * (
        pd * sd));
        assert(rv_eq(rv_add(prev, step), step_off_closed(min_off, step, k as int)));
        crate::geometry::ratio::lemma_den_positive(min_off.den, 1 * step.den);
        crate::geometry::ratio::lemma_rv_eq_trans(
            step_off(min_off, step, k),
            rv_add(prev, step),
            step_off_closed(min_off, step, k as int),
        );
    }
}

/// Each stepped offset lies strictly below the next when the step is
/// positive.
pub proof fn lemma_step_off_increases(min_off: RatVal, step: RatVal, k: nat)
    requires
        rv_wf(min_off),
        rv_wf(step),
        rv_lt(rv_zero(), step),
    ensures
        rv_lt(step_off(min_off, step, k), step_off(min_off, step, (k + 1) as nat)),
{
    lemma_step_off_wf(min_off, step, k);
    let x = step_off(min_off, step, k);
    crate::geometry::ratio::lemma_rv_add_wf(x, step);
    crate::geometry::ratio::lemma_rv_norm(rv_add(x, step));
    assert(x.num * (x.den * step.den) < (x.num * step.den + step.num * x.den) * x.den)
        by (nonlinear_arith)
        requires
            x.den > 0,
            step.den > 0,
            0 * step.den < step.num * 1,
    {}
    crate::geometry::ratio::lemma_rv_lt_congruence(
        x,
        rv_add(x, step),
        x,
        step_off(min_off, step, (k + 1) as nat),
    );
}

/// How many grid steps fit: with a positive step and a non-inverted
/// interval, offsets `0 ..= q` stay inside `[min_off, max_off]` and offset
/// `q + 1` is the first to leave it, where `q = floor((max - min) / step)`.
#[verifier::rlimit(100)]
pub proof fn lemma_step_positions(min_off: RatVal, max_off: RatVal, step: RatVal)
    requires
        rv_wf(min_off),
        rv_wf(max_off),
        rv_wf(step),
        rv_lt(rv_zero(), step),
        rv_le(min_off, max_off),
    ensures
        rv_floor(rv_div(rv_sub(max_off, min_off), step)) >= 0,
        forall|k: nat|
            k <= rv_floor(rv_div(rv_sub(max_off, min_off), step)) ==> rv_le(
                min_off,
                #[trigger] step_off(min_off, step, k),
            ) && rv_le(step_off(min_off, step, k), max_off),
        rv_lt(
            max_off,
            step_off(
                min_off,
                step,
                (rv_floor(rv_div(rv_sub(max_off, min_off), step)) + 1) as nat,
            ),
        ),
{
    let an = min_off.num;
    let ad = min_off.den;
    let xn = max_off.num;
    let xd = max_off.den;
    let sn = step.num;
    let sd = step.den;
    let dn = xn * ad - an * xd;
    let dd = xd * ad;
    assert(sn > 0);
    assert(dd > 0) by (nonlinear_arith)
        requires
            xd > 0,
            ad > 0,
            dd == xd * ad,
    {}
    assert(dn >= 0) by (nonlinear_arith)
        requires
            an * xd <= xn * ad,
            dn == xn * ad - an * xd,
    {}
    assert(dd * sn > 0) by (nonlinear_arith)
        requires
            dd > 0,
            sn > 0,
    {}
    assert(dn * sd >= 0) by (nonlinear_arith)
        requires
            dn >= 0,
            sd > 0,
    {}
    let q = rv_floor(rv_div(rv_sub(max_off, min_off), step));
    assert(q == (dn * sd) / (dd * sn));
    vstd::arithmetic::div_mod::lemma_fundamental_div_mod(dn * sd, dd * sn);
    vstd::arithmetic::div_mod::lemma_mod_bound(dn * sd, dd * sn);
    let rr = (dn * sd) % (dd * sn);
    assert(dn * sd == (dd * sn) * q + rr);
    assert(q >= 0) by (nonlinear_arith)
        requires
            dn * sd == (dd * sn) * q + rr,
            rr < dd * sn,
            dd * sn > 0,
            dn * sd >= 0,
    {}
    assert forall|k: nat| k <= q implies rv_le(min_off, #[trigger] step_off(min_off, step, k))
        && rv_le(step_off(min_off, step, k), max_off) by {
        lemma_step_off_closed_form(min_off, step, k);
        lemma_step_off_wf(min_off, step, k);
        let pos = step_off_closed(min_off, step, k as int);
        let ki = k as int;
        assert(pos.num == an * (1 * sd) + (ki * sn) * ad);
        assert(pos.den == ad * (1 * sd));
        assert(pos.den > 0) by (nonlinear_arith)
            requires
                pos.den == ad * (1 * sd),
                ad > 0,
                sd > 0,
        {}
        assert(an * pos.den <= pos.num * ad) by (nonlinear_arith)
            requires
                pos.num == an * (1 * sd) + (ki * sn) * ad,
                pos.den == ad * (1 * sd),
                ki >= 0,
                sn > 0,
                ad > 0,
        {}
        assert(ad * (1 * sd) == ad * sd);
        assert(an * (1 * sd) == an * sd);
        assert(dn * sd == (xn * ad - an * xd) * sd);
        assert(dd * sn == (xd * ad) * sn);
        assert((an * sd + ki * sn * ad) * xd == an * sd * xd + ki * (sn * ad * xd))
            by (nonlinear_arith) {}
        assert((xn * ad - an * xd) * sd == xn * ad * sd - an * xd * sd) by (nonlinear_arith) {}
        assert(ki * ((xd * ad) * sn) == ki * (sn * ad * xd)) by (nonlinear_arith) {}
        assert(xn * (ad * sd) == xn * ad * sd) by (nonlinear_arith) {}
        assert(an * sd * xd == an * xd * sd) by (nonlinear_arith) {}
        assert(xn * (ad * sd) - (an * sd + ki * sn * ad) * xd == (xn * ad - an * xd) * sd - ki * ((
        xd * ad) * sn));
        assert((dd * sn) * q + rr - ki * (dd * sn) >= 0) by (nonlinear_arith)
            requires
                ki <= q,
                dd * sn > 0,
                0 <= rr,
        {}
        assert(pos.num == an * sd + ki * sn * ad);
        assert(pos.den == ad * sd);
        assert(pos.num * xd <= xn * pos.den);
        crate::geometry::ratio::lemma_rv_le_congruence(
            min_off,
            pos,
            min_off,
            step_off(min_off, step, k),
        );
        crate::geometry::ratio::lemma_rv_le_congruence(
            pos,
            max_off,
            step_off(min_off, step, k),
            max_off,
        );
    }
    let k1 = (q + 1) as nat;
    lemma_step_off_closed_form(min_off, step, k1);
    lemma_step_off_wf(min_off, step, k1);
    let pos1 = step_off_closed(min_off, step, q + 1);
    assert(pos1.den > 0) by (nonlinear_arith)
        requires
            pos1.den == ad * (1 * sd),
            ad > 0,
            sd > 0,
    {}
    assert(ad * (1 * sd) == ad * sd);
    assert(an * (1 * sd) == an * sd);
    assert(dn * sd == (xn * ad - an * xd) * sd);
    assert(dd * sn == (xd * ad) * sn);
    let q1 = q + 1;
    assert((an * sd + q1 * sn * ad) * xd == an * sd * xd + q1 * (sn * ad * xd)) by (nonlinear_arith) {}
    assert((xn * ad - an * xd) * sd == xn * ad * sd - an * xd * sd) by (nonlinear_arith) {}
    assert(q1 * ((xd * ad) * sn) == q1 * (sn * ad * xd)) by (nonlinear_arith) {}
    assert(xn * (ad * sd) == xn * ad * sd) by (nonlinear_arith) {}
    assert(an * sd * xd == an * xd * sd) by (nonlinear_arith) {}
    assert((an * sd + q1 * sn * ad) * xd - xn * (ad * sd) == q1 * ((xd * ad) * sn) - (xn * ad - an
        * xd) * sd);
    assert((q + 1) * (dd * sn) - ((dd * sn) * q + rr) > 0) by (nonlinear_arith)
        requires
            rr < dd * sn,
    {}
    assert(pos1.num == an * sd + (q + 1) * sn * ad);
    assert(pos1.den == ad * sd);
    assert(xn * pos1.den < pos1.num * xd);
    crate::geometry::ratio::lemma_rv_lt_congruence(
        max_off,
        pos1,
        max_off,
        step_off(min_off, step, k1),
    );
}

} // verus!

verus! {

impl<T: AxisType> AxisRange<T> {
    /// The grid positions of this interval for a positive step: offsets
    /// `min, min + step, min + 2*step, ...` while they stay at or below the
    /// maximum, each materialized as a coordinate.  A non-positive step is
    /// refused outright (it would describe an endless grid), as is a grid
    /// whose size leaves the machine's reach.
    /// The conditions under which [`Self::iter_step_by`] is guaranteed to
    /// succeed: a positive step, a representable step count below the
    /// machine cap, and every stepped position representable and inside
    /// the coordinate type's domain.
    pub open spec fn steps_defined(self, step: RatVal) -> bool {
        let q = rv_floor(rv_div(self.size_rat(), step));
        &&& rv_lt(rv_zero(), step)
        &&& in_bounds(rv_div(self.size_rat(), step))
        &&& q < 1000000000
        &&& forall|k: nat| k <= q ==> in_bounds(#[trigger] step_off(self.min_to_base@, step, k))
        &&& forall|k: nat|
            k <= q ==> in_bounds(
                rv_add(self.base.rat(), #[trigger] step_off(self.min_to_base@, step, k)),
            ) && T::from_defined(rv_add(self.base.rat(), step_off(self.min_to_base@, step, k)))
    }

    /// The grid positions of this interval for a positive step: offsets
    /// `min, min + step, min + 2*step, ...` while they stay at or below the
    /// maximum, each materialized as a coordinate.  A non-positive step is
    /// refused outright (it would describe an endless grid), as is a grid
    /// whose size leaves the machine's reach; success is owed whenever
    /// [`Self::steps_defined`] holds.
    pub fn iter_step_by(&self, step: &Ratio) -> (r: Result<Vec<T>, AxisError>)
        requires
            self.wf(),
            step.wf(),
        ensures
            r matches Ok(v) ==> {
                &&& v.len() == rv_floor(rv_div(self.size_rat(), step@)) + 1
                &&& forall|k: int|
                    0 <= k < v.len() ==> (#[trigger] v[k]).wf_val() && v[k].rat() == T::snap(
                        rv_add(self.base.rat(), step_off(self.min_to_base@, step@, k as nat)),
                    ) && T::from_defined(
                        rv_add(self.base.rat(), step_off(self.min_to_base@, step@, k as nat)),
                    )
                &&& forall|k: int|
                    0 <= k < v.len() ==> rv_le(
                        self.min_to_base@,
                        #[trigger] step_off(self.min_to_base@, step@, k as nat),
                    ) && rv_le(step_off(self.min_to_base@, step@, k as nat), self.max_to_base@)
                &&& rv_lt(
                    self.max_to_base@,
                    step_off(self.min_to_base@, step@, v.len() as nat),
                )
            },
            (r == Err::<Vec<T>, AxisError>(AxisError::DegenerateScale)) <==> !rv_lt(
                rv_zero(),
                step@,
            ),
            r is Err ==> (!rv_lt(rv_zero(), step@) || r == Err::<Vec<T>, AxisError>(
                AxisError::Unrepresentable,
            )),
            self.steps_defined(step@) ==> r is Ok,
    {
        let zero = Ratio::from_int(0);
        if !zero.lt(step) {
            return Err(AxisError::DegenerateScale);
        }
        let s = self.size_ratio();
        let q_ratio = match s.div(step) {
            Some(v) => v,
            None => {
                return Err(AxisError::Unrepresentable);
            },
        };
        let q: i64 = q_ratio.floor();
        proof {
            lemma_step_positions(self.min_to_base@, self.max_to_base@, step@);
        }
        if q >= 1000000000 {
            return Err(AxisError::Unrepresentable);
        }
        let count_i: i64 = q + 1;
        let count: usize = count_i as usize;
        let br = self.base.to_ratio();
        let mut out: Vec<T> = Vec::new();
        let mut current: Ratio = self.min_to_base;
        let mut i: usize = 0;
        while i < count
            invariant
                self.wf(),
                step.wf(),
                rv_lt(rv_zero(), step@),
                br.wf(),
                br@ == self.base.rat(),
                0 <= q < 1000000000,
                q == rv_floor(rv_div(self.size_rat(), step@)),
                count == q + 1,
                i <= count,
                out.len() == i,
                i < count ==> current.wf(),
                i < count ==> current@ == step_off(self.min_to_base@, step@, i as nat),
                forall|k: int|
                    0 <= k < i ==> (#[trigger] out[k]).wf_val() && out[k].rat() == T::snap(
                        rv_add(self.base.rat(), step_off(self.min_to_base@, step@, k as nat)),
                    ) && T::from_defined(
                        rv_add(self.base.rat(), step_off(self.min_to_base@, step@, k as nat)),
                    ),
                forall|k: nat|
                    k <= q ==> rv_le(
                        self.min_to_base@,
                        #[trigger] step_off(self.min_to_base@, step@, k),
                    ) && rv_le(step_off(self.min_to_base@, step@, k), self.max_to_base@),
                rv_lt(
                    self.max_to_base@,
                    step_off(self.min_to_base@, step@, (q + 1) as nat),
                ),
            decreases count - i,
        {
            let pos = match br.add(&current) {
                Some(v) => v,
                None => {
                    proof {
                        if self.steps_defined(step@) {
                            assert(in_bounds(
                                rv_add(
                                    self.base.rat(),
                                    step_off(self.min_to_base@, step@, i as nat),
                                ),
                            ));
                        }
                    }
                    return Err(AxisError::Unrepresentable);
                },
            };
            let t = match T::try_from_ratio(&pos) {
                Some(v) => v,
                None => {
                    proof {
                        if self.steps_defined(step@) {
                            assert(T::from_defined(
                                rv_add(
                                    self.base.rat(),
                                    step_off(self.min_to_base@, step@, i as nat),
                                ),
                            ));
                        }
                    }
                    return Err(AxisError::Unrepresentable);
                },
            };
            out.push(t);
            i = i + 1;
            if i < count {
                current = match current.add_reduced(step) {
                    Some(v) => v,
                    None => {
                        proof {
                            if self.steps_defined(step@) {
                                assert(in_bounds(
                                    step_off(self.min_to_base@, step@, i as nat),
                                ));
                            }
                        }
                        return Err(AxisError::Unrepresentable);
                    },
                };
                proof {
                    assert(step_off(self.min_to_base@, step@, i as nat)
                        == crate::geometry::ratio::rv_norm(
                        rv_add(step_off(self.min_to_base@, step@, (i - 1) as nat), step@),
                    ));
                }
            }
        }
        Ok(out)
    }
}

/// The visible rectangular data window: one range per axis.
#[derive(Debug, Clone, Copy)]
pub struct AxesBounds<X, Y> {
    pub x: AxisRange<X>,
    pub y: AxisRange<Y>,
}

impl<X: AxisType, Y: AxisType> AxesBounds<X, Y> {
    pub open spec fn wf(self) -> bool {
        self.x.wf() && self.y.wf()
    }

    pub fn new(x: AxisRange<X>, y: AxisRange<Y>) -> (r: AxesBounds<X, Y>)
        ensures
            r.x == x,
            r.y == y,
    {
        AxesBounds { x, y }
    }

    /// Map a data point onto the pixel plane.
    pub fn transform_point(&self, bounds: &AxesBoundsPixels, point: &Point2<X, Y>) -> (r: Result<
        Point2<Ratio, Ratio>,
        AxisError,
    >)
        requires
            self.wf(),
            bounds.wf(),
            point.x.wf_val(),
            point.y.wf_val(),
        ensures
            r matches Ok(p) ==> {
                &&& bounds.x.pixels_per_element matches Some(sx) && p.x.wf() && p.x@
                    == transform_spec(
                    X::snap(self.x.min_rat()),
                    sx@,
                    bounds.x.min@,
                    point.x.rat(),
                )
                &&& bounds.y.pixels_per_element matches Some(sy) && p.y.wf() && p.y@
                    == transform_spec(
                    Y::snap(self.y.min_rat()),
                    sy@,
                    bounds.y.min@,
                    point.y.rat(),
                )
            },
            r is Ok <==> ({
                &&& bounds.x.pixels_per_element matches Some(sx) && self.x.transform_defined(
                    sx@,
                    bounds.x.min@,
                    point.x.rat(),
                )
                &&& bounds.y.pixels_per_element matches Some(sy) && self.y.transform_defined(
                    sy@,
                    bounds.y.min@,
                    point.y.rat(),
                )
            }),
    {
        let px = match self.x.transform(&bounds.x, &point.x) {
            Ok(v) => v,
            Err(e) => {
                return Err(e);
            },
        };
        let py = match self.y.transform(&bounds.y, &point.y) {
            Ok(v) => v,
            Err(e) => {
                return Err(e);
            },
        };
        Ok(Point2 { x: px, y: py })
    }

    /// Map a pixel position back to the data point under it.
    pub fn transform_point_reverse(
        &self,
        bounds: &AxesBoundsPixels,
        p: &Point2<Ratio, Ratio>,
    ) -> (r: Result<Point2<X, Y>, AxisError>)
        requires
            self.wf(),
            bounds.wf(),
            p.x.wf(),
            p.y.wf(),
        ensures
            r matches Ok(v) ==> {
                &&& bounds.x.pixels_per_element matches Some(sx) && v.x.wf_val() && v.x.rat()
                    == X::snap(
                    transform_reverse_spec(X::snap(self.x.min_rat()), sx@, bounds.x.min@, p.x@),
                )
                &&& bounds.y.pixels_per_element matches Some(sy) && v.y.wf_val() && v.y.rat()
                    == Y::snap(
                    transform_reverse_spec(Y::snap(self.y.min_rat()), sy@, bounds.y.min@, p.y@),
                )
            },
            r is Ok <==> ({
                &&& bounds.x.pixels_per_element matches Some(sx)
                    && self.x.transform_reverse_defined(sx@, bounds.x.min@, p.x@)
                &&& bounds.y.pixels_per_element matches Some(sy)
                    && self.y.transform_reverse_defined(sy@, bounds.y.min@, p.y@)
            }),
    {
        let vx = match self.x.transform_reverse(&bounds.x, &p.x) {
            Ok(v) => v,
            Err(e) => {
                return Err(e);
            },
        };
        let vy = match self.y.transform_reverse(&bounds.y, &p.y) {
            Ok(v) => v,
            Err(e) => {
                return Err(e);
            },
        };
        Ok(Point2 { x: vx, y: vy })
    }

    /// Map a pixel position back to base-relative offsets on both axes (the
    /// zoom pivot's form).
    pub fn transform_point_reverse_ratio(
        &self,
        bounds: &AxesBoundsPixels,
        p: &Point2<Ratio, Ratio>,
    ) -> (r: Result<Point2<Ratio, Ratio>, AxisError>)
        requires
            self.wf(),
            bounds.wf(),
            p.x.wf(),
            p.y.wf(),
        ensures
            r matches Ok(v) ==> {
                &&& bounds.x.pixels_per_element matches Some(sx) && v.x.wf() && v.x@
                    == self.x.reverse_ratio_spec(sx@, bounds.x.min@, p.x@) && rv_eq(
                    v.x@,
                    transform_reverse_spec(self.x.min_to_base@, sx@, bounds.x.min@, p.x@),
                )
                &&& bounds.y.pixels_per_element matches Some(sy) && v.y.wf() && v.y@
                    == self.y.reverse_ratio_spec(sy@, bounds.y.min@, p.y@) && rv_eq(
                    v.y@,
                    transform_reverse_spec(self.y.min_to_base@, sy@, bounds.y.min@, p.y@),
                )
            },
            r is Ok <==> ({
                &&& bounds.x.pixels_per_element matches Some(sx) && self.x.reverse_ratio_defined(
                    sx@,
                    bounds.x.min@,
                    p.x@,
                )
                &&& bounds.y.pixels_per_element matches Some(sy) && self.y.reverse_ratio_defined(
                    sy@,
                    bounds.y.min@,
                    p.y@,
                )
            }),
    {
        let vx = match self.x.transform_reverse_ratio(&bounds.x, &p.x) {
            Ok(v) => v,
            Err(e) => {
                return Err(e);
            },
        };
        let vy = match self.y.transform_reverse_ratio(&bounds.y, &p.y) {
            Ok(v) => v,
            Err(e) => {
                return Err(e);
            },
        };
        Ok(Point2 { x: vx, y: vy })
    }

    /// The base-relative offsets of the lower-left corner.
    pub fn min_point_ratio(&self) -> (r: Point2<Ratio, Ratio>)
        ensures
            r.x == self.x.min_to_base,
            r.y == self.y.min_to_base,
    {
        Point2 { x: self.x.min_to_base, y: self.y.min_to_base }
    }

    /// The base-relative offsets of the upper-right corner.
    pub fn max_point_ratio(&self) -> (r: Point2<Ratio, Ratio>)
        ensures
            r.x == self.x.max_to_base,
            r.y == self.y.max_to_base,
    {
        Point2 { x: self.x.max_to_base, y: self.y.max_to_base }
    }

    /// Whether a data point lies in the visible window.
    pub fn contains(&self, point: &Point2<X, Y>) -> (r: bool)
        requires
            self.wf(),
            point.x.wf_val(),
            point.y.wf_val(),
        ensures
            r == {
                &&& rv_le(self.x.min_snap(), point.x.rat())
                &&& rv_le(point.x.rat(), self.x.max_snap())
                &&& rv_le(self.y.min_snap(), point.y.rat())
                &&& rv_le(point.y.rat(), self.y.max_snap())
            },
    {
        self.x.contains(&point.x) && self.y.contains(&point.y)
    }

    /// Shift the window by base-relative deltas (pan).  On failure the
    /// window is unchanged.
    pub fn translate(&mut self, dx: &Ratio, dy: &Ratio) -> (r: Result<(), AxisError>)
        requires
            old(self).wf(),
            dx.wf(),
            dy.wf(),
        ensures
            r is Ok ==> {
                &&& final(self).wf()
                &&& final(self).x.base == old(self).x.base
                &&& final(self).y.base == old(self).y.base
                &&& final(self).x.min_to_base@ == crate::geometry::ratio::rv_norm(
                    rv_add(old(self).x.min_to_base@, dx@),
                )
                &&& final(self).x.max_to_base@ == crate::geometry::ratio::rv_norm(
                    rv_add(old(self).x.max_to_base@, dx@),
                )
                &&& final(self).y.min_to_base@ == crate::geometry::ratio::rv_norm(
                    rv_add(old(self).y.min_to_base@, dy@),
                )
                &&& final(self).y.max_to_base@ == crate::geometry::ratio::rv_norm(
                    rv_add(old(self).y.max_to_base@, dy@),
                )
                &&& rv_eq(final(self).x.min_to_base@, rv_add(old(self).x.min_to_base@, dx@))
                &&& rv_eq(final(self).x.max_to_base@, rv_add(old(self).x.max_to_base@, dx@))
                &&& rv_eq(final(self).y.min_to_base@, rv_add(old(self).y.min_to_base@, dy@))
                &&& rv_eq(final(self).y.max_to_base@, rv_add(old(self).y.max_to_base@, dy@))
            },
            r is Err ==> *final(self) == *old(self),
            r is Ok <==> (old(self).x.translate_defined(dx@) && old(self).y.translate_defined(
                dy@,
            )),
    {
        let saved_x = self.x;
        match self.x.translate_offsets(dx) {
            Ok(()) => {},
            Err(e) => {
                return Err(e);
            },
        }
        match self.y.translate_offsets(dy) {
            Ok(()) => {},
            Err(e) => {
                self.x = saved_x;
                return Err(e);
            },
        }
        Ok(())
    }

    /// Scale both axes' extents about the window's own midpoint (a
    /// programmatic, non-anchored zoom).  A non-positive factor is refused;
    /// on any failure the window is unchanged.
    pub fn resize(&mut self, factor: &Ratio) -> (r: Result<(), AxisError>)
        requires
            old(self).wf(),
            factor.wf(),
        ensures
            r is Ok ==> {
                &&& final(self).wf()
                &&& final(self).x.base == old(self).x.base
                &&& final(self).y.base == old(self).y.base
                &&& rv_eq(
                    final(self).x.size_rat(),
                    rv_mul(old(self).x.size_rat(), factor@),
                )
                &&& rv_eq(
                    final(self).y.size_rat(),
                    rv_mul(old(self).y.size_rat(), factor@),
                )
                &&& rv_eq(
                    rv_add(final(self).x.min_to_base@, final(self).x.max_to_base@),
                    rv_add(old(self).x.min_to_base@, old(self).x.max_to_base@),
                )
                &&& rv_eq(
                    rv_add(final(self).y.min_to_base@, final(self).y.max_to_base@),
                    rv_add(old(self).y.min_to_base@, old(self).y.max_to_base@),
                )
            },
            r is Err ==> *final(self) == *old(self),
            (r == Err::<(), AxisError>(AxisError::DegenerateScale)) <==> !rv_lt(
                rv_zero(),
                factor@,
            ),
            r is Ok <==> (rv_lt(rv_zero(), factor@) && resize_defined(old(self).x, factor@)
                && resize_defined(old(self).y, factor@)),
    {
        let zero = Ratio::from_int(0);
        if !zero.lt(factor) {
            return Err(AxisError::DegenerateScale);
        }
        let new_x = match resize_axis(&self.x, factor) {
            Ok(v) => v,
            Err(e) => {
                return Err(e);
            },
        };
        let new_y = match resize_axis(&self.y, factor) {
            Ok(v) => v,
            Err(e) => {
                return Err(e);
            },
        };
        self.x = new_x;
        self.y = new_y;
        Ok(())
    }
}

/// The chain of checks a resize makes, over offsets stored in lowest
/// terms at every step.
pub open spec fn resize_defined<T: AxisType>(rg: AxisRange<T>, factor: RatVal) -> bool {
    let sum_n = crate::geometry::ratio::rv_norm(rv_add(rg.min_to_base@, rg.max_to_base@));
    let mid_n = crate::geometry::ratio::rv_norm(rv_div(sum_n, rv_int(2)));
    let scaled_n = crate::geometry::ratio::rv_norm(rv_mul(rg.size_rat(), factor));
    let half_n = crate::geometry::ratio::rv_norm(rv_div(scaled_n, rv_int(2)));
    let lo_n = crate::geometry::ratio::rv_norm(rv_sub(mid_n, half_n));
    let hi_n = crate::geometry::ratio::rv_norm(rv_add(mid_n, half_n));
    &&& in_bounds(sum_n)
    &&& in_bounds(mid_n)
    &&& in_bounds(scaled_n)
    &&& in_bounds(half_n)
    &&& in_bounds(lo_n)
    &&& in_bounds(hi_n)
    &&& in_bounds(rv_add(rg.base.rat(), lo_n))
    &&& in_bounds(rv_add(rg.base.rat(), hi_n))
    &&& in_bounds(rv_sub(hi_n, lo_n))
    &&& T::from_defined(rv_add(rg.base.rat(), lo_n))
    &&& T::from_defined(rv_add(rg.base.rat(), hi_n))
}

/// Scale one axis range's extent about its own midpoint by a positive
/// factor, keeping the base coordinate.
fn resize_axis<T: AxisType>(rg: &AxisRange<T>, factor: &Ratio) -> (r: Result<
    AxisRange<T>,
    AxisError,
>)
    requires
        rg.wf(),
        factor.wf(),
        rv_lt(rv_zero(), factor@),
    ensures
        r matches Ok(n) ==> {
            &&& n.wf()
            &&& n.base == rg.base
            &&& rv_eq(n.size_rat(), rv_mul(rg.size_rat(), factor@))
            &&& rv_eq(
                rv_add(n.min_to_base@, n.max_to_base@),
                rv_add(rg.min_to_base@, rg.max_to_base@),
            )
        },
        r is Ok <==> resize_defined(*rg, factor@),
        r is Err ==> r == Err::<AxisRange<T>, AxisError>(AxisError::Unrepresentable),
{
    let two = Ratio::from_int(2);
    let sum = match rg.min_to_base.add_reduced(&rg.max_to_base) {
        Some(v) => v,
        None => {
            return Err(AxisError::Unrepresentable);
        },
    };
    let mid = match sum.div_reduced(&two) {
        Some(v) => v,
        None => {
            return Err(AxisError::Unrepresentable);
        },
    };
    let size = rg.size_ratio();
    let scaled = match size.mul_reduced(factor) {
        Some(v) => v,
        None => {
            return Err(AxisError::Unrepresentable);
        },
    };
    let half = match scaled.div_reduced(&two) {
        Some(v) => v,
        None => {
            return Err(AxisError::Unrepresentable);
        },
    };
    let new_min = match mid.sub_reduced(&half) {
        Some(v) => v,
        None => {
            return Err(AxisError::Unrepresentable);
        },
    };
    let new_max = match mid.add_reduced(&half) {
        Some(v) => v,
        None => {
            return Err(AxisError::Unrepresentable);
        },
    };
    let br = rg.base.to_ratio();
    let min_back = match br.add(&new_min) {
        Some(v) => v,
        None => {
            return Err(AxisError::Unrepresentable);
        },
    };
    let max_back = match br.add(&new_max) {
        Some(v) => v,
        None => {
            return Err(AxisError::Unrepresentable);
        },
    };
    if new_max.sub(&new_min).is_none() {
        return Err(AxisError::Unrepresentable);
    }
    if T::try_from_ratio(&min_back).is_none() {
        return Err(AxisError::Unrepresentable);
    }
    if T::try_from_ratio(&max_back).is_none() {
        return Err(AxisError::Unrepresentable);
    }
    proof {
        let mn = rg.min_to_base@;
        let mx = rg.max_to_base@;
        let two_v = rv_int(2);
        let sum_ex = rv_add(mn, mx);
        let mid_ex = rv_div(sum_ex, two_v);
        let scaled_ex = rv_mul(rv_sub(mx, mn), factor@);
        let half_ex = rv_div(scaled_ex, two_v);
        let lo_ex = rv_sub(mid_ex, half_ex);
        let hi_ex = rv_add(mid_ex, half_ex);
        lemma_resize_offsets(mn, mx, factor@);
        crate::geometry::ratio::lemma_rv_add_wf(mn, mx);
        crate::geometry::ratio::lemma_rv_norm(sum_ex);
        crate::geometry::ratio::lemma_rv_div_wf(sum@, two_v);
        crate::geometry::ratio::lemma_rv_div_wf(sum_ex, two_v);
        crate::geometry::ratio::lemma_rv_div_congruence(sum@, sum_ex, two_v);
        crate::geometry::ratio::lemma_rv_norm(rv_div(sum@, two_v));
        crate::geometry::ratio::lemma_rv_eq_trans(mid@, rv_div(sum@, two_v), mid_ex);
        crate::geometry::ratio::lemma_rv_add_wf(rv_sub(mx, mn), factor@);
        crate::geometry::ratio::lemma_rv_norm(scaled_ex);
        crate::geometry::ratio::lemma_rv_div_wf(scaled@, two_v);
        crate::geometry::ratio::lemma_rv_div_wf(scaled_ex, two_v);
        crate::geometry::ratio::lemma_rv_div_congruence(scaled@, scaled_ex, two_v);
        crate::geometry::ratio::lemma_rv_norm(rv_div(scaled@, two_v));
        crate::geometry::ratio::lemma_rv_eq_trans(half@, rv_div(scaled@, two_v), half_ex);
        // the stored offsets equal the exact midpoint-and-half-width forms
        crate::geometry::ratio::lemma_rv_add_wf(mid@, half@);
        crate::geometry::ratio::lemma_rv_add_wf(mid_ex, half_ex);
        crate::geometry::ratio::lemma_rv_sub_congruence(mid@, half@, mid_ex, half_ex);
        crate::geometry::ratio::lemma_rv_norm(rv_sub(mid@, half@));
        crate::geometry::ratio::lemma_rv_eq_trans(new_min@, rv_sub(mid@, half@), lo_ex);
        crate::geometry::ratio::lemma_rv_add_congruence(mid@, half@, mid_ex, half_ex);
        crate::geometry::ratio::lemma_rv_norm(rv_add(mid@, half@));
        crate::geometry::ratio::lemma_rv_eq_trans(new_max@, rv_add(mid@, half@), hi_ex);
        // ordering of the new offsets
        crate::geometry::ratio::lemma_rv_eq_symm(new_min@, lo_ex);
        crate::geometry::ratio::lemma_rv_eq_symm(new_max@, hi_ex);
        crate::geometry::ratio::lemma_rv_le_congruence(lo_ex, hi_ex, new_min@, new_max@);
        // width scaled, midpoint kept
        crate::geometry::ratio::lemma_rv_add_wf(new_max@, new_min@);
        crate::geometry::ratio::lemma_rv_add_wf(hi_ex, lo_ex);
        crate::geometry::ratio::lemma_rv_sub_congruence(new_max@, new_min@, hi_ex, lo_ex);
        crate::geometry::ratio::lemma_rv_eq_trans(
            rv_sub(new_max@, new_min@),
            rv_sub(hi_ex, lo_ex),
            scaled_ex,
        );
        crate::geometry::ratio::lemma_rv_add_congruence(new_min@, new_max@, lo_ex, hi_ex);
        crate::geometry::ratio::lemma_rv_eq_trans(
            rv_add(new_min@, new_max@),
            rv_add(lo_ex, hi_ex),
            sum_ex,
        );
    }
    Ok(AxisRange { base: rg.base, min_to_base: new_min, max_to_base: new_max })
}

/// The midpoint-and-half-width arithmetic of a resize: the new offsets keep
/// the midpoint, scale the width, and stay ordered.
proof fn lemma_resize_offsets(mn: RatVal, mx: RatVal, f: RatVal)
    requires
        rv_wf(mn),
        rv_wf(mx),
        rv_wf(f),
        rv_le(mn, mx),
        rv_lt(rv_zero(), f),
    ensures
        ({
            let mid = rv_div(rv_add(mn, mx), rv_int(2));
            let half = rv_div(rv_mul(rv_sub(mx, mn), f), rv_int(2));
            &&& rv_le(rv_sub(mid, half), rv_add(mid, half))
            &&& rv_eq(
                rv_sub(rv_add(mid, half), rv_sub(mid, half)),
                rv_mul(rv_sub(mx, mn), f),
            )
            &&& rv_eq(rv_add(rv_sub(mid, half), rv_add(mid, half)), rv_add(mn, mx))
        }),
{
    let mid = rv_div(rv_add(mn, mx), rv_int(2));
    let half = rv_div(rv_mul(rv_sub(mx, mn), f), rv_int(2));
    let an = mn.num;
    let ad = mn.den;
    let bn = mx.num;
    let bd = mx.den;
    let fn_ = f.num;
    let fd = f.den;
    assert(mid == RatVal { num: (an * bd + bn * ad) * 1, den: (ad * bd) * 2 });
    assert(half == RatVal {
        num: ((bn * ad - an * bd) * fn_) * 1,
        den: ((bd * ad) * fd) * 2,
    });
    assert(mid.den > 0) by (nonlinear_arith)
        requires
            ad > 0,
            bd > 0,
            mid.den == (ad * bd) * 2,
    {}
    assert(half.den > 0) by (nonlinear_arith)
        requires
            ad > 0,
            bd > 0,
            fd > 0,
            half.den == ((bd * ad) * fd) * 2,
    {}
    let lo = rv_sub(mid, half);
    let hi = rv_add(mid, half);
    assert(lo.den > 0 && hi.den > 0) by (nonlinear_arith)
        requires
            mid.den > 0,
            half.den > 0,
            lo.den == mid.den * half.den,
            hi.den == mid.den * half.den,
    {}
    // ordered: hi - lo equals (mx - mn) * f which is nonnegative
    assert(half.num >= 0) by (nonlinear_arith)
        requires
            half.num == ((bn * ad - an * bd) * fn_) * 1,
            an * bd <= bn * ad,
            fn_ > 0,
    {}
    assert(rv_le(lo, hi)) by (nonlinear_arith)
        requires
            lo.num == mid.num * half.den - half.num * mid.den,
            hi.num == mid.num * half.den + half.num * mid.den,
            lo.den == mid.den * half.den,
            hi.den == mid.den * half.den,
            half.num >= 0,
            mid.den > 0,
            half.den > 0,
    {}
    // width: (mid + half) - (mid - half) == 2 * half == (mx - mn) * f
    assert(rv_eq(rv_sub(hi, lo), rv_mul(rv_sub(mx, mn), f))) by (nonlinear_arith)
        requires
            lo.num == mid.num * half.den - half.num * mid.den,
            hi.num == mid.num * half.den + half.num * mid.den,
            lo.den == mid.den * half.den,
            hi.den == mid.den * half.den,
            half.num == ((bn * ad - an * bd) * fn_) * 1,
            half.den == ((bd * ad) * fd) * 2,
            mid.den > 0,
            half.den > 0,
            rv_sub(hi, lo) == (RatVal {
                num: hi.num * lo.den - lo.num * hi.den,
                den: hi.den * lo.den,
            }),
            rv_mul(rv_sub(mx, mn), f) == (RatVal {
                num: (bn * ad - an * bd) * fn_,
                den: (bd * ad) * fd,
            }),
    {}
    // midpoint kept: lo + hi == mn + mx
    assert(rv_eq(rv_add(lo, hi), rv_add(mn, mx))) by (nonlinear_arith)
        requires
            lo.num == mid.num * half.den - half.num * mid.den,
            hi.num == mid.num * half.den + half.num * mid.den,
            lo.den == mid.den * half.den,
            hi.den == mid.den * half.den,
            mid.num == (an * bd + bn * ad) * 1,
            mid.den == (ad * bd) * 2,
            mid.den > 0,
            half.den > 0,
            rv_add(lo, hi) == (RatVal {
                num: lo.num * hi.den + hi.num * lo.den,
                den: lo.den * hi.den,
            }),
            rv_add(mn, mx) == (RatVal { num: an * bd + bn * ad, den: ad * bd }),
    {}
}

} // verus!

verus! {

/// Round-trip law: with a nonzero cached scale, mapping a value to a pixel
/// and back returns exactly the value.
pub proof fn lemma_transform_round_trip(min_v: RatVal, ppe: RatVal, px_min: RatVal, v: RatVal)
    requires
        rv_wf(min_v),
        rv_wf(ppe),
        rv_wf(px_min),
        rv_wf(v),
        ppe.num != 0,
    ensures
        rv_eq(
            transform_reverse_spec(min_v, ppe, px_min, transform_spec(min_v, ppe, px_min, v)),
            v,
        ),
{
    let d = rv_sub(v, min_v);
    let m = rv_mul(d, ppe);
    let t = rv_add(m, px_min);
    crate::geometry::ratio::lemma_rv_add_wf(v, min_v);
    crate::geometry::ratio::lemma_rv_add_wf(d, ppe);
    crate::geometry::ratio::lemma_rv_add_wf(m, px_min);
    crate::geometry::ratio::lemma_rv_add_wf(t, px_min);
    // (t - px_min) == m as fractions
    crate::geometry::ratio::lemma_rv_sub_add_cancel(m, px_min);
    // dividing by the same scale respects that equality
    crate::geometry::ratio::lemma_rv_div_congruence(rv_sub(t, px_min), m, ppe);
    // (d * ppe) / ppe == d
    crate::geometry::ratio::lemma_rv_mul_div_cancel(d, ppe);
    crate::geometry::ratio::lemma_rv_div_wf(rv_sub(t, px_min), ppe);
    crate::geometry::ratio::lemma_rv_div_wf(m, ppe);
    crate::geometry::ratio::lemma_rv_eq_trans(rv_div(rv_sub(t, px_min), ppe), rv_div(m, ppe), d);
    // adding the minimum back respects the equality
    crate::geometry::ratio::lemma_rv_add_congruence(min_v, rv_div(rv_sub(t, px_min), ppe), min_v, d);
    // min + (v - min) == v
    crate::geometry::ratio::lemma_rv_add_sub_cancel(v, min_v);
    crate::geometry::ratio::lemma_rv_add_comm(d, min_v);
    crate::geometry::ratio::lemma_rv_add_wf(min_v, rv_div(rv_sub(t, px_min), ppe));
    crate::geometry::ratio::lemma_rv_add_wf(min_v, d);
    crate::geometry::ratio::lemma_rv_eq_trans(
        rv_add(min_v, rv_div(rv_sub(t, px_min), ppe)),
        rv_add(min_v, d),
        v,
    );
}

} // verus!

verus! {

/// Stepped offsets are monotone in the step index for a positive step.
pub proof fn lemma_step_off_le(min_off: RatVal, step: RatVal, k1: nat, k2: nat)
    requires
        rv_wf(min_off),
        rv_wf(step),
        rv_lt(rv_zero(), step),
        k1 <= k2,
    ensures
        rv_le(step_off(min_off, step, k1), step_off(min_off, step, k2)),
    decreases k2 - k1,
{
    lemma_step_off_wf(min_off, step, k1);
    lemma_step_off_wf(min_off, step, k2);
    if k1 < k2 {
        lemma_step_off_le(min_off, step, k1, (k2 - 1) as nat);
        lemma_step_off_increases(min_off, step, (k2 - 1) as nat);
        lemma_step_off_wf(min_off, step, (k2 - 1) as nat);
        crate::geometry::ratio::lemma_rv_le_trans(
            step_off(min_off, step, k1),
            step_off(min_off, step, (k2 - 1) as nat),
            step_off(min_off, step, k2),
        );
    }
}

} // verus!

verus! {

/// Rounding respects fraction equality (a consequence of monotonicity).
pub proof fn lemma_snap_congruent<T: AxisType>(a: RatVal, b: RatVal)
    requires
        rv_wf(a),
        rv_wf(b),
        rv_eq(a, b),
        T::from_defined(a),
        T::from_defined(b),
    ensures
        rv_eq(T::snap(a), T::snap(b)),
{
    T::lemma_snap_monotone(a, b);
    T::lemma_snap_monotone(b, a);
}

impl<X: AxisType, Y: AxisType> AxesBounds<X, Y> {
    /// `self` covers `other`'s window, endpoint for endpoint, as the
    /// coordinate types see them.
    pub open spec fn covers(self, other: AxesBounds<X, Y>) -> bool {
        &&& rv_le(self.x.min_snap(), other.x.min_snap())
        &&& rv_le(other.x.max_snap(), self.x.max_snap())
        &&& rv_le(self.y.min_snap(), other.y.min_snap())
        &&& rv_le(other.y.max_snap(), self.y.max_snap())
    }
}

/// The smallest window covering every plotted element's bounds: the
/// auto-fit fold.  `None` exactly when no element reports bounds or one
/// union leaves the representable window.
pub fn fold_element_bounds<X: AxisType, Y: AxisType>(ranges: &Vec<AxesBounds<X, Y>>) -> (r: Option<
    AxesBounds<X, Y>,
>)
    requires
        forall|i: int| 0 <= i < ranges.len() ==> (#[trigger] ranges[i]).wf(),
    ensures
        ranges@.len() == 0 ==> r is None,
        r matches Some(b) ==> b.wf() && (forall|i: int|
            0 <= i < ranges@.len() ==> b.covers(#[trigger] ranges@[i])),
{
    if ranges.len() == 0 {
        return None;
    }
    let mut acc = ranges[0];
    let mut i: usize = 1;
    while i < ranges.len()
        invariant
            forall|k: int| 0 <= k < ranges.len() ==> (#[trigger] ranges[k]).wf(),
            1 <= i <= ranges.len(),
            acc.wf(),
            forall|k: int| 0 <= k < i ==> acc.covers(#[trigger] ranges@[k]),
        decreases ranges.len() - i,
    {
        let e = &ranges[i];
        let ghost prev = acc;
        let ux = match acc.x.union(&e.x) {
            Some(u) => u,
            None => {
                return None;
            },
        };
        let uy = match acc.y.union(&e.y) {
            Some(u) => u,
            None => {
                return None;
            },
        };
        proof {
            lemma_union_covers(prev.x, e.x, ux);
            lemma_union_covers(prev.y, e.y, uy);
            assert forall|k: int| 0 <= k < i + 1 implies (AxesBounds { x: ux, y: uy }).covers(
                #[trigger] ranges@[k],
            ) by {
                if k < i {
                    lemma_covers_trans(ux, prev.x, ranges@[k].x);
                    lemma_covers_trans(uy, prev.y, ranges@[k].y);
                }
            }
        }
        acc = AxesBounds { x: ux, y: uy };
        i = i + 1;
    }
    Some(acc)
}

/// A union covers both of its arguments, as the coordinate type sees the
/// endpoints.
proof fn lemma_union_covers<T: AxisType>(a: AxisRange<T>, b: AxisRange<T>, u: AxisRange<T>)
    requires
        a.wf(),
        b.wf(),
        u.wf(),
        rv_eq(u.min_rat(), a.union_min(b)),
        rv_eq(u.max_rat(), a.union_max(b)),
    ensures
        rv_le(u.min_snap(), a.min_snap()),
        rv_le(u.min_snap(), b.min_snap()),
        rv_le(a.max_snap(), u.max_snap()),
        rv_le(b.max_snap(), u.max_snap()),
{
    lemma_range_rats_wf(a);
    lemma_range_rats_wf(b);
    lemma_range_rats_wf(u);
    T::lemma_snap_idempotent(a.min_rat());
    T::lemma_snap_idempotent(b.min_rat());
    T::lemma_snap_idempotent(a.max_rat());
    T::lemma_snap_idempotent(b.max_rat());
    // the union's endpoints, rounded, equal one of the arguments' rounded
    // endpoints
    lemma_snap_congruent::<T>(u.min_rat(), a.union_min(b));
    lemma_snap_congruent::<T>(u.max_rat(), a.union_max(b));
    if rv_le(a.min_snap(), b.min_snap()) {
        crate::geometry::ratio::lemma_rv_le_congruence(
            a.min_snap(),
            b.min_snap(),
            u.min_snap(),
            b.min_snap(),
        );
        crate::geometry::ratio::lemma_rv_le_congruence(
            a.min_snap(),
            a.min_snap(),
            u.min_snap(),
            a.min_snap(),
        );
    } else {
        crate::geometry::ratio::lemma_rv_le_congruence(
            b.min_snap(),
            a.min_snap(),
            u.min_snap(),
            a.min_snap(),
        );
        crate::geometry::ratio::lemma_rv_le_congruence(
            b.min_snap(),
            b.min_snap(),
            u.min_snap(),
            b.min_snap(),
        );
    }
    if rv_le(b.max_snap(), a.max_snap()) {
        crate::geometry::ratio::lemma_rv_le_congruence(
            b.max_snap(),
            a.max_snap(),
            b.max_snap(),
            u.max_snap(),
        );
        crate::geometry::ratio::lemma_rv_le_congruence(
            a.max_snap(),
            a.max_snap(),
            a.max_snap(),
            u.max_snap(),
        );
    } else {
        crate::geometry::ratio::lemma_rv_le_congruence(
            a.max_snap(),
            b.max_snap(),
            a.max_snap(),
            u.max_snap(),
        );
        crate::geometry::ratio::lemma_rv_le_congruence(
            b.max_snap(),
            b.max_snap(),
            b.max_snap(),
            u.max_snap(),
        );
    }
}

/// The endpoints' fraction values of a well-formed range are well formed
/// and in the coordinate type's domain.
proof fn lemma_range_rats_wf<T: AxisType>(a: AxisRange<T>)
    requires
        a.wf(),
    ensures
        rv_wf(a.min_rat()),
        rv_wf(a.max_rat()),
        rv_wf(a.min_snap()),
        rv_wf(a.max_snap()),
        T::from_defined(a.min_rat()),
        T::from_defined(a.max_rat()),
        rv_le(a.min_snap(), a.max_snap()),
{
    a.base.lemma_wf_rat();
    crate::geometry::ratio::lemma_rv_add_wf(a.base.rat(), a.min_to_base@);
    crate::geometry::ratio::lemma_rv_add_wf(a.base.rat(), a.max_to_base@);
    crate::geometry::ratio::lemma_rv_le_add_monotone(
        a.min_to_base@,
        a.max_to_base@,
        a.base.rat(),
    );
    crate::geometry::ratio::lemma_rv_add_comm(a.min_to_base@, a.base.rat());
    crate::geometry::ratio::lemma_rv_add_comm(a.max_to_base@, a.base.rat());
    T::lemma_snap_monotone(a.min_rat(), a.max_rat());
    T::lemma_snap_idempotent(a.min_rat());
    T::lemma_snap_idempotent(a.max_rat());
}

} // verus!

verus! {

/// Axis coverage is transitive.
proof fn lemma_covers_trans<T: AxisType>(u: AxisRange<T>, mid: AxisRange<T>, inner: AxisRange<T>)
    requires
        u.wf(),
        mid.wf(),
        inner.wf(),
        rv_le(u.min_snap(), mid.min_snap()),
        rv_le(mid.max_snap(), u.max_snap()),
        rv_le(mid.min_snap(), inner.min_snap()),
        rv_le(inner.max_snap(), mid.max_snap()),
    ensures
        rv_le(u.min_snap(), inner.min_snap()),
        rv_le(inner.max_snap(), u.max_snap()),
{
    lemma_range_rats_wf(u);
    lemma_range_rats_wf(mid);
    lemma_range_rats_wf(inner);
    crate::geometry::ratio::lemma_rv_le_trans(u.min_snap(), mid.min_snap(), inner.min_snap());
    crate::geometry::ratio::lemma_rv_le_trans(inner.max_snap(), mid.max_snap(), u.max_snap());
}

} // verus!
