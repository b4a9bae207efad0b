//! Concrete axis coordinate types.

use crate::geometry::axis::AxisType;
use crate::geometry::ratio::in_bounds;
use crate::geometry::ratio::RatVal;
use crate::geometry::ratio::Ratio;
use vstd::prelude::*;

verus! {

/// A plain numeric axis: the coordinate *is* an exact fraction, nothing is
/// rounded and the whole representable window is its domain.
impl AxisType for Ratio {
    open spec fn rat(self) -> RatVal {
        self@
    }

    open spec fn wf_val(self) -> bool {
        self.wf()
    }

    open spec fn snap(r: RatVal) -> RatVal {
        r
    }

    open spec fn from_defined(r: RatVal) -> bool {
        in_bounds(r)
    }

    proof fn lemma_wf_rat(self) {
    }

    proof fn lemma_snap_fixed(self) {
    }

    proof fn lemma_snap_idempotent(r: RatVal) {
    }

    proof fn lemma_snap_monotone(r1: RatVal, r2: RatVal) {
    }

    fn to_ratio(&self) -> (r: Ratio) {
        *self
    }

    fn try_from_ratio(r: &Ratio) -> (v: Option<Ratio>) {
        Some(*r)
    }

    fn format(&self) -> (s: String) {
        crate::utils::math::display_double_smartly(self)
    }
}

} // verus!

verus! {

/// What the duration label shows for a given whole number of nanoseconds;
/// fixed by the formatting routine alone.
pub uninterp spec fn duration_text_of(nanos: int) -> Seq<char>;

/// A duration axis coordinate: a whole number of nanoseconds.  Numeric
/// values round down to whole nanoseconds.
#[derive(Debug, Clone, Copy, PartialEq, Eq, Structural)]
pub struct DurationValue {
    pub nanos: i64,
}

impl DurationValue {
    /// A duration of so many whole nanoseconds.
    pub fn from_nanos(nanos: i64) -> (r: DurationValue)
        requires
            nanos != i64::MIN,
        ensures
            r.wf_val(),
            r.nanos == nanos,
    {
        DurationValue { nanos }
    }

    /// A human-readable form of the duration.  Relies on chrono's
    /// `TimeDelta`: `nanoseconds` accepts any whole count, and its display
    /// form depends on the count alone.
    #[verifier::external_body]
    fn label(nanos: i64) -> (s: String)
        ensures
            s@ == duration_text_of(nanos as int),
    {
        chrono::TimeDelta::nanoseconds(nanos).to_string()
    }
}

impl AxisType for DurationValue {
    open spec fn rat(self) -> RatVal {
        crate::geometry::ratio::rv_int(self.nanos as int)
    }

    open spec fn wf_val(self) -> bool {
        self.nanos != i64::MIN
    }

    open spec fn snap(r: RatVal) -> RatVal {
        crate::geometry::ratio::rv_int(crate::geometry::ratio::rv_floor(r))
    }

    open spec fn from_defined(r: RatVal) -> bool {
        -(crate::geometry::ratio::RATIO_BOUND as int) <= crate::geometry::ratio::rv_floor(r)
            <= crate::geometry::ratio::RATIO_BOUND as int
    }

    proof fn lemma_wf_rat(self) {
        vstd::arithmetic::div_mod::lemma_fundamental_div_mod_converse_div(
            self.nanos as int,
            1,
            self.nanos as int,
            0,
        );
    }

    proof fn lemma_snap_fixed(self) {
        vstd::arithmetic::div_mod::lemma_fundamental_div_mod_converse_div(
            self.nanos as int,
            1,
            self.nanos as int,
            0,
        );
    }

    proof fn lemma_snap_idempotent(r: RatVal) {
        let f = crate::geometry::ratio::rv_floor(r);
        vstd::arithmetic::div_mod::lemma_fundamental_div_mod_converse_div(f, 1, f, 0);
    }

    proof fn lemma_snap_monotone(r1: RatVal, r2: RatVal) {
        crate::geometry::ratio::lemma_rv_floor_monotone(r1, r2);
        let f1 = crate::geometry::ratio::rv_floor(r1);
        let f2 = crate::geometry::ratio::rv_floor(r2);
        assert(f1 * 1 <= f2 * 1) by (nonlinear_arith)
            requires
                f1 <= f2,
        {}
    }

    fn to_ratio(&self) -> (r: Ratio) {
        Ratio::from_int(self.nanos)
    }

    fn try_from_ratio(r: &Ratio) -> (v: Option<DurationValue>) {
        let f = r.floor();
        proof {
            let fv = crate::geometry::ratio::rv_floor(r@);
            vstd::arithmetic::div_mod::lemma_fundamental_div_mod_converse_div(fv, 1, fv, 0);
            vstd::arithmetic::div_mod::lemma_fundamental_div_mod(r@.num, r@.den);
            vstd::arithmetic::div_mod::lemma_mod_bound(r@.num, r@.den);
            let bound = crate::geometry::ratio::RATIO_BOUND as int;
            assert(-bound <= fv <= bound) by (nonlinear_arith)
                requires
                    r@.num == r@.den * fv + r@.num % r@.den,
                    0 <= r@.num % r@.den < r@.den,
                    -bound <= r@.num <= bound,
                    r@.den >= 1,
                    bound > 0,
            {}
        }
        Some(DurationValue { nanos: f })
    }

    fn format(&self) -> (s: String) {
        Self::label(self.nanos)
    }
}

} // verus!

verus! {

/// Nanoseconds in one day.
pub const NANOS_PER_DAY: i64 = 86400000000000;

/// Largest day count (from the Unix epoch) the date axis accepts, far
/// inside the calendar library's own range.
pub const MAX_EPOCH_DAY: i64 = 100000;

/// What the date label shows for a given epoch day count; fixed by the
/// formatting routine alone.
pub uninterp spec fn date_text_of(days: int) -> Seq<char>;

/// A calendar-date axis coordinate: a whole number of days since the Unix
/// epoch, placed on the numeric axis at nanosecond scale.  Numeric values
/// round down to whole days.
#[derive(Debug, Clone, Copy, PartialEq, Eq, Structural)]
pub struct DateValue {
    pub days: i64,
}

impl DateValue {
    /// The date so many whole days after (or before) the Unix epoch.
    pub fn from_epoch_days(days: i64) -> (r: Option<DateValue>)
        ensures
            r is Some <==> -MAX_EPOCH_DAY <= days <= MAX_EPOCH_DAY,
            r matches Some(v) ==> v.wf_val() && v.days == days,
    {
        if -MAX_EPOCH_DAY <= days && days <= MAX_EPOCH_DAY {
            Some(DateValue { days })
        } else {
            None
        }
    }

    /// A human-readable calendar form of the date.  Relies on chrono's
    /// `NaiveDate::from_epoch_days`, which accepts every day count in this
    /// axis's range, and whose display form depends on the date alone.
    #[verifier::external_body]
    fn label(days: i64) -> (s: String)
        requires
            -MAX_EPOCH_DAY <= days <= MAX_EPOCH_DAY,
        ensures
            s@ == date_text_of(days as int),
    {
        match chrono::NaiveDate::from_epoch_days(days as i32) {
            Some(d) => d.to_string(),
            None => String::new(),
        }
    }
}

/// The day index a numeric (nanosecond-scale) value falls in.
pub open spec fn day_floor(r: RatVal) -> int {
    crate::geometry::ratio::rv_floor(
        crate::geometry::ratio::rv_div(r, crate::geometry::ratio::rv_int(NANOS_PER_DAY as int)),
    )
}

impl AxisType for DateValue {
    open spec fn rat(self) -> RatVal {
        crate::geometry::ratio::rv_int(self.days as int * NANOS_PER_DAY as int)
    }

    open spec fn wf_val(self) -> bool {
        -MAX_EPOCH_DAY <= self.days <= MAX_EPOCH_DAY
    }

    open spec fn snap(r: RatVal) -> RatVal {
        crate::geometry::ratio::rv_int(day_floor(r) * NANOS_PER_DAY as int)
    }

    open spec fn from_defined(r: RatVal) -> bool {
        -MAX_EPOCH_DAY as int <= day_floor(r) <= MAX_EPOCH_DAY as int
    }

    proof fn lemma_wf_rat(self) {
        lemma_date_rat(self.days as int);
    }

    proof fn lemma_snap_fixed(self) {
        lemma_date_rat(self.days as int);
    }

    proof fn lemma_snap_idempotent(r: RatVal) {
        lemma_date_rat(day_floor(r));
    }

    proof fn lemma_snap_monotone(r1: RatVal, r2: RatVal) {
        let n = NANOS_PER_DAY as int;
        let d1 = crate::geometry::ratio::rv_div(r1, crate::geometry::ratio::rv_int(n));
        let d2 = crate::geometry::ratio::rv_div(r2, crate::geometry::ratio::rv_int(n));
        assert(crate::geometry::ratio::rv_le(d1, d2) && d1.den > 0 && d2.den > 0)
            by (nonlinear_arith)
            requires
                r1.num * r2.den <= r2.num * r1.den,
                r1.den > 0,
                r2.den > 0,
                d1 == (RatVal { num: r1.num * 1, den: r1.den * n }),
                d2 == (RatVal { num: r2.num * 1, den: r2.den * n }),
                n > 0,
        {}
        crate::geometry::ratio::lemma_rv_floor_monotone(d1, d2);
        assert(day_floor(r1) * n * 1 <= day_floor(r2) * n * 1) by (nonlinear_arith)
            requires
                day_floor(r1) <= day_floor(r2),
                n > 0,
        {}
    }

    fn to_ratio(&self) -> (r: Ratio) {
        proof {
            assert(-9223372036854775807 <= self.days as int * NANOS_PER_DAY as int
                <= 9223372036854775807) by (nonlinear_arith)
                requires
                    -MAX_EPOCH_DAY <= self.days <= MAX_EPOCH_DAY,
                    MAX_EPOCH_DAY == 100000,
                    NANOS_PER_DAY == 86400000000000,
            {}
        }
        Ratio::from_int(self.days * NANOS_PER_DAY)
    }

    fn try_from_ratio(r: &Ratio) -> (v: Option<DateValue>) {
        let num = r.numer();
        let den = r.denom();
        proof {
            assert((den as int) * (NANOS_PER_DAY as int) > 0 && (den as int) * (
            NANOS_PER_DAY as int) < 170141183460469231731687303715884105727)
                by (nonlinear_arith)
                requires
                    0 < den as int <= 9223372036854775807,
                    NANOS_PER_DAY == 86400000000000,
            {}
        }
        let den2: i128 = den * (NANOS_PER_DAY as i128);
        let q: i128 = if num >= 0 {
            let qu = (num as u128) / (den2 as u128);
            qu as i128
        } else {
            let m = (-num) as u128;
            let du = den2 as u128;
            let qu = m / du;
            let rem = m % du;
            proof {
                lemma_wide_floor_neg(num as int, den2 as int, qu as int, rem as int);
            }
            if rem == 0 {
                -(qu as i128)
            } else {
                -(qu as i128) - 1
            }
        };
        proof {
            assert(day_floor(r@) == (r@.num * 1) / (r@.den * NANOS_PER_DAY as int));
            assert(r@.num * 1 == r@.num) by (nonlinear_arith) {}
        }
        if q < -MAX_EPOCH_DAY as i128 || q > MAX_EPOCH_DAY as i128 {
            None
        } else {
            Some(DateValue { days: q as i64 })
        }
    }

    fn format(&self) -> (s: String) {
        Self::label(self.days)
    }
}

/// A whole-day value divides back exactly: its day index is itself.
proof fn lemma_date_rat(days: int)
    ensures
        day_floor(crate::geometry::ratio::rv_int(days * NANOS_PER_DAY as int)) == days,
{
    let n = NANOS_PER_DAY as int;
    let v = crate::geometry::ratio::rv_int(days * n);
    let d = crate::geometry::ratio::rv_div(v, crate::geometry::ratio::rv_int(n));
    assert(d == (RatVal { num: (days * n) * 1, den: 1 * n }));
    assert((days * n) * 1 == n * days && 1 * n == n) by (nonlinear_arith) {}
    vstd::arithmetic::div_mod::lemma_div_multiples_vanish(days, n);
}

/// The sign-magnitude form of the Euclidean floor for a negative dividend.
proof fn lemma_wide_floor_neg(num: int, den2: int, qu: int, rem: int)
    requires
        num < 0,
        den2 > 0,
        qu == (-num) / den2,
        rem == (-num) % den2,
    ensures
        rem == 0 ==> num / den2 == -qu,
        rem != 0 ==> num / den2 == -qu - 1,
{
    vstd::arithmetic::div_mod::lemma_fundamental_div_mod(-num, den2);
    if rem == 0 {
        assert(num == (-qu) * den2 + 0) by (nonlinear_arith)
            requires
                -num == den2 * qu + rem,
                rem == 0,
        {}
        vstd::arithmetic::div_mod::lemma_fundamental_div_mod_converse_div(num, den2, -qu, 0);
    } else {
        assert(num == (-qu - 1) * den2 + (den2 - rem) && 0 <= den2 - rem < den2)
            by (nonlinear_arith)
            requires
                -num == den2 * qu + rem,
                0 < rem < den2,
        {}
        vstd::arithmetic::div_mod::lemma_fundamental_div_mod_converse_div(
            num,
            den2,
            -qu - 1,
            den2 - rem,
        );
    }
}

} // verus!
