//! Exact rational scalars.
//!
//! Every coordinate, offset and scale factor of the engine is an exact
//! fraction.  The executable type [`Ratio`] keeps a numerator and a positive
//! denominator, both bounded so that every product of two of them fits the
//! machine word used for intermediate arithmetic.  The engine stores
//! results in lowest terms (the `_reduced` operations divide the greatest
//! common divisor out), so ordinary gesture chains stay far inside the
//! representable window; an operation whose result would leave it even in
//! lowest terms reports failure instead of rounding, and callers keep
//! their previous valid state.

use vstd::prelude::*;

verus! {

/// The mathematical value of a [`Ratio`]: an unbounded fraction `num / den`.
pub ghost struct RatVal {
    pub num: int,
    pub den: int,
}

/// A fraction is well formed when its denominator is positive.
pub open spec fn rv_wf(a: RatVal) -> bool {
    a.den > 0
}

/// `a == b` as fractions (cross multiplication).
pub open spec fn rv_eq(a: RatVal, b: RatVal) -> bool {
    a.num * b.den == b.num * a.den
}

/// `a <= b` as fractions; meaningful for well-formed fractions.
pub open spec fn rv_le(a: RatVal, b: RatVal) -> bool {
    a.num * b.den <= b.num * a.den
}

/// `a < b` as fractions; meaningful for well-formed fractions.
pub open spec fn rv_lt(a: RatVal, b: RatVal) -> bool {
    a.num * b.den < b.num * a.den
}

pub open spec fn rv_add(a: RatVal, b: RatVal) -> RatVal {
    RatVal { num: a.num * b.den + b.num * a.den, den: a.den * b.den }
}

pub open spec fn rv_sub(a: RatVal, b: RatVal) -> RatVal {
    RatVal { num: a.num * b.den - b.num * a.den, den: a.den * b.den }
}

pub open spec fn rv_neg(a: RatVal) -> RatVal {
    RatVal { num: -a.num, den: a.den }
}

pub open spec fn rv_mul(a: RatVal, b: RatVal) -> RatVal {
    RatVal { num: a.num * b.num, den: a.den * b.den }
}

/// `a / b`; the sign of `b` moves into the numerator so that the result's
/// denominator stays positive.  Meaningful only when `b.num != 0`.
pub open spec fn rv_div(a: RatVal, b: RatVal) -> RatVal {
    if b.num >= 0 {
        RatVal { num: a.num * b.den, den: a.den * b.num }
    } else {
        RatVal { num: -(a.num * b.den), den: -(a.den * b.num) }
    }
}

pub open spec fn rv_int(i: int) -> RatVal {
    RatVal { num: i, den: 1 }
}

pub open spec fn rv_zero() -> RatVal {
    rv_int(0)
}

pub open spec fn rv_one() -> RatVal {
    rv_int(1)
}

/// Floor of a well-formed fraction (spec division is Euclidean, which is
/// floor division for a positive denominator).
pub open spec fn rv_floor(a: RatVal) -> int {
    a.num / a.den
}

/// Largest magnitude allowed for a stored numerator or denominator.
pub const RATIO_BOUND: i128 = 9223372036854775807;

/// A fraction fits in a [`Ratio`] when both parts are within the stored
/// bounds and the denominator is positive.
pub open spec fn in_bounds(v: RatVal) -> bool {
    &&& -(RATIO_BOUND as int) <= v.num <= RATIO_BOUND as int
    &&& 0 < v.den <= RATIO_BOUND as int
}

/// An exact bounded fraction.
#[derive(Clone, Copy, Debug)]
pub struct Ratio {
    num: i128,
    den: i128,
}

impl View for Ratio {
    type V = RatVal;

    closed spec fn view(&self) -> RatVal {
        RatVal { num: self.num as int, den: self.den as int }
    }
}

impl Ratio {
    /// The stored fraction respects the representation bounds.
    pub open spec fn wf(self) -> bool {
        in_bounds(self@)
    }

    /// The whole number `i`.
    pub fn from_int(i: i64) -> (r: Ratio)
        requires
            i != i64::MIN,
        ensures
            r.wf(),
            r@ == rv_int(i as int),
    {
        Ratio { num: i as i128, den: 1 }
    }

    /// The fraction `num / den`.  Fails only when `den` is zero or either
    /// argument is the one `i64` value whose magnitude exceeds the stored
    /// bound.
    pub fn new(num: i64, den: i64) -> (r: Option<Ratio>)
        ensures
            r is Some <==> (den != 0 && num != i64::MIN && den != i64::MIN),
            r matches Some(x) ==> x.wf() && rv_eq(x@, RatVal { num: num as int, den: den as int }),
    {
        if den == 0 || num == i64::MIN || den == i64::MIN {
            None
        } else {
            let mut n: i128 = num as i128;
            let mut d: i128 = den as i128;
            if d < 0 {
                n = -n;
                d = -d;
            }
            let r = Ratio { num: n, den: d };
            proof {
                assert(rv_eq(r@, RatVal { num: num as int, den: den as int })) by (nonlinear_arith)
                    requires
                        r@.num == if den < 0 { -(num as int) } else { num as int },
                        r@.den == if den < 0 { -(den as int) } else { den as int },
                        den != 0,
                {}
            }
            Some(r)
        }
    }

    /// Exact sum; `None` when the result leaves the representable window.
    pub fn add(&self, other: &Ratio) -> (r: Option<Ratio>)
        requires
            self.wf(),
            other.wf(),
        ensures
            r is Some <==> in_bounds(rv_add(self@, other@)),
            r matches Some(x) ==> x.wf() && x@ == rv_add(self@, other@),
    {
        proof {
            lemma_mul_bound(self.num as int, other.den as int);
            lemma_mul_bound(other.num as int, self.den as int);
            lemma_den_product(self.den as int, other.den as int);
        }
        let n: i128 = self.num * other.den + other.num * self.den;
        let d: i128 = self.den * other.den;
        if -RATIO_BOUND <= n && n <= RATIO_BOUND && d <= RATIO_BOUND {
            Some(Ratio { num: n, den: d })
        } else {
            None
        }
    }

    /// Exact difference; `None` when the result leaves the representable
    /// window.
    pub fn sub(&self, other: &Ratio) -> (r: Option<Ratio>)
        requires
            self.wf(),
            other.wf(),
        ensures
            r is Some <==> in_bounds(rv_sub(self@, other@)),
            r matches Some(x) ==> x.wf() && x@ == rv_sub(self@, other@),
    {
        proof {
            lemma_mul_bound(self.num as int, other.den as int);
            lemma_mul_bound(other.num as int, self.den as int);
            lemma_den_product(self.den as int, other.den as int);
        }
        let n: i128 = self.num * other.den - other.num * self.den;
        let d: i128 = self.den * other.den;
        if -RATIO_BOUND <= n && n <= RATIO_BOUND && d <= RATIO_BOUND {
            Some(Ratio { num: n, den: d })
        } else {
            None
        }
    }

    /// Exact negation; always representable.
    pub fn neg(&self) -> (r: Ratio)
        requires
            self.wf(),
        ensures
            r.wf(),
            r@ == rv_neg(self@),
    {
        Ratio { num: -self.num, den: self.den }
    }

    /// Exact product; `None` when the result leaves the representable window.
    pub fn mul(&self, other: &Ratio) -> (r: Option<Ratio>)
        requires
            self.wf(),
            other.wf(),
        ensures
            r is Some <==> in_bounds(rv_mul(self@, other@)),
            r matches Some(x) ==> x.wf() && x@ == rv_mul(self@, other@),
    {
        proof {
            lemma_mul_bound(self.num as int, other.num as int);
            lemma_den_product(self.den as int, other.den as int);
        }
        let n: i128 = self.num * other.num;
        let d: i128 = self.den * other.den;
        if -RATIO_BOUND <= n && n <= RATIO_BOUND && d <= RATIO_BOUND {
            Some(Ratio { num: n, den: d })
        } else {
            None
        }
    }

    /// Exact quotient; `None` when the divisor is zero or the result leaves
    /// the representable window.
    pub fn div(&self, other: &Ratio) -> (r: Option<Ratio>)
        requires
            self.wf(),
            other.wf(),
        ensures
            r is Some <==> (other@.num != 0 && in_bounds(rv_div(self@, other@))),
            r matches Some(x) ==> x.wf() && x@ == rv_div(self@, other@),
    {
        if other.num == 0 {
            return None;
        }
        proof {
            lemma_mul_bound(self.num as int, other.den as int);
            lemma_mul_bound(self.den as int, other.num as int);
        }
        let mut n: i128 = self.num * other.den;
        let mut d: i128 = self.den * other.num;
        if other.num < 0 {
            n = -n;
            d = -d;
        }
        proof {
            assert(d as int > 0 ==> d as int == (rv_div(self@, other@)).den) by (nonlinear_arith)
                requires
                    other@.num != 0,
                    self@.den > 0,
                    d as int == if other@.num < 0 { -(self@.den * other@.num) } else {
                        self@.den * other@.num
                    },
                    n as int == if other@.num < 0 { -(self@.num * other@.den) } else {
                        self@.num * other@.den
                    },
            {}
            assert(d as int > 0) by (nonlinear_arith)
                requires
                    other@.num != 0,
                    self@.den > 0,
                    d as int == if other@.num < 0 { -(self@.den * other@.num) } else {
                        self@.den * other@.num
                    },
            {}
        }
        if -RATIO_BOUND <= n && n <= RATIO_BOUND && d <= RATIO_BOUND {
            Some(Ratio { num: n, den: d })
        } else {
            None
        }
    }

    /// Exact comparison `self <= other`.
    pub fn le(&self, other: &Ratio) -> (r: bool)
        requires
            self.wf(),
            other.wf(),
        ensures
            r == rv_le(self@, other@),
    {
        proof {
            lemma_mul_bound(self.num as int, other.den as int);
            lemma_mul_bound(other.num as int, self.den as int);
        }
        self.num * other.den <= other.num * self.den
    }

    /// Exact comparison `self < other`.
    pub fn lt(&self, other: &Ratio) -> (r: bool)
        requires
            self.wf(),
            other.wf(),
        ensures
            r == rv_lt(self@, other@),
    {
        proof {
            lemma_mul_bound(self.num as int, other.den as int);
            lemma_mul_bound(other.num as int, self.den as int);
        }
        self.num * other.den < other.num * self.den
    }

    /// Exact equality of the fractions' values.
    pub fn eq_val(&self, other: &Ratio) -> (r: bool)
        requires
            self.wf(),
            other.wf(),
        ensures
            r == rv_eq(self@, other@),
    {
        proof {
            lemma_mul_bound(self.num as int, other.den as int);
            lemma_mul_bound(other.num as int, self.den as int);
        }
        self.num * other.den == other.num * self.den
    }

    /// True when the fraction is exactly zero.
    pub fn is_zero(&self) -> (r: bool)
        requires
            self.wf(),
        ensures
            r == (self@.num == 0),
    {
        self.num == 0
    }

    /// True when the fraction is strictly positive.
    pub fn is_positive(&self) -> (r: bool)
        requires
            self.wf(),
        ensures
            r == (self@.num > 0),
    {
        self.num > 0
    }
}

/// Bound on the product of two stored parts: it fits comfortably in the
/// intermediate word.
proof fn lemma_mul_bound(a: int, b: int)
    requires
        -(RATIO_BOUND as int) <= a <= RATIO_BOUND as int,
        -(RATIO_BOUND as int) <= b <= RATIO_BOUND as int,
    ensures
        -(RATIO_BOUND as int) * (RATIO_BOUND as int) <= a * b <= (RATIO_BOUND as int) * (
        RATIO_BOUND as int),
{
    assert(-(RATIO_BOUND as int) * (RATIO_BOUND as int) <= a * b <= (RATIO_BOUND as int) * (
    RATIO_BOUND as int)) by (nonlinear_arith)
        requires
            -(RATIO_BOUND as int) <= a <= RATIO_BOUND as int,
            -(RATIO_BOUND as int) <= b <= RATIO_BOUND as int,
    {}
}

/// The product of two positive bounded denominators is positive.
proof fn lemma_den_product(a: int, b: int)
    requires
        0 < a <= RATIO_BOUND as int,
        0 < b <= RATIO_BOUND as int,
    ensures
        0 < a * b <= (RATIO_BOUND as int) * (RATIO_BOUND as int),
{
    assert(0 < a * b <= (RATIO_BOUND as int) * (RATIO_BOUND as int)) by (nonlinear_arith)
        requires
            0 < a <= RATIO_BOUND as int,
            0 < b <= RATIO_BOUND as int,
    {}
}

} // verus!

verus! {

/// Fraction equality is reflexive.
pub proof fn lemma_rv_eq_refl(a: RatVal)
    ensures
        rv_eq(a, a),
{
}

/// Fraction equality is symmetric.
pub proof fn lemma_rv_eq_symm(a: RatVal, b: RatVal)
    requires
        rv_eq(a, b),
    ensures
        rv_eq(b, a),
{
}

/// Fraction equality is transitive.
pub proof fn lemma_rv_eq_trans(a: RatVal, b: RatVal, c: RatVal)
    requires
        rv_wf(a),
        rv_wf(b),
        rv_wf(c),
        rv_eq(a, b),
        rv_eq(b, c),
    ensures
        rv_eq(a, c),
{
    assert(a.num * c.den == c.num * a.den) by (nonlinear_arith)
        requires
            a.num * b.den == b.num * a.den,
            b.num * c.den == c.num * b.den,
            a.den > 0,
            b.den > 0,
            c.den > 0,
    {}
}

/// Sums of equal fractions are equal.
pub proof fn lemma_rv_add_congruence(a: RatVal, b: RatVal, a2: RatVal, b2: RatVal)
    requires
        rv_wf(a),
        rv_wf(b),
        rv_wf(a2),
        rv_wf(b2),
        rv_eq(a, a2),
        rv_eq(b, b2),
    ensures
        rv_eq(rv_add(a, b), rv_add(a2, b2)),
{
    assert((a.num * b.den) * (a2.den * b2.den) == (a2.num * b2.den) * (a.den * b.den))
        by (nonlinear_arith)
        requires
            a.num * a2.den == a2.num * a.den,
    {}
    assert((b.num * a.den) * (a2.den * b2.den) == (b2.num * a2.den) * (a.den * b.den))
        by (nonlinear_arith)
        requires
            b.num * b2.den == b2.num * b.den,
    {}
    assert((a.num * b.den + b.num * a.den) * (a2.den * b2.den) == (a.num * b.den) * (a2.den
        * b2.den) + (b.num * a.den) * (a2.den * b2.den)) by (nonlinear_arith) {}
    assert((a2.num * b2.den + b2.num * a2.den) * (a.den * b.den) == (a2.num * b2.den) * (a.den
        * b.den) + (b2.num * a2.den) * (a.den * b.den)) by (nonlinear_arith) {}
}

/// Differences of equal fractions are equal.
pub proof fn lemma_rv_sub_congruence(a: RatVal, b: RatVal, a2: RatVal, b2: RatVal)
    requires
        rv_wf(a),
        rv_wf(b),
        rv_wf(a2),
        rv_wf(b2),
        rv_eq(a, a2),
        rv_eq(b, b2),
    ensures
        rv_eq(rv_sub(a, b), rv_sub(a2, b2)),
{
    assert((a.num * b.den) * (a2.den * b2.den) == (a2.num * b2.den) * (a.den * b.den))
        by (nonlinear_arith)
        requires
            a.num * a2.den == a2.num * a.den,
    {}
    assert((b.num * a.den) * (a2.den * b2.den) == (b2.num * a2.den) * (a.den * b.den))
        by (nonlinear_arith)
        requires
            b.num * b2.den == b2.num * b.den,
    {}
    assert((a.num * b.den - b.num * a.den) * (a2.den * b2.den) == (a.num * b.den) * (a2.den
        * b2.den) - (b.num * a.den) * (a2.den * b2.den)) by (nonlinear_arith) {}
    assert((a2.num * b2.den - b2.num * a2.den) * (a.den * b.den) == (a2.num * b2.den) * (a.den
        * b.den) - (b2.num * a2.den) * (a.den * b.den)) by (nonlinear_arith) {}
}

/// Products of equal fractions are equal.
pub proof fn lemma_rv_mul_congruence(a: RatVal, b: RatVal, a2: RatVal, b2: RatVal)
    requires
        rv_wf(a),
        rv_wf(b),
        rv_wf(a2),
        rv_wf(b2),
        rv_eq(a, a2),
        rv_eq(b, b2),
    ensures
        rv_eq(rv_mul(a, b), rv_mul(a2, b2)),
{
    assert((a.num * b.num) * (a2.den * b2.den) == (a2.num * b2.num) * (a.den * b.den))
        by (nonlinear_arith)
        requires
            a.num * a2.den == a2.num * a.den,
            b.num * b2.den == b2.num * b.den,
            a.den > 0,
            b.den > 0,
            a2.den > 0,
            b2.den > 0,
    {}
}

/// Subtracting and adding back the same fraction is the identity.
pub proof fn lemma_rv_add_sub_cancel(a: RatVal, b: RatVal)
    requires
        rv_wf(a),
        rv_wf(b),
    ensures
        rv_eq(rv_add(rv_sub(a, b), b), a),
{
    assert(((a.num * b.den - b.num * a.den) * b.den + b.num * (a.den * b.den)) * a.den == a.num * ((
    a.den * b.den) * b.den)) by (nonlinear_arith) {}
}

/// Adding and subtracting back the same fraction is the identity.
pub proof fn lemma_rv_sub_add_cancel(a: RatVal, b: RatVal)
    requires
        rv_wf(a),
        rv_wf(b),
    ensures
        rv_eq(rv_sub(rv_add(a, b), b), a),
{
    assert(((a.num * b.den + b.num * a.den) * b.den - b.num * (a.den * b.den)) * a.den == a.num * ((
    a.den * b.den) * b.den)) by (nonlinear_arith) {}
}

/// Multiplying by one is the identity.
pub proof fn lemma_rv_mul_one(a: RatVal)
    ensures
        rv_eq(rv_mul(a, rv_one()), a),
{
}

/// Multiplication of fractions is commutative (even structurally).
pub proof fn lemma_rv_mul_comm(a: RatVal, b: RatVal)
    ensures
        rv_mul(a, b) == rv_mul(b, a),
{
}

/// Multiplication of fractions is associative (even structurally).
pub proof fn lemma_rv_mul_assoc(a: RatVal, b: RatVal, c: RatVal)
    ensures
        rv_mul(rv_mul(a, b), c) == rv_mul(a, rv_mul(b, c)),
{
    assert((a.num * b.num) * c.num == a.num * (b.num * c.num)) by (nonlinear_arith) {}
    assert((a.den * b.den) * c.den == a.den * (b.den * c.den)) by (nonlinear_arith) {}
}

/// Multiplying by a fraction and dividing by it again is the identity.
pub proof fn lemma_rv_mul_div_cancel(a: RatVal, b: RatVal)
    requires
        rv_wf(a),
        rv_wf(b),
        b.num != 0,
    ensures
        rv_eq(rv_div(rv_mul(a, b), b), a),
{
    if b.num >= 0 {
        assert(((a.num * b.num) * b.den) * a.den == a.num * ((a.den * b.den) * b.num))
            by (nonlinear_arith) {}
    } else {
        assert((-((a.num * b.num) * b.den)) * a.den == a.num * (-((a.den * b.den) * b.num)))
            by (nonlinear_arith) {}
    }
}

/// Dividing by a fraction and multiplying by it again is the identity.
pub proof fn lemma_rv_div_mul_cancel(a: RatVal, b: RatVal)
    requires
        rv_wf(a),
        rv_wf(b),
        b.num != 0,
    ensures
        rv_eq(rv_mul(rv_div(a, b), b), a),
{
    if b.num >= 0 {
        assert(((a.num * b.den) * b.num) * a.den == a.num * ((a.den * b.num) * b.den))
            by (nonlinear_arith) {}
    } else {
        assert(((-(a.num * b.den)) * b.num) * a.den == a.num * ((-(a.den * b.num)) * b.den))
            by (nonlinear_arith) {}
    }
}

/// The ordering of fractions respects fraction equality.
pub proof fn lemma_rv_le_congruence(a: RatVal, b: RatVal, a2: RatVal, b2: RatVal)
    requires
        rv_wf(a),
        rv_wf(b),
        rv_wf(a2),
        rv_wf(b2),
        rv_eq(a, a2),
        rv_eq(b, b2),
        rv_le(a, b),
    ensures
        rv_le(a2, b2),
{
    assert(a2.num * b2.den <= b2.num * a2.den) by (nonlinear_arith)
        requires
            a.num * a2.den == a2.num * a.den,
            b.num * b2.den == b2.num * b.den,
            a.num * b.den <= b.num * a.den,
            a.den > 0,
            b.den > 0,
            a2.den > 0,
            b2.den > 0,
    {}
}

/// The ordering of fractions is transitive.
pub proof fn lemma_rv_le_trans(a: RatVal, b: RatVal, c: RatVal)
    requires
        rv_wf(a),
        rv_wf(b),
        rv_wf(c),
        rv_le(a, b),
        rv_le(b, c),
    ensures
        rv_le(a, c),
{
    assert(a.num * c.den <= c.num * a.den) by (nonlinear_arith)
        requires
            a.num * b.den <= b.num * a.den,
            b.num * c.den <= c.num * b.den,
            a.den > 0,
            b.den > 0,
            c.den > 0,
    {}
}

/// Adding the same fraction on both sides preserves the ordering.
pub proof fn lemma_rv_le_add_monotone(a: RatVal, b: RatVal, c: RatVal)
    requires
        rv_wf(a),
        rv_wf(b),
        rv_wf(c),
        rv_le(a, b),
    ensures
        rv_le(rv_add(a, c), rv_add(b, c)),
{
    assert((a.num * c.den + c.num * a.den) * (b.den * c.den) <= (b.num * c.den + c.num * b.den) * (
    a.den * c.den)) by (nonlinear_arith)
        requires
            a.num * b.den <= b.num * a.den,
            a.den > 0,
            b.den > 0,
            c.den > 0,
    {}
}

/// Multiplying both sides by a positive fraction preserves the ordering.
pub proof fn lemma_rv_le_mul_monotone(a: RatVal, b: RatVal, f: RatVal)
    requires
        rv_wf(a),
        rv_wf(b),
        rv_wf(f),
        f.num > 0,
        rv_le(a, b),
    ensures
        rv_le(rv_mul(a, f), rv_mul(b, f)),
{
    assert((a.num * f.num) * (b.den * f.den) <= (b.num * f.num) * (a.den * f.den))
        by (nonlinear_arith)
        requires
            a.num * b.den <= b.num * a.den,
            a.den > 0,
            b.den > 0,
            f.den > 0,
            f.num > 0,
    {}
}

} // verus!

verus! {

/// Subtracting the same fraction on both sides preserves the ordering.
pub proof fn lemma_rv_le_sub_monotone(a: RatVal, b: RatVal, c: RatVal)
    requires
        rv_wf(a),
        rv_wf(b),
        rv_wf(c),
        rv_le(a, b),
    ensures
        rv_le(rv_sub(a, c), rv_sub(b, c)),
{
    assert((a.num * c.den - c.num * a.den) * (b.den * c.den) <= (b.num * c.den - c.num * b.den) * (
    a.den * c.den)) by (nonlinear_arith)
        requires
            a.num * b.den <= b.num * a.den,
            a.den > 0,
            b.den > 0,
            c.den > 0,
    {}
}

/// Addition of fractions is commutative (even structurally).
pub proof fn lemma_rv_add_comm(a: RatVal, b: RatVal)
    ensures
        rv_add(a, b) == rv_add(b, a),
{
    assert(a.num * b.den + b.num * a.den == b.num * a.den + a.num * b.den) by (nonlinear_arith) {}
    assert(a.den * b.den == b.den * a.den) by (nonlinear_arith) {}
}

} // verus!

verus! {

/// The product of two positive integers is positive.
pub proof fn lemma_den_positive(a: int, b: int)
    requires
        a > 0,
        b > 0,
    ensures
        a * b > 0,
{
    assert(a * b > 0) by (nonlinear_arith)
        requires
            a > 0,
            b > 0,
    {}
}

/// The strict ordering of fractions respects fraction equality.
pub proof fn lemma_rv_lt_congruence(a: RatVal, b: RatVal, a2: RatVal, b2: RatVal)
    requires
        rv_wf(a),
        rv_wf(b),
        rv_wf(a2),
        rv_wf(b2),
        rv_eq(a, a2),
        rv_eq(b, b2),
        rv_lt(a, b),
    ensures
        rv_lt(a2, b2),
{
    assert(a2.num * b2.den < b2.num * a2.den) by (nonlinear_arith)
        requires
            a.num * a2.den == a2.num * a.den,
            b.num * b2.den == b2.num * b.den,
            a.num * b.den < b.num * a.den,
            a.den > 0,
            b.den > 0,
            a2.den > 0,
            b2.den > 0,
    {}
}

} // verus!

verus! {

impl Ratio {
    /// The greatest whole number not above the fraction.
    pub fn floor(&self) -> (r: i64)
        requires
            self.wf(),
        ensures
            r as int == rv_floor(self@),
    {
        let n = self.num;
        let d = self.den;
        if n >= 0 {
            let q = (n as u128) / (d as u128);
            proof {
                vstd::arithmetic::div_mod::lemma_fundamental_div_mod(n as int, d as int);
                assert(q <= n) by (nonlinear_arith)
                    requires
                        n as int == (d as int) * (q as int) + (n as int) % (d as int),
                        0 <= (n as int) % (d as int),
                        d >= 1,
                        q as int == (n as int) / (d as int),
                        n >= 0,
                        q >= 0,
                {}
            }
            q as i64
        } else {
            let m = (-n) as u128;
            let du = d as u128;
            let q = m / du;
            let rem = m % du;
            proof {
                vstd::arithmetic::div_mod::lemma_fundamental_div_mod(m as int, du as int);
                assert(q <= m) by (nonlinear_arith)
                    requires
                        m as int == (du as int) * (q as int) + (m as int) % (du as int),
                        0 <= (m as int) % (du as int),
                        du >= 1,
                        q as int == (m as int) / (du as int),
                        q >= 0,
                {}
                if rem == 0 {
                    assert(n as int == (d as int) * (-(q as int)) + 0) by (nonlinear_arith)
                        requires
                            m as int == (du as int) * (q as int) + (rem as int),
                            rem == 0,
                            n as int == -(m as int),
                            du as int == d as int,
                    {}
                    vstd::arithmetic::div_mod::lemma_fundamental_div_mod_converse(
                        n as int,
                        d as int,
                        -(q as int),
                        0,
                    );
                } else {
                    assert(n as int == (d as int) * (-(q as int) - 1) + ((d as int) - (
                    rem as int))) by (nonlinear_arith)
                        requires
                            m as int == (du as int) * (q as int) + (rem as int),
                            n as int == -(m as int),
                            du as int == d as int,
                    {}
                    vstd::arithmetic::div_mod::lemma_fundamental_div_mod_converse(
                        n as int,
                        d as int,
                        -(q as int) - 1,
                        (d as int) - (rem as int),
                    );
                }
            }
            if rem == 0 {
                -(q as i64)
            } else {
                -(q as i64) - 1
            }
        }
    }
}

} // verus!

verus! {

impl Ratio {
    /// The stored numerator.
    pub fn numer(&self) -> (n: i128)
        ensures
            n as int == self@.num,
    {
        self.num
    }

    /// The stored (positive) denominator.
    pub fn denom(&self) -> (d: i128)
        ensures
            d as int == self@.den,
    {
        self.den
    }
}

} // verus!

verus! {

/// Sums of well-formed fractions are well formed.
pub proof fn lemma_rv_add_wf(a: RatVal, b: RatVal)
    requires
        rv_wf(a),
        rv_wf(b),
    ensures
        rv_wf(rv_add(a, b)),
        rv_wf(rv_sub(a, b)),
        rv_wf(rv_mul(a, b)),
{
    lemma_den_positive(a.den, b.den);
}

/// Quotients by a nonzero fraction are well formed.
pub proof fn lemma_rv_div_wf(a: RatVal, b: RatVal)
    requires
        rv_wf(a),
        rv_wf(b),
        b.num != 0,
    ensures
        rv_wf(rv_div(a, b)),
{
    if b.num >= 0 {
        lemma_den_positive(a.den, b.num);
    } else {
        assert(-(a.den * b.num) > 0) by (nonlinear_arith)
            requires
                a.den > 0,
                b.num < 0,
        {}
    }
}

/// Division by the same nonzero fraction respects fraction equality.
pub proof fn lemma_rv_div_congruence(a: RatVal, a2: RatVal, b: RatVal)
    requires
        rv_wf(a),
        rv_wf(a2),
        rv_wf(b),
        b.num != 0,
        rv_eq(a, a2),
    ensures
        rv_eq(rv_div(a, b), rv_div(a2, b)),
{
    if b.num >= 0 {
        assert((a.num * b.den) * (a2.den * b.num) == (a2.num * b.den) * (a.den * b.num))
            by (nonlinear_arith)
            requires
                a.num * a2.den == a2.num * a.den,
        {}
    } else {
        assert((-(a.num * b.den)) * (-(a2.den * b.num)) == (-(a2.num * b.den)) * (-(a.den * b.num)))
            by (nonlinear_arith)
            requires
                a.num * a2.den == a2.num * a.den,
        {}
    }
}

/// A nonzero fraction times its reciprocal is one.
pub proof fn lemma_rv_mul_recip(f: RatVal)
    requires
        rv_wf(f),
        f.num != 0,
    ensures
        rv_eq(rv_mul(f, rv_div(rv_one(), f)), rv_one()),
{
    if f.num >= 0 {
        assert((f.num * (1 * f.den)) * 1 == 1 * (f.den * (1 * f.num))) by (nonlinear_arith) {}
    } else {
        assert((f.num * (-(1 * f.den))) * 1 == 1 * (f.den * (-(1 * f.num)))) by (nonlinear_arith) {}
    }
}

} // verus!

verus! {

/// `x` is a whole multiple of `d` (meaningful for `d > 0`).
pub open spec fn divides(d: int, x: int) -> bool {
    x % d == 0
}

/// Greatest common divisor, by Euclid's algorithm.
pub open spec fn gcd_nat(a: nat, b: nat) -> nat
    decreases b,
{
    if b == 0 {
        a
    } else {
        gcd_nat(b, a % b)
    }
}

/// The greatest common divisor divides both arguments, and is positive
/// when either argument is.
pub proof fn lemma_gcd_divides(a: nat, b: nat)
    ensures
        b > 0 ==> divides(gcd_nat(a, b) as int, a as int) && divides(gcd_nat(a, b) as int, b as int)
            && gcd_nat(a, b) >= 1,
        b == 0 && a > 0 ==> gcd_nat(a, b) == a && divides(a as int, a as int) && divides(
            a as int,
            0,
        ),
    decreases b,
{
    if b == 0 {
        if a > 0 {
            vstd::arithmetic::div_mod::lemma_fundamental_div_mod_converse_mod(
                a as int,
                a as int,
                1,
                0,
            );
            vstd::arithmetic::div_mod::lemma_fundamental_div_mod_converse_mod(0, a as int, 0, 0);
        }
    } else {
        let g = gcd_nat(b, a % b);
        lemma_gcd_divides(b, a % b);
        if a % b == 0 {
            // g == b here
            vstd::arithmetic::div_mod::lemma_fundamental_div_mod_converse_mod(
                b as int,
                b as int,
                1,
                0,
            );
            vstd::arithmetic::div_mod::lemma_fundamental_div_mod_converse_mod(0, b as int, 0, 0);
            vstd::arithmetic::div_mod::lemma_fundamental_div_mod(a as int, b as int);
            assert(a as int == (b as int) * ((a as int) / (b as int)) + 0);
            vstd::arithmetic::div_mod::lemma_fundamental_div_mod_converse_mod(
                a as int,
                b as int,
                (a as int) / (b as int),
                0,
            );
        } else {
            // g divides b and a % b; show it divides a
            vstd::arithmetic::div_mod::lemma_fundamental_div_mod(a as int, b as int);
            vstd::arithmetic::div_mod::lemma_fundamental_div_mod(b as int, g as int);
            vstd::arithmetic::div_mod::lemma_fundamental_div_mod((a % b) as int, g as int);
            let qb = (b as int) / (g as int);
            let qr = ((a % b) as int) / (g as int);
            let qa = (a as int) / (b as int);
            assert(a as int == (g as int) * (qb * qa + qr)) by (nonlinear_arith)
                requires
                    a as int == (b as int) * qa + ((a % b) as int),
                    b as int == (g as int) * qb,
                    (a % b) as int == (g as int) * qr,
            {}
            vstd::arithmetic::div_mod::lemma_fundamental_div_mod_converse_mod(
                a as int,
                g as int,
                qb * qa + qr,
                0,
            );
        }
    }
}

/// The fraction with the common factor of its parts divided out.
pub open spec fn rv_norm(v: RatVal) -> RatVal {
    let g = gcd_nat((if v.num < 0 {
        -v.num
    } else {
        v.num
    }) as nat, v.den as nat) as int;
    if g <= 0 {
        v
    } else {
        RatVal { num: v.num / g, den: v.den / g }
    }
}

/// Normalization keeps the fraction's value, keeps or shrinks both parts,
/// and preserves the numerator's sign.
pub proof fn lemma_rv_norm(v: RatVal)
    requires
        rv_wf(v),
    ensures
        rv_wf(rv_norm(v)),
        rv_eq(rv_norm(v), v),
        rv_eq(v, rv_norm(v)),
        rv_norm(v).den <= v.den,
        rv_norm(v).num <= (if v.num < 0 { -v.num } else { v.num }),
        -(rv_norm(v).num) <= (if v.num < 0 { -v.num } else { v.num }),
        in_bounds(v) ==> in_bounds(rv_norm(v)),
        rv_norm(v).num > 0 <==> v.num > 0,
        rv_norm(v).num == 0 <==> v.num == 0,
        rv_norm(v).num < 0 <==> v.num < 0,
{
    let m = (if v.num < 0 {
        -v.num
    } else {
        v.num
    }) as nat;
    let g = gcd_nat(m, v.den as nat) as int;
    lemma_gcd_divides(m, v.den as nat);
    assert(g >= 1);
    assert(divides(g, m as int));
    assert(divides(g, v.den));
    vstd::arithmetic::div_mod::lemma_fundamental_div_mod(m as int, g);
    vstd::arithmetic::div_mod::lemma_fundamental_div_mod(v.den, g);
    let qm = (m as int) / g;
    let qd = v.den / g;
    assert(m as int == g * qm);
    assert(v.den == g * qd);
    if v.num < 0 {
        // v.num == -(g * qm) == g * (-qm), so Euclidean division is exact
        assert(v.num == g * (-qm) + 0) by (nonlinear_arith)
            requires
                v.num == -(m as int),
                m as int == g * qm,
        {}
        vstd::arithmetic::div_mod::lemma_fundamental_div_mod_converse_div(v.num, g, -qm, 0);
        assert(v.num / g == -qm);
    } else {
        assert(v.num == g * qm + 0) by (nonlinear_arith)
            requires
                v.num == m as int,
                m as int == g * qm,
        {}
        vstd::arithmetic::div_mod::lemma_fundamental_div_mod_converse_div(v.num, g, qm, 0);
        assert(v.num / g == qm);
    }
    let w = rv_norm(v);
    assert(w.den == qd);
    assert(qd >= 1) by (nonlinear_arith)
        requires
            v.den == g * qd,
            v.den > 0,
            g >= 1,
    {}
    assert(qd <= v.den) by (nonlinear_arith)
        requires
            v.den == g * qd,
            g >= 1,
            qd >= 1,
    {}
    assert(qm <= m as int) by (nonlinear_arith)
        requires
            m as int == g * qm,
            g >= 1,
            qm >= 0,
    {
        assert(qm >= 0) by (nonlinear_arith)
            requires
                m as int == g * qm,
                m as int >= 0,
                g >= 1,
        {}
    }
    assert(qm >= 0) by (nonlinear_arith)
        requires
            m as int == g * qm,
            m as int >= 0,
            g >= 1,
    {}
    // the value is unchanged: (num/g) * den == num * (den/g)
    assert(w.num * v.den == v.num * w.den) by (nonlinear_arith)
        requires
            v.num == g * w.num,
            v.den == g * w.den,
    {}
    // sign preservation
    assert(w.num > 0 <==> v.num > 0) by (nonlinear_arith)
        requires
            v.num == g * w.num,
            g >= 1,
    {}
    assert(w.num == 0 <==> v.num == 0) by (nonlinear_arith)
        requires
            v.num == g * w.num,
            g >= 1,
    {}
}

} // verus!

verus! {

/// Divide the common factor out of a raw numerator/denominator pair.
fn reduce_i128(n: i128, d: i128) -> (r: (i128, i128))
    requires
        0 < d,
        -170141183460469231731687303715884105727 <= n,
    ensures
        ({
            let v = RatVal { num: n as int, den: d as int };
            r.0 as int == rv_norm(v).num && r.1 as int == rv_norm(v).den
        }),
{
    let ghost v = RatVal { num: n as int, den: d as int };
    let m: u128 = if n < 0 {
        (-n) as u128
    } else {
        n as u128
    };
    let du: u128 = d as u128;
    let mut x: u128 = m;
    let mut y: u128 = du;
    while y != 0
        invariant
            gcd_nat(x as nat, y as nat) == gcd_nat(m as nat, du as nat),
        decreases y,
    {
        let t = x % y;
        proof {
            assert(gcd_nat(x as nat, y as nat) == gcd_nat(y as nat, (x % y) as nat));
        }
        x = y;
        y = t;
    }
    let g = x;
    proof {
        lemma_gcd_divides(m as nat, du as nat);
        assert(g as nat == gcd_nat(m as nat, du as nat));
        assert(g >= 1);
        lemma_rv_norm_parts(v);
    }
    let qm = m / g;
    let qd = du / g;
    let rn: i128 = if n < 0 {
        -(qm as i128)
    } else {
        qm as i128
    };
    proof {
        let gi = g as int;
        vstd::arithmetic::div_mod::lemma_fundamental_div_mod(m as int, gi);
        let q = (m as int) / gi;
        assert(m as int == gi * q);
        if n < 0 {
            assert(n as int == (-q) * gi + 0) by (nonlinear_arith)
                requires
                    n as int == -(m as int),
                    m as int == gi * q,
            {}
            vstd::arithmetic::div_mod::lemma_fundamental_div_mod_converse_div(n as int, gi, -q, 0);
        } else {
            assert(n as int == q * gi + 0) by (nonlinear_arith)
                requires
                    n as int == m as int,
                    m as int == gi * q,
            {}
            vstd::arithmetic::div_mod::lemma_fundamental_div_mod_converse_div(n as int, gi, q, 0);
        }
    }
    (rn, qd as i128)
}

/// Helper for [`reduce_i128`]: unfold the divisibility facts of the norm.
proof fn lemma_rv_norm_parts(v: RatVal)
    requires
        rv_wf(v),
    ensures
        ({
            let m = (if v.num < 0 {
                -v.num
            } else {
                v.num
            }) as nat;
            let g = gcd_nat(m, v.den as nat) as int;
            g >= 1 && divides(g, m as int) && divides(g, v.den) && rv_norm(v).num == v.num / g
                && rv_norm(v).den == v.den / g
        }),
{
    let m = (if v.num < 0 {
        -v.num
    } else {
        v.num
    }) as nat;
    lemma_gcd_divides(m, v.den as nat);
}

impl Ratio {
    /// Exact sum in lowest terms; `None` when even the reduced result
    /// leaves the representable window.
    pub fn add_reduced(&self, other: &Ratio) -> (r: Option<Ratio>)
        requires
            self.wf(),
            other.wf(),
        ensures
            r is Some <==> in_bounds(rv_norm(rv_add(self@, other@))),
            r matches Some(x) ==> x.wf() && x@ == rv_norm(rv_add(self@, other@)),
    {
        proof {
            lemma_mul_bound(self.num as int, other.den as int);
            lemma_mul_bound(other.num as int, self.den as int);
            lemma_den_product(self.den as int, other.den as int);
            lemma_rv_norm(rv_add(self@, other@));
        }
        let n: i128 = self.num * other.den + other.num * self.den;
        let d: i128 = self.den * other.den;
        let (rn, rd) = reduce_i128(n, d);
        if -RATIO_BOUND <= rn && rn <= RATIO_BOUND && rd <= RATIO_BOUND {
            Some(Ratio { num: rn, den: rd })
        } else {
            None
        }
    }

    /// Exact difference in lowest terms.
    pub fn sub_reduced(&self, other: &Ratio) -> (r: Option<Ratio>)
        requires
            self.wf(),
            other.wf(),
        ensures
            r is Some <==> in_bounds(rv_norm(rv_sub(self@, other@))),
            r matches Some(x) ==> x.wf() && x@ == rv_norm(rv_sub(self@, other@)),
    {
        proof {
            lemma_mul_bound(self.num as int, other.den as int);
            lemma_mul_bound(other.num as int, self.den as int);
            lemma_den_product(self.den as int, other.den as int);
            lemma_rv_norm(rv_sub(self@, other@));
        }
        let n: i128 = self.num * other.den - other.num * self.den;
        let d: i128 = self.den * other.den;
        let (rn, rd) = reduce_i128(n, d);
        if -RATIO_BOUND <= rn && rn <= RATIO_BOUND && rd <= RATIO_BOUND {
            Some(Ratio { num: rn, den: rd })
        } else {
            None
        }
    }

    /// Exact product in lowest terms.
    pub fn mul_reduced(&self, other: &Ratio) -> (r: Option<Ratio>)
        requires
            self.wf(),
            other.wf(),
        ensures
            r is Some <==> in_bounds(rv_norm(rv_mul(self@, other@))),
            r matches Some(x) ==> x.wf() && x@ == rv_norm(rv_mul(self@, other@)),
    {
        proof {
            lemma_mul_bound(self.num as int, other.num as int);
            lemma_den_product(self.den as int, other.den as int);
            lemma_rv_norm(rv_mul(self@, other@));
        }
        let n: i128 = self.num * other.num;
        let d: i128 = self.den * other.den;
        let (rn, rd) = reduce_i128(n, d);
        if -RATIO_BOUND <= rn && rn <= RATIO_BOUND && rd <= RATIO_BOUND {
            Some(Ratio { num: rn, den: rd })
        } else {
            None
        }
    }

    /// Exact quotient in lowest terms; `None` also when the divisor is
    /// zero.
    pub fn div_reduced(&self, other: &Ratio) -> (r: Option<Ratio>)
        requires
            self.wf(),
            other.wf(),
        ensures
            r is Some <==> (other@.num != 0 && in_bounds(rv_norm(rv_div(self@, other@)))),
            r matches Some(x) ==> x.wf() && x@ == rv_norm(rv_div(self@, other@)),
    {
        if other.num == 0 {
            return None;
        }
        proof {
            lemma_mul_bound(self.num as int, other.den as int);
            lemma_mul_bound(self.den as int, other.num as int);
            assert(rv_div(self@, other@).den > 0) by (nonlinear_arith)
                requires
                    other@.num != 0,
                    self@.den > 0,
                    rv_div(self@, other@) == (if other@.num >= 0 {
                        RatVal { num: self@.num * other@.den, den: self@.den * other@.num }
                    } else {
                        RatVal {
                            num: -(self@.num * other@.den),
                            den: -(self@.den * other@.num),
                        }
                    }),
            {}
            lemma_rv_norm(rv_div(self@, other@));
        }
        let mut n: i128 = self.num * other.den;
        let mut d: i128 = self.den * other.num;
        if other.num < 0 {
            n = -n;
            d = -d;
        }
        let (rn, rd) = reduce_i128(n, d);
        if -RATIO_BOUND <= rn && rn <= RATIO_BOUND && rd <= RATIO_BOUND {
            Some(Ratio { num: rn, den: rd })
        } else {
            None
        }
    }
}

} // verus!

verus! {

/// Division respects fraction equality of the divisor.
pub proof fn lemma_rv_div_divisor_congruence(a: RatVal, b: RatVal, b2: RatVal)
    requires
        rv_wf(a),
        rv_wf(b),
        rv_wf(b2),
        b.num != 0,
        rv_eq(b, b2),
    ensures
        rv_eq(rv_div(a, b), rv_div(a, b2)),
{
    assert(b2.num != 0 && (b.num > 0 <==> b2.num > 0)) by (nonlinear_arith)
        requires
            b.num * b2.den == b2.num * b.den,
            b.den > 0,
            b2.den > 0,
            b.num != 0,
    {}
    if b.num > 0 {
        assert((a.num * b.den) * (a.den * b2.num) == (a.num * b2.den) * (a.den * b.num))
            by (nonlinear_arith)
            requires
                b.num * b2.den == b2.num * b.den,
        {}
    } else {
        assert((-(a.num * b.den)) * (-(a.den * b2.num)) == (-(a.num * b2.den)) * (-(a.den * b.num)))
            by (nonlinear_arith)
            requires
                b.num * b2.den == b2.num * b.den,
        {}
    }
}

/// Equal fractions have the same floor.
pub proof fn lemma_rv_floor_congruence(a: RatVal, b: RatVal)
    requires
        rv_wf(a),
        rv_wf(b),
        rv_eq(a, b),
    ensures
        rv_floor(a) == rv_floor(b),
{
    let q = a.num / a.den;
    vstd::arithmetic::div_mod::lemma_fundamental_div_mod(a.num, a.den);
    vstd::arithmetic::div_mod::lemma_mod_bound(a.num, a.den);
    let ra = a.num % a.den;
    // transfer q * a.den <= a.num < (q+1) * a.den across the equality
    assert(q * b.den <= b.num && b.num < (q + 1) * b.den) by (nonlinear_arith)
        requires
            a.num == a.den * q + ra,
            0 <= ra < a.den,
            a.num * b.den == b.num * a.den,
            a.den > 0,
            b.den > 0,
    {}
    assert((q + 1) * b.den == q * b.den + b.den) by (nonlinear_arith) {}
    assert(0 <= b.num - q * b.den < b.den);
    vstd::arithmetic::div_mod::lemma_fundamental_div_mod_converse_div(
        b.num,
        b.den,
        q,
        b.num - q * b.den,
    );
}

/// Negation respects fraction equality.
pub proof fn lemma_rv_neg_congruence(a: RatVal, b: RatVal)
    requires
        rv_eq(a, b),
    ensures
        rv_eq(rv_neg(a), rv_neg(b)),
{
    assert((-a.num) * b.den == (-b.num) * a.den) by (nonlinear_arith)
        requires
            a.num * b.den == b.num * a.den,
    {}
}

} // verus!

verus! {

/// The floor is monotone over the fraction ordering.
pub proof fn lemma_rv_floor_monotone(a: RatVal, b: RatVal)
    requires
        rv_wf(a),
        rv_wf(b),
        rv_le(a, b),
    ensures
        rv_floor(a) <= rv_floor(b),
{
    let fa = a.num / a.den;
    let fb = b.num / b.den;
    vstd::arithmetic::div_mod::lemma_fundamental_div_mod(a.num, a.den);
    vstd::arithmetic::div_mod::lemma_mod_bound(a.num, a.den);
    vstd::arithmetic::div_mod::lemma_fundamental_div_mod(b.num, b.den);
    vstd::arithmetic::div_mod::lemma_mod_bound(b.num, b.den);
    assert(fa <= fb) by (nonlinear_arith)
        requires
            a.num == a.den * fa + a.num % a.den,
            0 <= a.num % a.den < a.den,
            b.num == b.den * fb + b.num % b.den,
            0 <= b.num % b.den < b.den,
            a.num * b.den <= b.num * a.den,
            a.den > 0,
            b.den > 0,
    {}
}

} // verus!
