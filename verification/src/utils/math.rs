//! Decimal formatting of exact fractions.

use crate::geometry::ratio::RatVal;
use crate::geometry::ratio::Ratio;
use vstd::prelude::*;

verus! {

/// Relies on std's `String::push`: appends one character to the string.
pub assume_specification [ String::push ](s: &mut String, c: char)
    ensures
        final(s)@ == old(s)@.push(c),
;

/// The character for one decimal digit.
pub open spec fn spec_digit(d: int) -> char {
    if d == 0 {
        '0'
    } else if d == 1 {
        '1'
    } else if d == 2 {
        '2'
    } else if d == 3 {
        '3'
    } else if d == 4 {
        '4'
    } else if d == 5 {
        '5'
    } else if d == 6 {
        '6'
    } else if d == 7 {
        '7'
    } else if d == 8 {
        '8'
    } else {
        '9'
    }
}

/// The decimal digits of a whole number, most significant first.
pub open spec fn spec_nat_digits(n: nat) -> Seq<char>
    decreases n,
{
    if n < 10 {
        seq![spec_digit(n as int)]
    } else {
        spec_nat_digits(n / 10).push(spec_digit((n % 10) as int))
    }
}

/// Up to `k` decimal digits of the fraction `rm / den`, stopping early when
/// the remainder runs out.
pub open spec fn spec_frac_digits(rm: nat, den: nat, k: nat) -> Seq<char>
    decreases k,
{
    if k == 0 || rm == 0 {
        Seq::empty()
    } else {
        seq![spec_digit(((rm * 10) / den) as int)] + spec_frac_digits(
            (rm * 10) % den,
            den,
            (k - 1) as nat,
        )
    }
}

/// Drop trailing `'0'` characters.
pub open spec fn spec_trim_zeros(s: Seq<char>) -> Seq<char>
    decreases s.len(),
{
    if s.len() == 0 {
        s
    } else if s.last() == '0' {
        spec_trim_zeros(s.drop_last())
    } else {
        s
    }
}

/// How many fraction digits the formatter prints at most.
pub const FRAC_DIGITS: u32 = 9;

/// The shortest decimal rendering of a fraction: sign, whole part, and up
/// to [`FRAC_DIGITS`] fraction digits with trailing zeros (and a bare
/// decimal point) removed.
pub open spec fn spec_display_ratio(v: RatVal) -> Seq<char> {
    let m = (if v.num < 0 {
        -v.num
    } else {
        v.num
    }) as nat;
    let den = v.den as nat;
    let q = m / den;
    let rm = m % den;
    let frac = spec_trim_zeros(spec_frac_digits(rm, den, FRAC_DIGITS as nat));
    let body = if frac.len() == 0 {
        spec_nat_digits(q)
    } else {
        spec_nat_digits(q) + seq!['.'] + frac
    };
    if v.num < 0 && (q != 0 || frac.len() != 0) {
        seq!['-'] + body
    } else {
        body
    }
}

/// The character for a digit below ten.
fn digit_char(d: u8) -> (c: char)
    requires
        d < 10,
    ensures
        c == spec_digit(d as int),
{
    if d == 0 {
        '0'
    } else if d == 1 {
        '1'
    } else if d == 2 {
        '2'
    } else if d == 3 {
        '3'
    } else if d == 4 {
        '4'
    } else if d == 5 {
        '5'
    } else if d == 6 {
        '6'
    } else if d == 7 {
        '7'
    } else if d == 8 {
        '8'
    } else {
        '9'
    }
}

/// Append the decimal digits of `n`, most significant first.
fn push_nat_digits(s: &mut String, n: u128)
    ensures
        final(s)@ == old(s)@ + spec_nat_digits(n as nat),
    decreases n,
{
    if n >= 10 {
        push_nat_digits(s, n / 10);
        let c = digit_char((n % 10) as u8);
        s.push(c);
        proof {
            assert(final(s)@ =~= old(s)@ + spec_nat_digits(n as nat));
        }
    } else {
        let c = digit_char(n as u8);
        s.push(c);
        proof {
            assert(final(s)@ =~= old(s)@ + spec_nat_digits(n as nat));
        }
    }
}

/// Append up to `k` fraction digits of `rm / den`.
fn push_frac_digits(v: &mut Vec<char>, rm: u128, den: u128, k: u32)
    requires
        0 < den,
        rm < den,
        den as int <= crate::geometry::ratio::RATIO_BOUND as int,
    ensures
        final(v)@ == old(v)@ + spec_frac_digits(rm as nat, den as nat, k as nat),
    decreases k,
{
    if k == 0 || rm == 0 {
        proof {
            assert(final(v)@ =~= old(v)@ + spec_frac_digits(rm as nat, den as nat, k as nat));
        }
        return ;
    }
    let scaled = rm * 10;
    let d = scaled / den;
    let r2 = scaled % den;
    proof {
        vstd::arithmetic::div_mod::lemma_fundamental_div_mod(scaled as int, den as int);
        assert(d < 10) by (nonlinear_arith)
            requires
                scaled as int == (den as int) * (d as int) + (scaled as int) % (den as int),
                0 <= (scaled as int) % (den as int),
                scaled == rm * 10,
                rm < den,
                den > 0,
                d as int == (scaled as int) / (den as int),
                d >= 0,
        {}
    }
    let c = digit_char(d as u8);
    v.push(c);
    push_frac_digits(v, r2, den, k - 1);
    proof {
        assert(final(v)@ =~= old(v)@ + spec_frac_digits(rm as nat, den as nat, k as nat));
    }
}

/// Render a numeric axis value as its shortest decimal form: up to
/// [`FRAC_DIGITS`] fraction digits, with trailing zeros and a bare decimal
/// point trimmed away, so `3/2` prints as `1.5` and `2` as `2`.
pub fn display_double_smartly(value: &Ratio) -> (r: String)
    requires
        value.wf(),
    ensures
        r@ == spec_display_ratio(value@),
{
    let n = value.numer();
    let d = value.denom();
    let neg = n < 0;
    let m: u128 = if neg {
        (-n) as u128
    } else {
        n as u128
    };
    let den: u128 = d as u128;
    let q = m / den;
    let rm = m % den;
    let mut frac: Vec<char> = Vec::new();
    push_frac_digits(&mut frac, rm, den, FRAC_DIGITS);
    while frac.len() > 0 && frac[frac.len() - 1] == '0'
        invariant
            spec_trim_zeros(frac@) == spec_trim_zeros(
                spec_frac_digits(rm as nat, den as nat, FRAC_DIGITS as nat),
            ),
        decreases frac.len(),
    {
        frac.pop();
    }
    proof {
        assert(frac@ == spec_trim_zeros(
            spec_frac_digits(rm as nat, den as nat, FRAC_DIGITS as nat),
        ));
    }
    let mut out = String::new();
    if neg && (q != 0 || frac.len() > 0) {
        out.push('-');
    }
    push_nat_digits(&mut out, q);
    if frac.len() > 0 {
        out.push('.');
        let mut i: usize = 0;
        while i < frac.len()
            invariant
                i <= frac.len(),
                out@ == spec_display_prefix(value@, frac@, i as int),
            decreases frac.len() - i,
    {
            let c = frac[i];
            out.push(c);
            i = i + 1;
        }
    }
    proof {
        assert(out@ =~= spec_display_ratio(value@));
    }
    out
}

/// The output before the `i`-th fraction digit has been appended.
pub open spec fn spec_display_prefix(v: RatVal, frac: Seq<char>, i: int) -> Seq<char> {
    let m = (if v.num < 0 {
        -v.num
    } else {
        v.num
    }) as nat;
    let den = v.den as nat;
    let q = m / den;
    let sign: Seq<char> = if v.num < 0 && (q != 0 || frac.len() != 0) {
        seq!['-']
    } else {
        Seq::empty()
    };
    sign + spec_nat_digits(q) + seq!['.'] + frac.take(i)
}

} // verus!
