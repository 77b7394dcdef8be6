//! Fixed-point arithmetic shared by the motion behaviours: the smoother-step
//! S-curve and rounding division.

use vstd::prelude::*;

verus! {

/// The fixed-point representation of 1.0 used for fractions and the curve.
pub const EASE_ONE: i64 = 1_000_000;

/// The smoother-step curve `6t^5 - 15t^4 + 10t^3` on a fraction `p / EASE_ONE`,
/// scaled back by `EASE_ONE` and rounded down.
pub open spec fn smootherstep_spec(p: int) -> int {
    let e = EASE_ONE as int;
    (p * p * p * (6 * p * p - 15 * p * e + 10 * e * e)) / (e * e * e * e)
}

/// The fraction `num / den` in fixed point, rounded down.
pub open spec fn fraction_spec(num: int, den: int) -> int {
    num * (EASE_ONE as int) / den
}

/// Both ends of the curve are fixed points.
pub proof fn lemma_smootherstep_ends()
    ensures
        smootherstep_spec(0) == 0,
        smootherstep_spec(EASE_ONE as int) == EASE_ONE,
{
    let e = EASE_ONE as int;
    assert(0int * 0 * 0 * (6 * 0 * 0 - 15 * 0 * e + 10 * e * e) == 0) by (nonlinear_arith);
    assert(0int / (e * e * e * e) == 0) by (nonlinear_arith)
        requires e * e * e * e > 0;
    assert(e * e * e * (6 * e * e - 15 * e * e + 10 * e * e) == (e * e * e * e) * e)
        by (nonlinear_arith);
    assert((e * e * e * e) * e / (e * e * e * e) == e) by (nonlinear_arith)
        requires e * e * e * e > 0;
}

/// The curve stays within `[0, EASE_ONE]` on that interval.
pub proof fn lemma_smootherstep_range(p: int)
    requires
        0 <= p <= EASE_ONE,
    ensures
        0 <= smootherstep_spec(p) <= EASE_ONE,
{
    let e = EASE_ONE as int;
    let n = p * p * p * (6 * p * p - 15 * p * e + 10 * e * e);
    let d = e * e * e * e;
    assert(6 * p * p - 15 * p * e + 10 * e * e == (e - p) * (10 * e - 5 * p) + p * p)
        by (nonlinear_arith);
    assert((e - p) * (10 * e - 5 * p) >= 0) by (nonlinear_arith)
        requires 0 <= p <= e;
    assert(p * p * p >= 0) by (nonlinear_arith)
        requires 0 <= p;
    assert(n >= 0) by (nonlinear_arith)
        requires
            n == p * p * p * (6 * p * p - 15 * p * e + 10 * e * e),
            p * p * p >= 0,
            6 * p * p - 15 * p * e + 10 * e * e >= 0,
    ;
    assert(d * e - n == (e - p) * (e - p) * (e - p) * (6 * p * p + 3 * p * e + e * e))
        by (nonlinear_arith)
        requires
            n == p * p * p * (6 * p * p - 15 * p * e + 10 * e * e),
            d == e * e * e * e,
    ;
    assert((e - p) * (e - p) * (e - p) * (6 * p * p + 3 * p * e + e * e) >= 0)
        by (nonlinear_arith)
        requires 0 <= p <= e;
    assert(d > 0) by (nonlinear_arith)
        requires d == e * e * e * e, e > 0;
    assert(0 <= n / d <= e) by (nonlinear_arith)
        requires 0 <= n <= d * e, d > 0;
}

/// The curve on a fixed-point fraction in `[0, EASE_ONE]`.
pub fn smootherstep(p: i64) -> (r: i64)
    requires
        0 <= p <= EASE_ONE,
    ensures
        r == smootherstep_spec(p as int),
        0 <= r <= EASE_ONE,
{
    proof {
        lemma_smootherstep_range(p as int);
    }
    let q = p as i128;
    let e = EASE_ONE as i128;
    assert(0 <= q * q <= 1_000_000_000_000) by (nonlinear_arith)
        requires 0 <= q <= 1_000_000;
    assert(0 <= q * q * q <= 1_000_000_000_000_000_000) by (nonlinear_arith)
        requires 0 <= q <= 1_000_000, q * q <= 1_000_000_000_000;
    assert(0 <= q * e <= 1_000_000_000_000) by (nonlinear_arith)
        requires 0 <= q <= 1_000_000, e == 1_000_000;
    let inner = 6 * (q * q) - 15 * (q * e) + 10 * (e * e);
    assert(0 <= inner <= 16_000_000_000_000) by (nonlinear_arith)
        requires
            inner == 6 * (q * q) - 15 * (q * e) + 10 * (e * e),
            0 <= q <= e,
            e == 1_000_000,
    ;
    let cube = q * q * q;
    assert(0 <= cube * inner <= 16_000_000_000_000_000_000_000_000_000_000) by (nonlinear_arith)
        requires
            0 <= cube <= 1_000_000_000_000_000_000,
            0 <= inner <= 16_000_000_000_000,
    ;
    let num = cube * inner;
    let den = e * e * e * e;
    assert(num == p * p * p * (6 * p * p - 15 * p * e + 10 * e * e)) by (nonlinear_arith)
        requires
            num == cube * inner,
            cube == q * q * q,
            inner == 6 * (q * q) - 15 * (q * e) + 10 * (e * e),
            q == p,
    ;
    (num / den) as i64
}

/// `a / d` rounded toward negative infinity.
pub fn div_floor(a: i128, d: i128) -> (r: i128)
    requires
        d > 0,
    ensures
        r == a / d,
{
    match a.checked_div_euclid(d) {
        Some(q) => q,
        None => {
            assert(i128::MIN <= a / d <= i128::MAX) by (nonlinear_arith)
                requires
                    d > 0,
                    i128::MIN <= a <= i128::MAX,
            ;
            0
        },
    }
}

/// The fixed-point fraction `num / den`, for `num` within `[0, den]`.
pub fn fraction(num: u64, den: u64) -> (r: i64)
    requires
        0 < den,
        num <= den,
    ensures
        r == fraction_spec(num as int, den as int),
        0 <= r <= EASE_ONE,
{
    let n = num as u128;
    let d = den as u128;
    assert((n as int) * 1_000_000 / (d as int) <= 1_000_000) by (nonlinear_arith)
        requires n <= d, d > 0;
    let r = n * 1_000_000 / d;
    r as i64
}

} // verus!
