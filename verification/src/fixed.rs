//! Fixed-point arithmetic for clip times and amplitudes.
//!
//! One unit is 1/100000: a time unit is 10 microseconds, and an amplitude or
//! frequency unit is 1/100000 of the normalized range `[0, 1]`.

use vstd::prelude::*;

verus! {

/// Number of fixed-point units per second (for times) and per 1.0 of the
/// normalized range (for amplitudes and frequencies).
pub const SCALE: i64 = 100_000;

/// Largest time value, in units, that a clip may hold (10000 seconds).
/// Larger times are rejected at validation; the bound keeps every later
/// computation free of overflow.
pub const MAX_TIME: i64 = 1_000_000_000;

/// Largest time value that a validated clip may hold: slightly under
/// `MAX_TIME`, leaving room for the regions that emphasis rendering appends
/// after the last breakpoint.
pub const CLIP_TIME_LIMIT: i64 = 999_990_000;

/// Bound on the numerators and denominators accepted by `round_div`.
pub const DIV_BOUND: i64 = 1_000_000_000_000_000_000;

/// Division rounded to the nearest integer, ties away from zero.
pub open spec fn spec_round_div(num: int, den: int) -> int
    recommends
        den > 0,
{
    if num >= 0 {
        (2 * num + den) / (2 * den)
    } else {
        -((2 * (-num) + den) / (2 * den))
    }
}

proof fn lemma_div_bounds_nonneg(num: int, den: int)
    requires
        den > 0,
        num >= 0,
    ensures
        0 <= (2 * num + den) / (2 * den),
        num % den == 0 ==> (2 * num + den) / (2 * den) == num / den,
    decreases num,
{
    assert(0 <= (2 * num + den) / (2 * den)) by (nonlinear_arith)
        requires den > 0 && num >= 0;
    if num % den == 0 {
        if num < den {
            assert(num == 0) by {
                assert(num % den == num) by (nonlinear_arith)
                    requires den > 0 && 0 <= num < den;
            }
            assert((0 + den) / (2 * den) == 0) by (nonlinear_arith)
                requires den > 0;
            assert(num / den == 0) by (nonlinear_arith)
                requires den > 0 && num == 0;
        } else {
            lemma_div_bounds_nonneg(num - den, den);
            assert((num - den) % den == 0) by (nonlinear_arith)
                requires den > 0 && num % den == 0 && num >= den;
            assert((2 * num + den) / (2 * den) == (2 * (num - den) + den) / (2 * den) + 1)
                by (nonlinear_arith)
                requires den > 0 && num >= den;
            assert(num / den == (num - den) / den + 1) by (nonlinear_arith)
                requires den > 0 && num >= den;
        }
    }
}

/// `round_div(num, den)` stays within `[0, q]` whenever `0 <= num <= q * den`.
pub proof fn lemma_round_div_range(num: int, den: int, q: int)
    requires
        den > 0,
        0 <= num,
        num <= q * den,
    ensures
        0 <= spec_round_div(num, den) <= q,
{
    assert(q >= 0) by (nonlinear_arith)
        requires den > 0 && 0 <= num && num <= q * den;
    assert(0 <= (2 * num + den) / (2 * den)) by (nonlinear_arith)
        requires den > 0 && num >= 0;
    assert((2 * num + den) / (2 * den) <= q) by (nonlinear_arith)
        requires den > 0 && 0 <= num && num <= q * den && q >= 0;
}

/// The rounding division grows with its numerator.
pub proof fn lemma_round_div_monotone(n1: int, n2: int, den: int)
    requires
        den > 0,
        0 <= n1 <= n2,
    ensures
        spec_round_div(n1, den) <= spec_round_div(n2, den),
{
    assert((2 * n1 + den) / (2 * den) <= (2 * n2 + den) / (2 * den)) by (nonlinear_arith)
        requires den > 0 && 0 <= n1 <= n2;
}

/// Exact division is returned unchanged by the rounding division.
pub proof fn lemma_round_div_exact(q: int, den: int)
    requires
        den > 0,
        q >= 0,
    ensures
        spec_round_div(q * den, den) == q,
{
    assert((2 * (q * den) + den) / (2 * den) == q) by (nonlinear_arith)
        requires den > 0 && q >= 0;
}

/// Division of `num` by `den`, rounded to the nearest integer with ties away
/// from zero.
pub fn round_div(num: i64, den: i64) -> (r: i64)
    requires
        0 < den <= DIV_BOUND,
        -DIV_BOUND <= num <= DIV_BOUND,
    ensures
        r == spec_round_div(num as int, den as int),
{
    if num >= 0 {
        (2 * num + den) / (2 * den)
    } else {
        -((2 * (-num) + den) / (2 * den))
    }
}

/// Division of wide intermediates by a small positive divisor, rounded to
/// the nearest integer with ties away from zero.
pub fn round_div_wide(num: i128, den: i128) -> (r: i128)
    requires
        0 < den <= 1_000_000,
        -0x1000000000000000000000000000000 <= num <= 0x1000000000000000000000000000000,
    ensures
        r == spec_round_div(num as int, den as int),
{
    if num >= 0 {
        (2 * num + den) / (2 * den)
    } else {
        -((2 * (-num) + den) / (2 * den))
    }
}

/// The value linearly interpolated between `(ta, va)` and `(tb, vb)` at `t`,
/// rounded to the nearest unit. For an empty interval the right value wins.
pub open spec fn spec_lerp(ta: int, tb: int, va: int, vb: int, t: int) -> int
    recommends
        ta <= t <= tb,
{
    if tb <= ta {
        vb
    } else if vb >= va {
        va + spec_round_div((vb - va) * (t - ta), tb - ta)
    } else {
        va - spec_round_div((va - vb) * (t - ta), tb - ta)
    }
}

/// The interpolated value never leaves the interval spanned by `va` and `vb`.
pub proof fn lemma_lerp_bounds(ta: int, tb: int, va: int, vb: int, t: int)
    requires
        ta <= t <= tb,
    ensures
        va <= vb ==> va <= spec_lerp(ta, tb, va, vb, t) <= vb,
        vb <= va ==> vb <= spec_lerp(ta, tb, va, vb, t) <= va,
{
    if tb <= ta {
    } else if vb >= va {
        assert((vb - va) * (t - ta) >= 0) by (nonlinear_arith)
            requires vb >= va && t >= ta;
        assert((vb - va) * (t - ta) <= (vb - va) * (tb - ta)) by (nonlinear_arith)
            requires vb >= va && ta <= t <= tb;
        lemma_round_div_range((vb - va) * (t - ta), tb - ta, vb - va);
    } else {
        assert((va - vb) * (t - ta) >= 0) by (nonlinear_arith)
            requires va >= vb && t >= ta;
        assert((va - vb) * (t - ta) <= (va - vb) * (tb - ta)) by (nonlinear_arith)
            requires va >= vb && ta <= t <= tb;
        lemma_round_div_range((va - vb) * (t - ta), tb - ta, va - vb);
    }
}

/// Returns a value linearly interpolated between `value_a` at `time_a` and
/// `value_b` at `time_b`, evaluated at `time`.
pub fn interpolate(time_a: i64, time_b: i64, value_a: i64, value_b: i64, time: i64) -> (r: i64)
    requires
        time_a <= time <= time_b,
        0 <= value_a <= SCALE,
        0 <= value_b <= SCALE,
        time_b - time_a <= 2 * MAX_TIME,
    ensures
        r == spec_lerp(time_a as int, time_b as int, value_a as int, value_b as int, time as int),
        value_a <= value_b ==> value_a <= r <= value_b,
        value_b <= value_a ==> value_b <= r <= value_a,
{
    proof {
        lemma_lerp_bounds(time_a as int, time_b as int, value_a as int, value_b as int, time as int);
    }
    if time_b <= time_a {
        value_b
    } else if value_b >= value_a {
        proof {
            assert((value_b - value_a) * (time - time_a) <= 2 * SCALE * 2 * MAX_TIME)
                by (nonlinear_arith)
                requires
                    0 <= value_b - value_a <= 2 * SCALE,
                    0 <= time - time_a <= 2 * MAX_TIME;
            assert((value_b - value_a) * (time - time_a) >= 0) by (nonlinear_arith)
                requires value_b >= value_a && time >= time_a;
        }
        let num: i64 = (value_b - value_a) * (time - time_a);
        value_a + round_div(num, time_b - time_a)
    } else {
        proof {
            assert((value_a - value_b) * (time - time_a) <= 2 * SCALE * 2 * MAX_TIME)
                by (nonlinear_arith)
                requires
                    0 <= value_a - value_b <= 2 * SCALE,
                    0 <= time - time_a <= 2 * MAX_TIME;
            assert((value_a - value_b) * (time - time_a) >= 0) by (nonlinear_arith)
                requires value_a >= value_b && time >= time_a;
        }
        let num: i64 = (value_a - value_b) * (time - time_a);
        value_a - round_div(num, time_b - time_a)
    }
}

} // verus!
