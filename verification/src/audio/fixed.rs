//! Signed micro-unit fixed-point arithmetic (1_000_000 == 1.0).
//!
//! Every audio value in the engine is an `i64` holding micro-units, so
//! `0.7` is written `700_000` and a full-scale sample is `1_000_000`.
//! Products are divided back by [`SCALE`] with Rust's truncating division;
//! [`spec_mul_fx`] is the exact mathematical statement of that operation.

use vstd::prelude::*;

verus! {

/// One fixed-point unit: 1.0 == 1_000_000 micro-units.
pub const SCALE: i64 = 1_000_000;

/// Half a unit, used by the waveshapers and the exponent table.
pub const HALF_SCALE: i64 = 500_000;

/// Largest magnitude accepted by [`mul_fx`]; products of two such values
/// still fit in an `i64`.
pub const MUL_LIMIT: i64 = 3_000_000_000;

/// Truncating (round-toward-zero) division, the semantics of Rust's `/`.
pub open spec fn div_trunc(a: int, b: int) -> int {
    if a >= 0 {
        a / b
    } else {
        -((-a) / b)
    }
}

/// Fixed-point product: `a * b` scaled back down, truncating toward zero.
pub open spec fn spec_mul_fx(a: int, b: int) -> int {
    div_trunc(a * b, SCALE as int)
}

/// Clamp `v` into `[lo, hi]`.
pub open spec fn spec_clamp(v: int, lo: int, hi: int) -> int {
    if v < lo {
        lo
    } else if v > hi {
        hi
    } else {
        v
    }
}

/// Truncating division never rounds away from zero: `|a / b| <= |a| / b`.
pub proof fn lemma_div_trunc_bound(a: int, b: int, m: int)
    requires
        b > 0,
        -m <= a <= m,
        0 <= m,
    ensures
        -(m / b) <= div_trunc(a, b) <= m / b,
{
    if a >= 0 {
        vstd::arithmetic::div_mod::lemma_div_is_ordered(a, m, b);
        vstd::arithmetic::div_mod::lemma_div_pos_is_pos(a, b);
    } else {
        vstd::arithmetic::div_mod::lemma_div_is_ordered(-a, m, b);
        vstd::arithmetic::div_mod::lemma_div_pos_is_pos(-a, b);
    }
}

/// Truncating division is monotone in the dividend.
pub proof fn lemma_div_trunc_ordered(a1: int, a2: int, b: int)
    requires
        b > 0,
        a1 <= a2,
    ensures
        div_trunc(a1, b) <= div_trunc(a2, b),
{
    if a1 >= 0 {
        vstd::arithmetic::div_mod::lemma_div_is_ordered(a1, a2, b);
    } else if a2 < 0 {
        vstd::arithmetic::div_mod::lemma_div_is_ordered(-a2, -a1, b);
    } else {
        vstd::arithmetic::div_mod::lemma_div_pos_is_pos(-a1, b);
        vstd::arithmetic::div_mod::lemma_div_pos_is_pos(a2, b);
    }
}

/// Range of a quotient of nonnegative values from ranges of its operands.
pub proof fn lemma_div_range(a: int, b: int, amin: int, amax: int, bmin: int, bmax: int)
    requires
        0 <= amin <= a <= amax,
        0 < bmin <= b <= bmax,
    ensures
        amin / bmax <= a / b <= amax / bmin,
{
    vstd::arithmetic::div_mod::lemma_div_is_ordered(amin, a, b);
    vstd::arithmetic::div_mod::lemma_div_is_ordered_by_denominator(amin, b, bmax);
    vstd::arithmetic::div_mod::lemma_div_is_ordered(a, amax, b);
    vstd::arithmetic::div_mod::lemma_div_is_ordered_by_denominator(amax, bmin, b);
}

/// Bound on a fixed-point product from bounds on its factors.
pub proof fn lemma_mul_fx_bound(a: int, b: int, ma: int, mb: int)
    requires
        -ma <= a <= ma,
        -mb <= b <= mb,
        0 <= ma,
        0 <= mb,
    ensures
        -(ma * mb / (SCALE as int)) <= spec_mul_fx(a, b) <= ma * mb / (SCALE as int),
{
    assert(-(ma * mb) <= a * b <= ma * mb) by (nonlinear_arith)
        requires
            -ma <= a <= ma,
            -mb <= b <= mb,
            0 <= ma,
            0 <= mb,
    ;
    assert(ma * mb >= 0) by (nonlinear_arith)
        requires
            0 <= ma,
            0 <= mb,
    ;
    lemma_div_trunc_bound(a * b, SCALE as int, ma * mb);
}

/// A fixed-point product with a nonnegative left factor is monotone in the
/// right factor.
pub proof fn lemma_mul_fx_mono(a: int, b1: int, b2: int)
    requires
        a >= 0,
        b1 <= b2,
    ensures
        spec_mul_fx(a, b1) <= spec_mul_fx(a, b2),
{
    assert(a * b1 <= a * b2) by (nonlinear_arith)
        requires
            a >= 0,
            b1 <= b2,
    ;
    lemma_div_trunc_ordered(a * b1, a * b2, SCALE as int);
}

/// Fixed-point multiply: `a * b / SCALE`, truncating toward zero.
pub fn mul_fx(a: i64, b: i64) -> (r: i64)
    requires
        -MUL_LIMIT <= a <= MUL_LIMIT,
        -MUL_LIMIT <= b <= MUL_LIMIT,
    ensures
        r == spec_mul_fx(a as int, b as int),
{
    proof {
        assert((a as int) * (b as int) <= (MUL_LIMIT as int) * (MUL_LIMIT as int) && (a as int) * (
        b as int) >= -((MUL_LIMIT as int) * (MUL_LIMIT as int))) by (nonlinear_arith)
            requires
                -MUL_LIMIT <= a <= MUL_LIMIT,
                -MUL_LIMIT <= b <= MUL_LIMIT,
        ;
    }
    let p = a * b;
    p / SCALE
}

/// Fixed-point multiply for a wide left factor against a factor of at most
/// two units; the product still fits in an `i64`.
pub fn mul_fx_wide(a: i64, b: i64) -> (r: i64)
    requires
        -4_000_000_000_000 <= a <= 4_000_000_000_000,
        -2_000_000 <= b <= 2_000_000,
    ensures
        r == spec_mul_fx(a as int, b as int),
{
    proof {
        assert(-8_000_000_000_000_000_000 <= (a as int) * (b as int) <= 8_000_000_000_000_000_000)
            by (nonlinear_arith)
            requires
                -4_000_000_000_000 <= a <= 4_000_000_000_000,
                -2_000_000 <= b <= 2_000_000,
        ;
    }
    let p = a * b;
    p / SCALE
}

/// Fixed-point quotient: `a * SCALE / b`, truncating toward zero.
pub open spec fn spec_div_fx(a: int, b: int) -> int {
    div_trunc(a * (SCALE as int), b)
}

/// Largest magnitude accepted by [`div_fx`]; such a value still fits in an
/// `i64` after scaling up.
pub const DIV_LIMIT: i64 = 9_000_000_000_000;

/// Fixed-point divide: `a * SCALE / b`, truncating toward zero.
pub fn div_fx(a: i64, b: i64) -> (r: i64)
    requires
        -DIV_LIMIT <= a <= DIV_LIMIT,
        0 < b,
    ensures
        r == spec_div_fx(a as int, b as int),
{
    proof {
        assert((a as int) * (SCALE as int) <= (DIV_LIMIT as int) * (SCALE as int) && (a as int) * (
        SCALE as int) >= -((DIV_LIMIT as int) * (SCALE as int))) by (nonlinear_arith)
            requires
                -DIV_LIMIT <= a <= DIV_LIMIT,
        ;
    }
    let p = a * SCALE;
    p / b
}

/// Clamp `v` into `[lo, hi]`.
pub fn clamp_fx(v: i64, lo: i64, hi: i64) -> (r: i64)
    requires
        lo <= hi,
    ensures
        r == spec_clamp(v as int, lo as int, hi as int),
        lo <= r <= hi,
{
    if v < lo {
        lo
    } else if v > hi {
        hi
    } else {
        v
    }
}

/// Magnitude of a fixed-point value.
pub fn abs_fx(v: i64) -> (r: i64)
    requires
        v > i64::MIN,
    ensures
        r == if v >= 0 {
            v as int
        } else {
            -(v as int)
        },
        r >= 0,
{
    if v >= 0 {
        v
    } else {
        -v
    }
}

/// One cycle of a sine-like wave from the unit phase, as a parabolic arc
/// per half cycle: zero at phase 0 and 1/2, one unit peak at 1/4, minus one
/// unit trough at 3/4.
pub open spec fn spec_sin_unit(p: int) -> int {
    if 0 <= p < HALF_SCALE as int {
        p * ((HALF_SCALE as int) - p) / 62_500
    } else if (HALF_SCALE as int) <= p < SCALE as int {
        -((p - HALF_SCALE as int) * ((SCALE as int) - p) / 62_500)
    } else {
        0
    }
}

/// The wave stays within one unit of zero.
pub proof fn lemma_sin_unit_bounded(p: int)
    ensures
        -(SCALE as int) <= spec_sin_unit(p) <= SCALE as int,
{
    if 0 <= p < HALF_SCALE as int {
        assert(0 <= p * ((HALF_SCALE as int) - p) <= 62_500_000_000) by (nonlinear_arith)
            requires
                0 <= p < 500_000,
        ;
        lemma_div_trunc_bound(p * ((HALF_SCALE as int) - p), 62_500, 62_500_000_000);
        vstd::arithmetic::div_mod::lemma_div_pos_is_pos(p * ((HALF_SCALE as int) - p), 62_500);
    } else if (HALF_SCALE as int) <= p < SCALE as int {
        let q = p - HALF_SCALE as int;
        assert(0 <= q * ((SCALE as int) - p) <= 62_500_000_000) by (nonlinear_arith)
            requires
                500_000 <= p < 1_000_000,
                q == p - 500_000,
        ;
        lemma_div_trunc_bound(q * ((SCALE as int) - p), 62_500, 62_500_000_000);
        vstd::arithmetic::div_mod::lemma_div_pos_is_pos(q * ((SCALE as int) - p), 62_500);
    }
}

/// Sine-like oscillator core over the unit phase.
pub fn sin_unit(p: i64) -> (r: i64)
    requires
        0 <= p < SCALE,
    ensures
        r == spec_sin_unit(p as int),
        -SCALE <= r <= SCALE,
{
    proof {
        lemma_sin_unit_bounded(p as int);
    }
    if p < HALF_SCALE {
        proof {
            assert(0 <= (p as int) * ((HALF_SCALE as int) - p) <= 62_500_000_000)
                by (nonlinear_arith)
                requires
                    0 <= p < 500_000,
            ;
        }
        (p * (HALF_SCALE - p)) / 62_500
    } else {
        proof {
            assert(0 <= ((p as int) - HALF_SCALE as int) * ((SCALE as int) - p) <= 62_500_000_000)
                by (nonlinear_arith)
                requires
                    500_000 <= p < 1_000_000,
            ;
        }
        -(((p - HALF_SCALE) * (SCALE - p)) / 62_500)
    }
}

/// Soft limiting: excursions above `th` are scaled by `ratio` and capped at
/// `ceil`, preserving sign.
pub open spec fn spec_soft_limit(v: int, th: int, ratio: int, ceil: int) -> int {
    let mag = if v >= 0 {
        v
    } else {
        -v
    };
    if mag <= th {
        v
    } else {
        let compressed = th + spec_mul_fx(mag - th, ratio);
        let capped = if compressed > ceil {
            ceil
        } else {
            compressed
        };
        if v >= 0 {
            capped
        } else {
            -capped
        }
    }
}

/// Soft limiter: compress the excursion above `th` by `ratio`, hard-cap the
/// magnitude at `ceil`.
pub fn soft_limit(v: i64, th: i64, ratio: i64, ceil: i64) -> (r: i64)
    requires
        0 <= th <= ceil,
        0 <= ratio <= SCALE,
        -MUL_LIMIT < v < MUL_LIMIT,
    ensures
        r == spec_soft_limit(v as int, th as int, ratio as int, ceil as int),
        -ceil <= r <= ceil,
{
    let mag = abs_fx(v);
    if mag <= th {
        v
    } else {
        proof {
            lemma_mul_fx_bound(mag - th as int, ratio as int, MUL_LIMIT as int, SCALE as int);
            vstd::arithmetic::div_mod::lemma_div_pos_is_pos(
                ((mag - th) as int) * (ratio as int),
                SCALE as int,
            );
            assert(((mag - th) as int) * (ratio as int) >= 0) by (nonlinear_arith)
                requires
                    mag - th >= 0,
                    ratio >= 0,
            ;
        }
        let compressed = th + mul_fx(mag - th, ratio);
        let capped = if compressed > ceil {
            ceil
        } else {
            compressed
        };
        if v >= 0 {
            capped
        } else {
            -capped
        }
    }
}

/// Rational tanh-like activation `x (27 + x^2) / (27 + 9 x^2)` in fixed
/// point, saturated to one unit so every activation is a valid scalar.
pub open spec fn spec_tanh_fx(x: int) -> int {
    let x2 = spec_mul_fx(x, x);
    let num = spec_mul_fx(x, 27_000_000 + x2);
    let den = 27_000_000 + 9 * x2;
    spec_clamp(spec_div_fx(num, den), -(SCALE as int), SCALE as int)
}

/// Saturated rational tanh approximation, used by the parameter mapper's
/// activation and the tape saturator.
pub fn tanh_fx(x: i64) -> (r: i64)
    requires
        -30_000_000 <= x <= 30_000_000,
    ensures
        r == spec_tanh_fx(x as int),
        -SCALE <= r <= SCALE,
{
    proof {
        lemma_mul_fx_bound(x as int, x as int, 30_000_000, 30_000_000);
    }
    let x2 = mul_fx(x, x);
    proof {
        assert(x2 >= 0) by {
            assert((x as int) * (x as int) >= 0) by (nonlinear_arith);
            vstd::arithmetic::div_mod::lemma_div_pos_is_pos((x as int) * (x as int), SCALE as int);
        }
        lemma_mul_fx_bound(x as int, 27_000_000 + x2 as int, 30_000_000, 927_000_000);
    }
    let num = mul_fx(x, 27_000_000 + x2);
    let den = 27_000_000 + 9 * x2;
    let q = div_fx(num, den);
    clamp_fx(q, -SCALE, SCALE)
}

/// Nodes of the base-two exponential over `[-1/2, 1/2]`, sixteenths apart:
/// `spec_exp2_node(k)` is `2^(-1/2 + k/16)` in micro-units.
pub open spec fn spec_exp2_node(k: int) -> int {
    if k <= 0 {
        707_107
    } else if k == 1 {
        738_413
    } else if k == 2 {
        771_105
    } else if k == 3 {
        805_245
    } else if k == 4 {
        840_896
    } else if k == 5 {
        878_126
    } else if k == 6 {
        917_004
    } else if k == 7 {
        957_603
    } else if k == 8 {
        1_000_000
    } else if k == 9 {
        1_044_274
    } else if k == 10 {
        1_090_508
    } else if k == 11 {
        1_138_789
    } else if k == 12 {
        1_189_207
    } else if k == 13 {
        1_241_858
    } else if k == 14 {
        1_296_840
    } else if k == 15 {
        1_354_256
    } else {
        1_414_214
    }
}

fn exp2_node(k: i64) -> (r: i64)
    requires
        0 <= k <= 16,
    ensures
        r == spec_exp2_node(k as int),
{
    if k == 0 {
        707_107
    } else if k == 1 {
        738_413
    } else if k == 2 {
        771_105
    } else if k == 3 {
        805_245
    } else if k == 4 {
        840_896
    } else if k == 5 {
        878_126
    } else if k == 6 {
        917_004
    } else if k == 7 {
        957_603
    } else if k == 8 {
        1_000_000
    } else if k == 9 {
        1_044_274
    } else if k == 10 {
        1_090_508
    } else if k == 11 {
        1_138_789
    } else if k == 12 {
        1_189_207
    } else if k == 13 {
        1_241_858
    } else if k == 14 {
        1_296_840
    } else if k == 15 {
        1_354_256
    } else {
        1_414_214
    }
}

/// Base-two exponential over `[-1/2, 1/2]`, linearly interpolated between
/// the table nodes.
pub open spec fn spec_exp2_half(x: int) -> int {
    let t = x + HALF_SCALE as int;
    let seg = t / 62_500;
    let frac = t % 62_500;
    if seg >= 16 {
        spec_exp2_node(16)
    } else {
        spec_exp2_node(seg) + (spec_exp2_node(seg + 1) - spec_exp2_node(seg)) * frac / 62_500
    }
}

/// The interpolated exponential stays between its end nodes.
pub proof fn lemma_exp2_half_bounded(x: int)
    requires
        -(HALF_SCALE as int) <= x <= HALF_SCALE as int,
    ensures
        707_107 <= spec_exp2_half(x) <= 1_414_214,
{
    let t = x + HALF_SCALE as int;
    let seg = t / 62_500;
    let frac = t % 62_500;
    if seg < 16 {
        assert(0 <= seg) by {
            vstd::arithmetic::div_mod::lemma_div_pos_is_pos(t, 62_500);
        }
        let d = spec_exp2_node(seg + 1) - spec_exp2_node(seg);
        assert(0 <= d * frac <= d * 62_500) by (nonlinear_arith)
            requires
                0 <= d,
                0 <= frac <= 62_500,
        ;
        vstd::arithmetic::div_mod::lemma_div_pos_is_pos(d * frac, 62_500);
        vstd::arithmetic::div_mod::lemma_div_is_ordered(d * frac, d * 62_500, 62_500);
        vstd::arithmetic::div_mod::lemma_div_by_multiple(d, 62_500);
    }
}

/// Base-two exponential of a half-unit exponent: `2^(x / SCALE)` in
/// micro-units, by table lookup with linear interpolation.
pub fn exp2_half(x: i64) -> (r: i64)
    requires
        -HALF_SCALE <= x <= HALF_SCALE,
    ensures
        r == spec_exp2_half(x as int),
        707_107 <= r <= 1_414_214,
{
    proof {
        lemma_exp2_half_bounded(x as int);
    }
    let t = x + HALF_SCALE;
    let seg = t / 62_500;
    let frac = t % 62_500;
    if seg >= 16 {
        exp2_node(16)
    } else {
        proof {
            vstd::arithmetic::div_mod::lemma_div_pos_is_pos(t as int, 62_500);
        }
        let lo = exp2_node(seg);
        let hi = exp2_node(seg + 1);
        proof {
            assert(0 <= ((hi - lo) as int) * (frac as int) <= 62_500_000_000) by (nonlinear_arith)
                requires
                    0 <= (hi - lo) as int <= 60_000,
                    0 <= frac <= 62_500,
            ;
        }
        lo + ((hi - lo) * frac) / 62_500
    }
}

/// Equal-tempered semitone ratios: `spec_semi_ratio(s)` is `2^(s/12)` in
/// micro-units, for `s` from 0 to 12.
pub open spec fn spec_semi_ratio(s: int) -> int {
    if s <= 0 {
        1_000_000
    } else if s == 1 {
        1_059_463
    } else if s == 2 {
        1_122_462
    } else if s == 3 {
        1_189_207
    } else if s == 4 {
        1_259_921
    } else if s == 5 {
        1_334_840
    } else if s == 6 {
        1_414_214
    } else if s == 7 {
        1_498_307
    } else if s == 8 {
        1_587_401
    } else if s == 9 {
        1_681_793
    } else if s == 10 {
        1_781_797
    } else if s == 11 {
        1_887_749
    } else {
        2_000_000
    }
}

/// Equal-tempered semitone ratio lookup.
pub fn semi_ratio(s: i64) -> (r: i64)
    requires
        0 <= s <= 12,
    ensures
        r == spec_semi_ratio(s as int),
        1_000_000 <= r <= 2_000_000,
{
    if s == 0 {
        1_000_000
    } else if s == 1 {
        1_059_463
    } else if s == 2 {
        1_122_462
    } else if s == 3 {
        1_189_207
    } else if s == 4 {
        1_259_921
    } else if s == 5 {
        1_334_840
    } else if s == 6 {
        1_414_214
    } else if s == 7 {
        1_498_307
    } else if s == 8 {
        1_587_401
    } else if s == 9 {
        1_681_793
    } else if s == 10 {
        1_781_797
    } else if s == 11 {
        1_887_749
    } else {
        2_000_000
    }
}

} // verus!
