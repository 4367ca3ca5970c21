//! Two-stage adaptive limiter driven by a slow peak detector.
//!
//! The detector smooths the absolute input level; sustained loud material
//! pulls the compression ratio down and the master gain back, quiet material
//! relaxes both. The signal then passes two soft-limit stages and an
//! absolute output ceiling of 0.95 units.

use vstd::prelude::*;

use crate::audio::fixed::{
    abs_fx, mul_fx, soft_limit, spec_mul_fx, spec_soft_limit, lemma_div_trunc_ordered,
    lemma_mul_fx_bound, lemma_mul_fx_mono, SCALE,
};

verus! {

/// The two-stage limiter shape at compression ratio `ratio`: a gentle stage
/// at 0.7 with the adaptive ratio, then a hard stage at 0.85 with ratio 0.1
/// and ceiling 0.95.
pub open spec fn spec_two_stage(v: int, ratio: int) -> int {
    spec_soft_limit(spec_soft_limit(v, 700_000, ratio, 2_000_000), 850_000, 100_000, 950_000)
}

/// The smoothed peak level after one sample of absolute level `level`.
pub open spec fn spec_peak_update(peak: int, level: int) -> int {
    spec_mul_fx(peak, 999_500) + spec_mul_fx(level, 500)
}

/// The compression ratio after one adaptation step at the new peak level:
/// sustained loud material pulls it toward 0.3, quiet material relaxes it
/// toward 1.0, in between it is untouched.
pub open spec fn spec_adapted_ratio(peak: int, ratio: int) -> int {
    if peak > 800_000 {
        crate::audio::fixed::spec_clamp(spec_mul_fx(ratio, 999_000) + 300, 300_000, 800_000)
    } else if peak < 300_000 {
        crate::audio::fixed::spec_clamp(spec_mul_fx(ratio, 999_000) + 1_000, 300_000, SCALE as int)
    } else {
        ratio
    }
}

/// The master gain after one adaptation step at the new peak level: pulled
/// toward 0.7 when loud, relaxed toward 1.2 when quiet.
pub open spec fn spec_adapted_gain(peak: int, gain: int) -> int {
    if peak > 800_000 {
        crate::audio::fixed::spec_clamp(spec_mul_fx(gain, 999_900) + 70, 400_000, 1_200_000)
    } else if peak < 300_000 {
        crate::audio::fixed::spec_clamp(spec_mul_fx(gain, 999_900) + 100, 400_000, 1_200_000)
    } else {
        gain
    }
}

/// Smoothed peak follower and adaptive gain stage.
pub struct AdaptiveLimiter {
    /// Smoothed absolute input level, in micro-units.
    pub peak_detector: i64,
    /// Master gain in micro-units, within `[0.4, 1.2]`.
    pub master_gain: i64,
    /// Compression ratio of the first stage, within `[0.3, 1]`.
    pub compression_ratio: i64,
}

impl AdaptiveLimiter {
    /// Every field inside its documented range.
    pub open spec fn wf(&self) -> bool {
        &&& 0 <= self.peak_detector <= 2_000_000
        &&& 400_000 <= self.master_gain <= 1_200_000
        &&& 300_000 <= self.compression_ratio <= SCALE
    }

    /// A transparent limiter: no tracked peak, unity gain and ratio.
    pub fn new() -> (r: Self)
        ensures
            r.wf(),
            r.peak_detector == 0,
            r.master_gain == SCALE,
            r.compression_ratio == SCALE,
    {
        AdaptiveLimiter { peak_detector: 0, master_gain: SCALE, compression_ratio: SCALE }
    }

    /// Track the peak, adapt gain and ratio, then shape one sample.
    ///
    /// The returned sample is exactly the two-stage shape of the gained
    /// input, so its magnitude never exceeds 0.95 units.
    pub fn process(&mut self, input: i64) -> (r: i64)
        requires
            old(self).wf(),
            -2_000_000 <= input <= 2_000_000,
        ensures
            final(self).wf(),
            final(self).peak_detector == spec_peak_update(
                old(self).peak_detector as int,
                if input >= 0 {
                    input as int
                } else {
                    -(input as int)
                },
            ),
            final(self).compression_ratio == spec_adapted_ratio(
                final(self).peak_detector as int,
                old(self).compression_ratio as int,
            ),
            final(self).master_gain == spec_adapted_gain(
                final(self).peak_detector as int,
                old(self).master_gain as int,
            ),
            r == spec_two_stage(
                spec_mul_fx(input as int, final(self).master_gain as int),
                final(self).compression_ratio as int,
            ),
            -950_000 <= r <= 950_000,
    {
        let input_level = abs_fx(input);
        proof {
            lemma_mul_fx_bound(self.peak_detector as int, 999_500, 2_000_000, 999_500);
            lemma_mul_fx_bound(input_level as int, 500, 2_000_000, 500);
            lemma_mul_fx_nonneg_pair(self.peak_detector as int, 999_500);
            lemma_mul_fx_nonneg_pair(input_level as int, 500);
        }
        self.peak_detector = mul_fx(self.peak_detector, 999_500) + mul_fx(input_level, 500);
        if self.peak_detector > 800_000 {
            proof {
                lemma_mul_fx_bound(self.compression_ratio as int, 999_000, SCALE as int, 999_000);
                lemma_mul_fx_nonneg_pair(self.compression_ratio as int, 999_000);
                lemma_mul_fx_bound(self.master_gain as int, 999_900, 1_200_000, 999_900);
                lemma_mul_fx_nonneg_pair(self.master_gain as int, 999_900);
            }
            let ratio = mul_fx(self.compression_ratio, 999_000) + 300;
            self.compression_ratio = if ratio > 800_000 {
                800_000
            } else if ratio < 300_000 {
                300_000
            } else {
                ratio
            };
            let gain = mul_fx(self.master_gain, 999_900) + 70;
            self.master_gain = if gain < 400_000 {
                400_000
            } else if gain > 1_200_000 {
                1_200_000
            } else {
                gain
            };
        } else if self.peak_detector < 300_000 {
            proof {
                lemma_mul_fx_bound(self.compression_ratio as int, 999_000, SCALE as int, 999_000);
                lemma_mul_fx_nonneg_pair(self.compression_ratio as int, 999_000);
                lemma_mul_fx_bound(self.master_gain as int, 999_900, 1_200_000, 999_900);
                lemma_mul_fx_nonneg_pair(self.master_gain as int, 999_900);
            }
            let ratio = mul_fx(self.compression_ratio, 999_000) + 1_000;
            self.compression_ratio = if ratio < 300_000 {
                300_000
            } else if ratio > SCALE {
                SCALE
            } else {
                ratio
            };
            let gain = mul_fx(self.master_gain, 999_900) + 100;
            self.master_gain = if gain > 1_200_000 {
                1_200_000
            } else if gain < 400_000 {
                400_000
            } else {
                gain
            };
        }
        proof {
            lemma_mul_fx_bound(input as int, self.master_gain as int, 2_000_000, 1_200_000);
        }
        let gained_input = mul_fx(input, self.master_gain);
        let stage1 = soft_limit(gained_input, 700_000, self.compression_ratio, 2_000_000);
        soft_limit(stage1, 850_000, 100_000, 950_000)
    }
}

/// A fixed-point product of nonnegative factors is nonnegative.
proof fn lemma_mul_fx_nonneg_pair(a: int, b: int)
    requires
        a >= 0,
        b >= 0,
    ensures
        spec_mul_fx(a, b) >= 0,
{
    assert(a * b >= 0) by (nonlinear_arith)
        requires
            a >= 0,
            b >= 0,
    ;
    vstd::arithmetic::div_mod::lemma_div_pos_is_pos(a * b, SCALE as int);
}

/// Law: the ratio adaptation preserves order — starting from a smaller
/// pass-through ratio (stronger compression) never yields the larger
/// adapted ratio, so with [`lemma_two_stage_mono_ratio`] the whole
/// limiter's output magnitude is monotone across two executions that
/// differ only in the compression ratio.
pub proof fn lemma_adapted_ratio_mono(peak: int, r1: int, r2: int)
    requires
        r1 <= r2,
    ensures
        spec_adapted_ratio(peak, r1) <= spec_adapted_ratio(peak, r2),
{
    if peak > 800_000 || peak < 300_000 {
        lemma_mul_fx_mono_left(r1, r2, 999_000);
    }
}

/// A fixed-point product with a nonnegative right factor is monotone in
/// the left factor.
proof fn lemma_mul_fx_mono_left(a1: int, a2: int, b: int)
    requires
        a1 <= a2,
        b >= 0,
    ensures
        spec_mul_fx(a1, b) <= spec_mul_fx(a2, b),
{
    assert(a1 * b <= a2 * b) by (nonlinear_arith)
        requires
            a1 <= a2,
            b >= 0,
    ;
    lemma_div_trunc_ordered(a1 * b, a2 * b, SCALE as int);
}

/// Magnitude of the soft-limit shape, for nonnegative input magnitude.
pub open spec fn spec_limit_mag(mag: int, th: int, ratio: int, ceil: int) -> int {
    if mag <= th {
        mag
    } else {
        let compressed = th + spec_mul_fx(mag - th, ratio);
        if compressed > ceil {
            ceil
        } else {
            compressed
        }
    }
}

/// Soft limiting never flips sign: on a nonnegative value it equals the
/// magnitude shape.
pub proof fn lemma_soft_limit_mag(v: int, th: int, ratio: int, ceil: int)
    requires
        v >= 0,
        0 <= th <= ceil,
        0 <= ratio,
    ensures
        spec_soft_limit(v, th, ratio, ceil) == spec_limit_mag(v, th, ratio, ceil),
{
}

/// More compression never raises the output: for a fixed input magnitude
/// above the threshold, the soft-limit output magnitude is monotonically
/// non-increasing as the applied compression grows (that is, non-decreasing
/// in the pass-through ratio multiplier).
pub proof fn lemma_limit_mag_mono_ratio(mag: int, th: int, ratio1: int, ratio2: int, ceil: int)
    requires
        0 <= mag,
        0 <= th <= ceil,
        0 <= ratio1 <= ratio2,
    ensures
        spec_limit_mag(mag, th, ratio1, ceil) <= spec_limit_mag(mag, th, ratio2, ceil),
{
    if mag > th {
        lemma_mul_fx_mono(mag - th, ratio1, ratio2);
    }
}

/// The magnitude shape is monotone in the input magnitude.
pub proof fn lemma_limit_mag_mono_input(mag1: int, mag2: int, th: int, ratio: int, ceil: int)
    requires
        0 <= mag1 <= mag2,
        0 <= th <= ceil,
        0 <= ratio,
    ensures
        spec_limit_mag(mag1, th, ratio, ceil) <= spec_limit_mag(mag2, th, ratio, ceil),
{
    if mag1 > th && mag2 > th {
        assert((mag1 - th) * ratio <= (mag2 - th) * ratio) by (nonlinear_arith)
            requires
                mag1 <= mag2,
                ratio >= 0,
        ;
        lemma_div_trunc_ordered((mag1 - th) * ratio, (mag2 - th) * ratio, SCALE as int);
    } else if mag1 <= th && mag2 > th {
        assert((mag2 - th) * ratio >= 0) by (nonlinear_arith)
            requires
                mag2 > th,
                ratio >= 0,
        ;
        vstd::arithmetic::div_mod::lemma_div_pos_is_pos((mag2 - th) * ratio, SCALE as int);
    }
}

/// The two-stage limiter shape, on a nonnegative input above threshold, is
/// monotonically non-increasing in the applied compression: a smaller
/// pass-through ratio (stronger compression) never yields a larger output
/// magnitude.
pub proof fn lemma_two_stage_mono_ratio(v: int, ratio1: int, ratio2: int)
    requires
        0 <= v,
        0 <= ratio1 <= ratio2,
    ensures
        spec_two_stage(v, ratio1) <= spec_two_stage(v, ratio2),
        0 <= spec_two_stage(v, ratio1),
{
    lemma_soft_limit_mag(v, 700_000, ratio1, 2_000_000);
    lemma_soft_limit_mag(v, 700_000, ratio2, 2_000_000);
    lemma_limit_mag_mono_ratio(v, 700_000, ratio1, ratio2, 2_000_000);
    if v > 700_000 {
        assert((v - 700_000) * ratio1 >= 0) by (nonlinear_arith)
            requires
                v > 700_000,
                ratio1 >= 0,
        ;
        vstd::arithmetic::div_mod::lemma_div_pos_is_pos((v - 700_000) * ratio1, SCALE as int);
    }
    let s1a = spec_soft_limit(v, 700_000, ratio1, 2_000_000);
    let s1b = spec_soft_limit(v, 700_000, ratio2, 2_000_000);
    lemma_soft_limit_mag(s1a, 850_000, 100_000, 950_000);
    lemma_soft_limit_mag(s1b, 850_000, 100_000, 950_000);
    lemma_limit_mag_mono_input(s1a, s1b, 850_000, 100_000, 950_000);
}

} // verus!
