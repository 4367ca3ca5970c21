//! Tape-style saturation: drive into a tanh-like waveshaper, then pull the
//! level back down.

use vstd::prelude::*;

use crate::audio::fixed::{
    clamp_fx, mul_fx, spec_clamp, spec_mul_fx, spec_tanh_fx, tanh_fx, lemma_mul_fx_bound, SCALE,
};

verus! {

/// Single-stage tanh waveshaper with an input drive and an output gain.
pub struct TapeSaturation {
    /// Input drive in micro-units, within `[1, 3]`.
    pub drive: i64,
    /// Output gain in micro-units, within `[0.4, 1]`.
    pub output_gain: i64,
}

impl TapeSaturation {
    /// Drive and gain inside their documented ranges.
    pub open spec fn wf(&self) -> bool {
        &&& SCALE <= self.drive <= 3_000_000
        &&& 400_000 <= self.output_gain <= SCALE
    }

    /// The default vintage colouration: drive 1.5, gain 0.7.
    pub fn new() -> (r: Self)
        ensures
            r.wf(),
            r.drive == 1_500_000,
            r.output_gain == 700_000,
    {
        TapeSaturation { drive: 1_500_000, output_gain: 700_000 }
    }

    /// Set drive and gain, each saturated into its documented range.
    pub fn set_character(&mut self, drive: i64, output_gain: i64)
        ensures
            final(self).wf(),
            final(self).drive == spec_clamp(drive as int, SCALE as int, 3_000_000),
            final(self).output_gain == spec_clamp(output_gain as int, 400_000, SCALE as int),
    {
        self.drive = clamp_fx(drive, SCALE, 3_000_000);
        self.output_gain = clamp_fx(output_gain, 400_000, SCALE);
    }

    /// Shape one sample: drive, saturate, and scale back.
    pub fn process(&self, input: i64) -> (r: i64)
        requires
            self.wf(),
            -6_000_000 <= input <= 6_000_000,
        ensures
            r == spec_mul_fx(
                spec_tanh_fx(spec_mul_fx(input as int, self.drive as int)),
                self.output_gain as int,
            ),
            -SCALE <= r <= SCALE,
    {
        proof {
            lemma_mul_fx_bound(input as int, self.drive as int, 6_000_000, 3_000_000);
        }
        let driven = mul_fx(input, self.drive);
        let saturated = tanh_fx(driven);
        proof {
            lemma_mul_fx_bound(saturated as int, self.output_gain as int, SCALE as int, SCALE as int);
        }
        mul_fx(saturated, self.output_gain)
    }
}

} // verus!
