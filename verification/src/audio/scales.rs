//! Modal scales mapped to the cellular-automaton rules, in micro-unit
//! fixed point (a ratio of 1_500_000 is a perfect fifth and a half).

use vstd::prelude::*;

verus! {

/// Musical scales for the different automaton rules.
#[derive(Debug, Clone, Copy, PartialEq, Eq, Structural)]
pub enum Scale {
    /// Conway's Game of Life: mysterious, ambient.
    Dorian,
    /// HighLife: bright, alive.
    Mixolydian,
    /// Seeds: dark, dramatic.
    Phrygian,
    /// Immigration: peaceful, flowing.
    Pentatonic,
    /// QuadLife: ethereal, otherworldly.
    Lydian,
    /// Brian's Brain: unstable but musical.
    Locrian,
}

impl Default for Scale {
    fn default() -> (r: Self)
        ensures
            r == Scale::Dorian,
    {
        Scale::Dorian
    }
}

impl Scale {
    /// Base drone frequency of the scale in micro-hertz, in the 50 to
    /// 200 Hz ambient range.
    pub fn get_base_frequency(self) -> (r: i64)
        ensures
            r == match self {
                Scale::Dorian => 65_400_000int,
                Scale::Mixolydian => 73_400_000int,
                Scale::Phrygian => 82_400_000int,
                Scale::Pentatonic => 98_000_000int,
                Scale::Lydian => 110_000_000int,
                Scale::Locrian => 123_500_000int,
            },
    {
        match self {
            Scale::Dorian => 65_400_000,
            Scale::Mixolydian => 73_400_000,
            Scale::Phrygian => 82_400_000,
            Scale::Pentatonic => 98_000_000,
            Scale::Lydian => 110_000_000,
            Scale::Locrian => 123_500_000,
        }
    }

    /// The scale's intervals as frequency multipliers in micro-units,
    /// ascending from the unison to the octave.
    pub fn get_intervals(self) -> (r: Vec<i64>)
        ensures
            r@.len() >= 5,
            r@[0] == 1_000_000,
            forall|i: int| 0 <= i < r@.len() ==> 1_000_000 <= #[trigger] r@[i] <= 2_000_000,
            forall|i: int, j: int| 0 <= i < j < r@.len() ==> r@[i] <= r@[j],
    {
        let mut v: Vec<i64> = Vec::new();
        match self {
            Scale::Dorian => {
                v.push(1_000_000);
                v.push(1_125_000);
                v.push(1_250_000);
                v.push(1_500_000);
                v.push(1_667_000);
                v.push(1_875_000);
                v.push(2_000_000);
            },
            Scale::Mixolydian => {
                v.push(1_000_000);
                v.push(1_125_000);
                v.push(1_250_000);
                v.push(1_500_000);
                v.push(1_667_000);
                v.push(1_875_000);
                v.push(1_900_000);
            },
            Scale::Phrygian => {
                v.push(1_000_000);
                v.push(1_067_000);
                v.push(1_250_000);
                v.push(1_500_000);
                v.push(1_667_000);
                v.push(1_778_000);
                v.push(2_000_000);
            },
            Scale::Pentatonic => {
                v.push(1_000_000);
                v.push(1_125_000);
                v.push(1_250_000);
                v.push(1_667_000);
                v.push(1_875_000);
            },
            Scale::Lydian => {
                v.push(1_000_000);
                v.push(1_125_000);
                v.push(1_250_000);
                v.push(1_414_000);
                v.push(1_667_000);
                v.push(1_875_000);
                v.push(2_000_000);
            },
            Scale::Locrian => {
                v.push(1_000_000);
                v.push(1_067_000);
                v.push(1_250_000);
                v.push(1_414_000);
                v.push(1_587_000);
                v.push(1_778_000);
                v.push(2_000_000);
            },
        }
        v
    }
}

/// Grain envelope shapes for the spatial synthesis layer.
#[derive(Debug, Clone, Copy)]
pub enum EnvelopeType {
    /// Gaussian bell curve.
    Gaussian,
    /// Hann window.
    Hann,
    /// Exponential decay.
    ExpDecay,
}

} // verus!
