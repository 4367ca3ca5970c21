//! Small seeded pseudo-random generator for micro-variations.
//!
//! The voice bank takes randomness as an explicit, seeded dependency so that
//! a fixed seed gives a reproducible note sequence.

use vstd::prelude::*;

use crate::audio::fixed::SCALE;

verus! {

/// Multiplier of the linear congruential step.
pub const LCG_MUL: u64 = 6364136223846793005;

/// Increment of the linear congruential step.
pub const LCG_INC: u64 = 1442695040888963407;

/// State after one linear congruential step.
pub open spec fn spec_lcg_step(s: u64) -> u64 {
    vstd::wrapping::u64_specs::wrapping_add(
        vstd::wrapping::u64_specs::wrapping_mul(s, LCG_MUL),
        LCG_INC,
    )
}

/// Unit draw produced from a state: high bits reduced into `[0, SCALE)`.
pub open spec fn spec_lcg_unit(s: u64) -> int {
    ((spec_lcg_step(s) >> 33u64) % (SCALE as u64)) as int
}

/// Seeded linear congruential generator.
pub struct Lcg {
    state: u64,
}

impl Lcg {
    /// The state as seen by the contracts.
    pub closed spec fn spec_state(&self) -> u64 {
        self.state
    }

    /// A generator starting from `seed`.
    pub fn new(seed: u64) -> (r: Self)
        ensures
            r.spec_state() == seed,
    {
        Lcg { state: seed }
    }

    /// Next value in `[0, SCALE)` micro-units, advancing the state.
    pub fn next_unit(&mut self) -> (r: i64)
        ensures
            final(self).spec_state() == spec_lcg_step(old(self).spec_state()),
            r == spec_lcg_unit(old(self).spec_state()),
            0 <= r < SCALE,
    {
        let next = self.state.wrapping_mul(LCG_MUL).wrapping_add(LCG_INC);
        self.state = next;
        let high = next >> 33;
        (high % (SCALE as u64)) as i64
    }
}

} // verus!
