//! Fixed-weight parameter modulator: an 8-16-8 feed-forward map.
//!
//! The weights are hand-authored constants, never updated at runtime, so the
//! modulator is represented as a pure function rather than a trainable
//! structure. Inputs are rescaled from `[0, 1]` to `[-1, 1]`, pushed through
//! two layers with a rational tanh-like activation, and rescaled back.

use vstd::prelude::*;

use crate::audio::fixed::{spec_clamp, spec_mul_fx, spec_tanh_fx, tanh_fx, mul_fx, clamp_fx, SCALE};
use crate::audio::fixed::lemma_mul_fx_bound;

verus! {

/// First-layer weight from feature `j` to hidden unit `i`: different rows
/// favour different feature sub-ranges.
pub open spec fn spec_input_weight(i: int, j: int) -> int {
    if i % 4 == 0 {
        if j < 2 {
            800_000
        } else {
            200_000
        }
    } else if i % 4 == 1 {
        if j == 2 || j == 6 {
            900_000
        } else {
            100_000
        }
    } else if i % 4 == 2 {
        if j > 3 {
            700_000
        } else {
            300_000
        }
    } else {
        500_000 + (i - 8) * 100_000
    }
}

/// Bias of hidden unit `i`.
pub open spec fn spec_hidden_bias(i: int) -> int {
    -500_000 + i * 62_500
}

/// Second-layer weight from hidden unit `j` to output `i`.
pub open spec fn spec_hidden_weight(i: int, j: int) -> int {
    if i == 0 {
        if j < 4 {
            600_000
        } else {
            200_000
        }
    } else if i == 1 {
        if 4 <= j && j < 8 {
            700_000
        } else {
            100_000
        }
    } else if i == 2 {
        if 8 <= j && j < 12 {
            800_000
        } else {
            200_000
        }
    } else if i == 3 {
        if j >= 12 {
            900_000
        } else {
            300_000
        }
    } else {
        400_000 + ((i + j) % 3) * 200_000
    }
}

/// Pre-activation sum of hidden unit `i` over the first `n` inputs.
pub open spec fn spec_hidden_sum(x: Seq<i64>, i: int, n: int) -> int
    decreases n,
{
    if n <= 0 {
        spec_hidden_bias(i)
    } else {
        spec_hidden_sum(x, i, n - 1) + spec_mul_fx(x[n - 1] as int, spec_input_weight(i, n - 1))
    }
}

/// Hidden unit `i` of the modulator.
pub open spec fn spec_hidden_unit(x: Seq<i64>, i: int) -> int {
    spec_tanh_fx(spec_hidden_sum(x, i, 8))
}

/// Pre-activation sum of output `i` over the first `n` hidden units.
pub open spec fn spec_out_sum(h: Seq<i64>, i: int, n: int) -> int
    decreases n,
{
    if n <= 0 {
        0
    } else {
        spec_out_sum(h, i, n - 1) + spec_mul_fx(h[n - 1] as int, spec_hidden_weight(i, n - 1))
    }
}

/// Output `i` of the two-layer map, in `[-1, 1]` units.
pub open spec fn spec_forward_unit(x: Seq<i64>, i: int) -> int {
    spec_tanh_fx(spec_out_sum(Seq::new(16, |k: int| spec_hidden_unit(x, k) as i64), i, 16))
}

/// Modulation scalar `i` for a feature vector, in `[0, 1]` units.
pub open spec fn spec_modulation_unit(f: Seq<i64>, i: int) -> int {
    let x = Seq::new(8, |k: int| spec_clamp(2 * f[k] - SCALE as int, -(SCALE as int), SCALE as int) as i64);
    (spec_forward_unit(x, i) + SCALE as int) / 2
}

/// Fixed-weight neural modulator. The weights are compile-time constants
/// (see the spec functions above), so the struct itself carries no state.
pub struct SimpleNeuralModulator;

fn input_weight(i: usize, j: usize) -> (r: i64)
    requires
        i < 16,
        j < 8,
    ensures
        r == spec_input_weight(i as int, j as int),
        -300_000 <= r <= 1_200_000,
{
    if i % 4 == 0 {
        if j < 2 {
            800_000
        } else {
            200_000
        }
    } else if i % 4 == 1 {
        if j == 2 || j == 6 {
            900_000
        } else {
            100_000
        }
    } else if i % 4 == 2 {
        if j > 3 {
            700_000
        } else {
            300_000
        }
    } else {
        500_000 + (i as i64 - 8) * 100_000
    }
}

fn hidden_bias(i: usize) -> (r: i64)
    requires
        i < 16,
    ensures
        r == spec_hidden_bias(i as int),
        -500_000 <= r <= 500_000,
{
    -500_000 + (i as i64) * 62_500
}

fn hidden_weight(i: usize, j: usize) -> (r: i64)
    requires
        i < 8,
        j < 16,
    ensures
        r == spec_hidden_weight(i as int, j as int),
        100_000 <= r <= 900_000,
{
    if i == 0 {
        if j < 4 {
            600_000
        } else {
            200_000
        }
    } else if i == 1 {
        if 4 <= j && j < 8 {
            700_000
        } else {
            100_000
        }
    } else if i == 2 {
        if 8 <= j && j < 12 {
            800_000
        } else {
            200_000
        }
    } else if i == 3 {
        if j >= 12 {
            900_000
        } else {
            300_000
        }
    } else {
        400_000 + (((i + j) % 3) as i64) * 200_000
    }
}

impl SimpleNeuralModulator {
    /// The modulator with the fixed dungeon-synth weight set.
    pub fn new() -> (r: Self)
    {
        SimpleNeuralModulator
    }

    /// Run the two fixed layers on inputs in `[-1, 1]` units.
    ///
    /// Always returns 8 values, each saturated into `[-1, 1]` units.
    pub fn forward(&self, inputs: &[i64; 8]) -> (r: [i64; 8])
        requires
            forall|j: int| 0 <= j < 8 ==> -SCALE <= #[trigger] inputs[j] <= SCALE,
        ensures
            forall|i: int| 0 <= i < 8 ==> r[i] == spec_forward_unit(inputs@, i),
            forall|i: int| 0 <= i < 8 ==> -SCALE <= #[trigger] r[i] <= SCALE,
    {
        let ghost x = inputs@;
        let mut hidden: [i64; 16] = [0i64; 16];
        let mut i: usize = 0;
        while i < 16
            invariant
                forall|j: int| 0 <= j < 8 ==> -SCALE <= #[trigger] inputs[j] <= SCALE,
                x == inputs@,
                i <= 16,
                forall|k: int| 0 <= k < i ==> hidden[k] == spec_hidden_unit(x, k),
                forall|k: int| 0 <= k < i ==> -SCALE <= #[trigger] hidden[k] <= SCALE,
            decreases 16 - i,
        {
            let mut acc: i64 = hidden_bias(i);
            let mut j: usize = 0;
            while j < 8
                invariant
                    forall|jj: int| 0 <= jj < 8 ==> -SCALE <= #[trigger] inputs[jj] <= SCALE,
                    x == inputs@,
                    i < 16,
                    j <= 8,
                    acc == spec_hidden_sum(x, i as int, j as int),
                    -500_000 - (j as int) * 1_200_000 <= acc <= 500_000 + (j as int) * 1_200_000,
                decreases 8 - j,
            {
                proof {
                    lemma_mul_fx_bound(
                        inputs[j as int] as int,
                        spec_input_weight(i as int, j as int),
                        SCALE as int,
                        1_200_000,
                    );
                }
                let w = input_weight(i, j);
                acc = acc + mul_fx(inputs[j], w);
                j += 1;
            }
            let h = tanh_fx(acc);
            hidden[i] = h;
            i += 1;
        }
        let ghost hseq = Seq::new(16, |k: int| spec_hidden_unit(x, k) as i64);
        proof {
            assert(hidden@ =~= hseq);
        }
        let mut out: [i64; 8] = [0i64; 8];
        let mut i: usize = 0;
        while i < 8
            invariant
                hidden@ == hseq,
                hseq == Seq::new(16, |k: int| spec_hidden_unit(x, k) as i64),
                forall|k: int| 0 <= k < 16 ==> -SCALE <= #[trigger] hidden[k] <= SCALE,
                i <= 8,
                forall|k: int| 0 <= k < i ==> out[k] == spec_forward_unit(x, k),
                forall|k: int| 0 <= k < i ==> -SCALE <= #[trigger] out[k] <= SCALE,
            decreases 8 - i,
        {
            let mut acc: i64 = 0;
            let mut j: usize = 0;
            while j < 16
                invariant
                    hidden@ == hseq,
                    forall|k: int| 0 <= k < 16 ==> -SCALE <= #[trigger] hidden[k] <= SCALE,
                    i < 8,
                    j <= 16,
                    acc == spec_out_sum(hseq, i as int, j as int),
                    -(j as int) * 900_000 <= acc <= (j as int) * 900_000,
                decreases 16 - j,
            {
                proof {
                    lemma_mul_fx_bound(
                        hidden[j as int] as int,
                        spec_hidden_weight(i as int, j as int),
                        SCALE as int,
                        900_000,
                    );
                }
                let w = hidden_weight(i, j);
                acc = acc + mul_fx(hidden[j], w);
                j += 1;
            }
            let o = tanh_fx(acc);
            proof {
                assert(Seq::new(16, |k: int| spec_hidden_unit(x, k) as i64) =~= hseq);
            }
            out[i] = o;
            i += 1;
        }
        out
    }

    /// Map a feature vector (components in `[0, 1]` units) to 8 modulation
    /// scalars in `[0, 1]` units.
    pub fn get_modulation_values(&self, game_features: &[i64; 8]) -> (r: [i64; 8])
        ensures
            forall|i: int| 0 <= i < 8 ==> r[i] == spec_modulation_unit(game_features@, i),
            forall|i: int| 0 <= i < 8 ==> 0 <= #[trigger] r[i] <= SCALE,
    {
        let ghost f = game_features@;
        let ghost xseq = Seq::new(
            8,
            |k: int| spec_clamp(2 * f[k] - SCALE as int, -(SCALE as int), SCALE as int) as i64,
        );
        let mut normalized: [i64; 8] = [0i64; 8];
        let mut i: usize = 0;
        while i < 8
            invariant
                f == game_features@,
                xseq == Seq::new(
                    8,
                    |k: int|
                        (spec_clamp(2 * f[k] - SCALE as int, -(SCALE as int), SCALE as int) as i64),
                ),
                i <= 8,
                forall|k: int| 0 <= k < i ==> normalized[k] == xseq[k],
                forall|k: int| 0 <= k < i ==> -SCALE <= #[trigger] normalized[k] <= SCALE,
            decreases 8 - i,
        {
            let v = game_features[i];
            let scaled = if v > MUL_GUARD {
                SCALE
            } else if v < -MUL_GUARD {
                -SCALE
            } else {
                clamp_fx(2 * v - SCALE, -SCALE, SCALE)
            };
            proof {
                assert(xseq[i as int] == spec_clamp(
                    2 * f[i as int] - SCALE as int,
                    -(SCALE as int),
                    SCALE as int,
                ) as i64);
                assert(scaled == xseq[i as int]);
            }
            normalized[i] = scaled;
            i += 1;
        }
        proof {
            assert(normalized@ =~= xseq);
        }
        let outputs = self.forward(&normalized);
        let mut modulation: [i64; 8] = [0i64; 8];
        let mut i: usize = 0;
        while i < 8
            invariant
                f == game_features@,
                xseq == Seq::new(
                    8,
                    |k: int|
                        (spec_clamp(2 * f[k] - SCALE as int, -(SCALE as int), SCALE as int) as i64),
                ),
                normalized@ == xseq,
                forall|k: int| 0 <= k < 8 ==> outputs[k] == spec_forward_unit(xseq, k),
                forall|k: int| 0 <= k < 8 ==> -SCALE <= #[trigger] outputs[k] <= SCALE,
                i <= 8,
                forall|k: int| 0 <= k < i ==> modulation[k] == spec_modulation_unit(f, k),
                forall|k: int| 0 <= k < i ==> 0 <= #[trigger] modulation[k] <= SCALE,
            decreases 8 - i,
        {
            let m = (outputs[i] + SCALE) / 2;
            proof {
                assert(Seq::new(
                    8,
                    |k: int|
                        spec_clamp(
                            2 * f[k] - SCALE as int,
                            -(SCALE as int),
                            SCALE as int,
                        ) as i64,
                ) =~= xseq);
            }
            modulation[i] = m;
            i += 1;
        }
        modulation
    }
}

/// Values beyond this magnitude would overflow the `2 * v - 1` rescale; they
/// saturate directly instead.
const MUL_GUARD: i64 = 2_000_000_000;

} // verus!
