//! Eight-line feedback delay network with a Hadamard feedback matrix.
//!
//! The eight delay lines are cross-coupled through the fixed ±0.5 Hadamard
//! matrix scaled by 0.7, which diffuses energy without discrete echoes. All
//! stored samples saturate at four units so the network state stays bounded.

use vstd::prelude::*;

use crate::audio::fixed::{
    clamp_fx, mul_fx, spec_mul_fx, lemma_div_range, lemma_mul_fx_bound, SCALE,
};

verus! {

/// Saturation bound of the delay-line contents, in micro-units.
pub const LINE_LIMIT: i64 = 4_000_000;

/// One circular delay buffer.
pub struct DelayLine {
    /// The circular buffer; its length is the delay in samples.
    pub buffer: Vec<i64>,
    /// Next write position; always inside the buffer.
    pub write_pos: usize,
}

impl DelayLine {
    /// Valid line: non-empty, bounded contents, write head in range.
    pub open spec fn wf(&self) -> bool {
        &&& 1 <= self.buffer@.len() <= 100_000_000
        &&& self.write_pos < self.buffer@.len()
        &&& forall|k: int|
            0 <= k < self.buffer@.len() ==> -LINE_LIMIT <= #[trigger] self.buffer@[k] <= LINE_LIMIT
    }
}

/// Sign of the 8-by-8 Hadamard matrix at `(i, j)`: the parity of the bits
/// shared by the two indices.
pub open spec fn spec_had_sign(i: int, j: int) -> int {
    let b = (i % 8) as u32 & (j % 8) as u32;
    if ((b >> 2u32) ^ (b >> 1u32) ^ b) & 1u32 == 0u32 {
        1
    } else {
        -1
    }
}

/// Hadamard feedback entry: half a unit with the matrix sign.
fn had_entry(i: usize, j: usize) -> (r: i64)
    requires
        i < 8,
        j < 8,
    ensures
        r == 500_000 * spec_had_sign(i as int, j as int),
        r == 500_000 || r == -500_000,
{
    let b = (i as u32 % 8) & (j as u32 % 8);
    proof {
        assert((i as u32 % 8) == ((i as int) % 8) as u32) by (bit_vector)
            requires
                i < 8,
        ;
        assert((j as u32 % 8) == ((j as int) % 8) as u32) by (bit_vector)
            requires
                j < 8,
        ;
    }
    if ((b >> 2) ^ (b >> 1) ^ b) & 1 == 0 {
        500_000
    } else {
        -500_000
    }
}

/// What the eight delay lines currently read out: the value at each line's
/// write head.
pub open spec fn spec_read(lines: Seq<DelayLine>, k: int) -> int {
    lines[k].buffer@[lines[k].write_pos as int] as int
}

/// Sum of the first `n` line read-outs.
pub open spec fn spec_reads_sum(lines: Seq<DelayLine>, n: int) -> int
    decreases n,
{
    if n <= 0 {
        0
    } else {
        spec_reads_sum(lines, n - 1) + spec_read(lines, n - 1)
    }
}

/// Diffusion reverb: dry/wet blend of the input with the mean of the eight
/// delay-line read-outs.
pub struct CryptReverb {
    /// The eight delay lines, with pairwise different prime-ish lengths.
    pub delay_lines: Vec<DelayLine>,
    /// Wet fraction of the output in micro-units, within `[0.1, 0.8]`.
    pub wet_amount: i64,
}

impl CryptReverb {
    /// Valid reverb: exactly eight valid lines and a wet amount in range.
    pub open spec fn wf(&self) -> bool {
        &&& self.delay_lines@.len() == 8
        &&& forall|k: int| 0 <= k < 8 ==> (#[trigger] self.delay_lines@[k]).wf()
        &&& 100_000 <= self.wet_amount <= 800_000
    }

    /// A reverb with the eight delay times 23 to 113 ms at `sample_rate`.
    pub fn new(sample_rate: i64) -> (r: Self)
        requires
            1_000 <= sample_rate <= 200_000,
        ensures
            r.wf(),
            r.wet_amount == 300_000,
    {
        let times: [i64; 8] = [23_000, 31_000, 41_000, 53_000, 67_000, 79_000, 97_000, 113_000];
        let mut delay_lines: Vec<DelayLine> = Vec::new();
        let mut i: usize = 0;
        while i < 8
            invariant
                1_000 <= sample_rate <= 200_000,
                forall|k: int| 0 <= k < 8 ==> 23_000 <= #[trigger] times[k] <= 113_000,
                i <= 8,
                delay_lines@.len() == i,
                forall|k: int| 0 <= k < i ==> (#[trigger] delay_lines@[k]).wf(),
            decreases 8 - i,
        {
            proof {
                assert(23_000_000 <= (sample_rate as int) * (times[i as int] as int)
                    <= 22_600_000_000_000) by (nonlinear_arith)
                    requires
                        1_000 <= sample_rate <= 200_000,
                        23_000 <= times[i as int] <= 113_000,
                ;
                lemma_div_range(
                    (sample_rate as int) * (times[i as int] as int),
                    SCALE as int,
                    23_000_000,
                    22_600_000_000_000,
                    SCALE as int,
                    SCALE as int,
                );
            }
            let size = ((sample_rate * times[i]) / SCALE) as usize;
            let mut buffer: Vec<i64> = Vec::new();
            let mut k: usize = 0;
            while k < size
                invariant
                    k <= size,
                    buffer@.len() == k,
                    forall|m: int| 0 <= m < k ==> #[trigger] buffer@[m] == 0,
                decreases size - k,
            {
                buffer.push(0);
                k += 1;
            }
            delay_lines.push(DelayLine { buffer, write_pos: 0 });
            i += 1;
        }
        CryptReverb { delay_lines, wet_amount: 300_000 }
    }

    /// Set the wet fraction, saturated into its documented range.
    pub fn set_wet_amount(&mut self, wet: i64)
        requires
            old(self).wf(),
        ensures
            final(self).wf(),
            final(self).delay_lines == old(self).delay_lines,
            final(self).wet_amount == crate::audio::fixed::spec_clamp(wet as int, 100_000, 800_000),
    {
        self.wet_amount = clamp_fx(wet, 100_000, 800_000);
    }

    /// Run one sample through the network: read all eight lines, feed the
    /// Hadamard mix plus the dry input back into every line (saturated),
    /// advance the write heads, and blend dry with the mean read-out.
    pub fn process(&mut self, input: i64) -> (r: i64)
        requires
            old(self).wf(),
            -2_000_000 <= input <= 2_000_000,
        ensures
            final(self).wf(),
            final(self).wet_amount == old(self).wet_amount,
            forall|k: int|
                0 <= k < 8 ==> (#[trigger] final(self).delay_lines@[k]).buffer@.len() == old(self).delay_lines@[k].buffer@.len(),
            forall|k: int|
                0 <= k < 8 ==> (#[trigger] final(self).delay_lines@[k]).write_pos as int == (old(self).delay_lines@[k].write_pos as int + 1) % old(self).delay_lines@[k].buffer@.len() as int,
            r == spec_mul_fx(input as int, SCALE as int - old(self).wet_amount as int)
                + spec_mul_fx(
                crate::audio::fixed::div_trunc(spec_reads_sum(old(self).delay_lines@, 8), 8),
                old(self).wet_amount as int,
            ),
            -6_000_000 <= r <= 6_000_000,
    {
        let ghost lines0 = self.delay_lines@;
        let mut outputs: [i64; 8] = [0i64; 8];
        let mut i: usize = 0;
        while i < 8
            invariant
                self.wf(),
                lines0 == self.delay_lines@,
                i <= 8,
                forall|k: int| 0 <= k < i ==> outputs[k] == spec_read(lines0, k),
                forall|k: int| 0 <= k < 8 ==> -LINE_LIMIT <= #[trigger] outputs[k] <= LINE_LIMIT,
            decreases 8 - i,
        {
            let line = &self.delay_lines[i];
            outputs[i] = line.buffer[line.write_pos];
            i += 1;
        }
        let mut i: usize = 0;
        while i < 8
            invariant
                self.wf(),
                -2_000_000 <= input <= 2_000_000,
                self.wet_amount == old(self).wet_amount,
                forall|k: int| 0 <= k < 8 ==> -LINE_LIMIT <= #[trigger] outputs[k] <= LINE_LIMIT,
                i <= 8,
                forall|k: int|
                    0 <= k < 8 ==> (#[trigger] self.delay_lines@[k]).buffer@.len() == lines0[k].buffer@.len(),
                forall|k: int|
                    i <= k < 8 ==> #[trigger] self.delay_lines@[k] == lines0[k],
                forall|k: int|
                    0 <= k < i ==> (#[trigger] self.delay_lines@[k]).write_pos as int == (lines0[k].write_pos as int + 1) % lines0[k].buffer@.len() as int,
            decreases 8 - i,
        {
            let mut feedback: i64 = 0;
            let mut j: usize = 0;
            while j < 8
                invariant
                    forall|k: int| 0 <= k < 8 ==> -LINE_LIMIT <= #[trigger] outputs[k] <= LINE_LIMIT,
                    i < 8,
                    j <= 8,
                    -(j as int) * 1_400_000 <= feedback <= (j as int) * 1_400_000,
                decreases 8 - j,
            {
                let h = had_entry(i, j);
                proof {
                    lemma_mul_fx_bound(outputs[j as int] as int, h as int, LINE_LIMIT as int, 500_000);
                    lemma_mul_fx_bound(
                        spec_mul_fx(outputs[j as int] as int, h as int),
                        700_000,
                        2_000_000,
                        700_000,
                    );
                }
                feedback = feedback + mul_fx(mul_fx(outputs[j], h), 700_000);
                j += 1;
            }
            let write_value = clamp_fx(input + feedback, -LINE_LIMIT, LINE_LIMIT);
            let wp = self.delay_lines[i].write_pos;
            let len = self.delay_lines[i].buffer.len();
            let line = &mut self.delay_lines[i];
            line.buffer.set(wp, write_value);
            line.write_pos = (wp + 1) % len;
            i += 1;
        }
        let mut reads: i64 = 0;
        let mut k: usize = 0;
        while k < 8
            invariant
                forall|m: int| 0 <= m < 8 ==> -LINE_LIMIT <= #[trigger] outputs[m] <= LINE_LIMIT,
                forall|m: int| 0 <= m < 8 ==> outputs[m] == spec_read(lines0, m),
                k <= 8,
                reads == spec_reads_sum(lines0, k as int),
                -(k as int) * LINE_LIMIT <= reads <= (k as int) * LINE_LIMIT,
            decreases 8 - k,
        {
            reads = reads + outputs[k];
            k += 1;
        }
        let mean = reads / 8;
        proof {
            crate::audio::fixed::lemma_div_trunc_bound(reads as int, 8, 32_000_000);
            lemma_mul_fx_bound(input as int, SCALE as int - self.wet_amount as int, 2_000_000, SCALE as int);
            lemma_mul_fx_bound(mean as int, self.wet_amount as int, LINE_LIMIT as int, SCALE as int);
        }
        mul_fx(input, SCALE - self.wet_amount) + mul_fx(mean, self.wet_amount)
    }
}

} // verus!
