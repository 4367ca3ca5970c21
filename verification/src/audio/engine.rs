//! The synthesis orchestrator: composes drone, samples, reverb, saturation
//! and limiting into one stereo-sample generator, driven by a feature
//! vector and a self-sustaining evolution clock.

use vstd::prelude::*;

use crate::audio::cell_matrix::CellMatrix;
use crate::audio::drone::CathedralDroneLayer;
use crate::audio::fixed::{
    clamp_fx, exp2_half, mul_fx, mul_fx_wide, sin_unit, semi_ratio, spec_clamp, spec_exp2_half, spec_mul_fx,
    spec_semi_ratio, spec_sin_unit, div_trunc, lemma_div_range, lemma_div_trunc_bound,
    lemma_mul_fx_bound, SCALE,
};
use crate::audio::fixed::{spec_soft_limit, spec_tanh_fx};
use crate::audio::limiter::{AdaptiveLimiter, spec_two_stage};
use crate::audio::reverb::spec_reads_sum;
use crate::audio::neural::SimpleNeuralModulator;
use crate::audio::reverb::CryptReverb;
use crate::audio::samples::MedievalSampleBank;
use crate::audio::saturation::TapeSaturation;

verus! {

/// The eight normalized features summarising the simulation state, each in
/// `[0, 1]` micro-units.
#[derive(Copy, Clone)]
pub struct FeatureVector {
    /// Normalized live-cell population.
    pub population: i64,
    /// Normalized cell density.
    pub density: i64,
    /// Normalized activity (births and deaths).
    pub activity: i64,
    /// Normalized number of clusters.
    pub cluster_count: i64,
    /// Normalized average cluster size.
    pub avg_cluster_size: i64,
    /// Normalized symmetry score.
    pub symmetry: i64,
    /// Normalized chaos score.
    pub chaos: i64,
    /// Generation counter, wrapped at 1000 and normalized.
    pub generation: i64,
}

impl FeatureVector {
    /// Every component is a normalized score.
    pub open spec fn wf(&self) -> bool {
        &&& 0 <= self.population <= SCALE
        &&& 0 <= self.density <= SCALE
        &&& 0 <= self.activity <= SCALE
        &&& 0 <= self.cluster_count <= SCALE
        &&& 0 <= self.avg_cluster_size <= SCALE
        &&& 0 <= self.symmetry <= SCALE
        &&& 0 <= self.chaos <= SCALE
        &&& 0 <= self.generation <= SCALE
    }

    /// The all-zero feature vector.
    pub fn new() -> (r: Self)
        ensures
            r.wf(),
            r == (FeatureVector {
                population: 0,
                density: 0,
                activity: 0,
                cluster_count: 0,
                avg_cluster_size: 0,
                symmetry: 0,
                chaos: 0,
                generation: 0,
            }),
    {
        FeatureVector {
            population: 0,
            density: 0,
            activity: 0,
            cluster_count: 0,
            avg_cluster_size: 0,
            symmetry: 0,
            chaos: 0,
            generation: 0,
        }
    }

    /// The same vector with every component saturated into `[0, 1]`.
    pub fn clamped(&self) -> (r: Self)
        ensures
            r.wf(),
            r.population == spec_clamp(self.population as int, 0, SCALE as int),
            r.density == spec_clamp(self.density as int, 0, SCALE as int),
            r.activity == spec_clamp(self.activity as int, 0, SCALE as int),
            r.cluster_count == spec_clamp(self.cluster_count as int, 0, SCALE as int),
            r.avg_cluster_size == spec_clamp(self.avg_cluster_size as int, 0, SCALE as int),
            r.symmetry == spec_clamp(self.symmetry as int, 0, SCALE as int),
            r.chaos == spec_clamp(self.chaos as int, 0, SCALE as int),
            r.generation == spec_clamp(self.generation as int, 0, SCALE as int),
    {
        FeatureVector {
            population: clamp_fx(self.population, 0, SCALE),
            density: clamp_fx(self.density, 0, SCALE),
            activity: clamp_fx(self.activity, 0, SCALE),
            cluster_count: clamp_fx(self.cluster_count, 0, SCALE),
            avg_cluster_size: clamp_fx(self.avg_cluster_size, 0, SCALE),
            symmetry: clamp_fx(self.symmetry, 0, SCALE),
            chaos: clamp_fx(self.chaos, 0, SCALE),
            generation: clamp_fx(self.generation, 0, SCALE),
        }
    }

    /// The features as the ordered array fed to the parameter mapper.
    pub fn as_array(&self) -> (r: [i64; 8])
        ensures
            r[0] == self.population,
            r[1] == self.density,
            r[2] == self.activity,
            r[3] == self.cluster_count,
            r[4] == self.avg_cluster_size,
            r[5] == self.symmetry,
            r[6] == self.chaos,
            r[7] == self.generation,
    {
        [
            self.population,
            self.density,
            self.activity,
            self.cluster_count,
            self.avg_cluster_size,
            self.symmetry,
            self.chaos,
            self.generation,
        ]
    }
}

/// Semitone offsets of the major scale.
pub open spec fn spec_major_step(k: int) -> int {
    if k <= 0 {
        0
    } else if k == 1 {
        2
    } else if k == 2 {
        4
    } else if k == 3 {
        5
    } else if k == 4 {
        7
    } else if k == 5 {
        9
    } else {
        11
    }
}

/// Semitone offset of degree `i` of the mode rotated by `mode`: the major
/// steps rotated and re-anchored at the root, rising through the octave.
pub open spec fn spec_mode_step(mode: int, i: int) -> int {
    if mode + i < 7 {
        spec_major_step(mode + i) - spec_major_step(mode)
    } else {
        spec_major_step(mode + i - 7) - spec_major_step(mode) + 12
    }
}

/// Note `i` of the diatonic scale on `root_hz` in mode `mode`: the root
/// scaled by the equal-tempered ratio of the mode's semitone offset.
pub open spec fn spec_scale_note(root_hz: int, mode: int, i: int) -> int {
    div_trunc(root_hz * spec_semi_ratio(spec_mode_step(mode, i)), SCALE as int)
}

fn major_step(k: usize) -> (r: i64)
    requires
        k < 7,
    ensures
        r == spec_major_step(k as int),
        0 <= r <= 11,
{
    if k == 0 {
        0
    } else if k == 1 {
        2
    } else if k == 2 {
        4
    } else if k == 3 {
        5
    } else if k == 4 {
        7
    } else if k == 5 {
        9
    } else {
        11
    }
}

/// Root frequency derived from the symmetry feature: `55 * 2^(symmetry - 1/2)`
/// in micro-hertz, between roughly 38.9 and 77.8 Hz.
pub open spec fn spec_root_hz(symmetry: int) -> int {
    55 * spec_exp2_half(symmetry - 500_000)
}

/// Mode index derived from symmetry and chaos: `(symmetry + chaos) * 4`,
/// taken modulo 4.
pub open spec fn spec_mode_choice(symmetry: int, chaos: int) -> int {
    ((symmetry + chaos) * 4 / (SCALE as int)) % 4
}

/// Sum of the first `n` pattern-memory slots.
pub open spec fn spec_memory_sum(mem: [i64; 16], n: int) -> int
    decreases n,
{
    if n <= 0 {
        0
    } else {
        spec_memory_sum(mem, n - 1) + mem[n - 1]
    }
}

/// One full cycle of the evolution clock's phases, in nano-units: the
/// per-sample increments stay nonzero at every supported sample rate.
pub const PHASE_SCALE: i64 = 1_000_000_000;

/// A nano-unit phase reduced to the micro-unit wave domain.
pub open spec fn spec_phase_micro(p: int) -> int {
    p / 1000
}

/// Pattern complexity of a feature vector at an evolution phase (in
/// nano-units): a weighted blend of activity, chaos, symmetry and cluster
/// count with a small phase-locked ripple, saturated into `[0, 1]`.
pub open spec fn spec_pattern_complexity(f: FeatureVector, phase: int) -> int {
    let base = spec_mul_fx(f.activity as int, 300_000) + spec_mul_fx(f.chaos as int, 400_000)
        + spec_mul_fx(f.symmetry as int, 200_000) + spec_mul_fx(f.cluster_count as int, 100_000);
    let ripple = spec_mul_fx(
        spec_sin_unit((2 * spec_phase_micro(phase)) % (SCALE as int)),
        50_000,
    );
    spec_clamp(base + ripple, 0, SCALE as int)
}

/// Hybrid synthesis engine: the orchestrator over all layers.
pub struct HybridDungeonSynthEngine {
    /// The additive drone foundation.
    pub cathedral_drone: CathedralDroneLayer,
    /// The lute/bell voice bank.
    pub medieval_samples: MedievalSampleBank,
    /// The fixed-weight parameter mapper.
    pub neural_modulator: SimpleNeuralModulator,
    /// The feedback-delay-network reverb.
    pub crypt_reverb: CryptReverb,
    /// The tape-style saturator.
    pub tape_saturation: TapeSaturation,
    /// The adaptive output limiter.
    pub master_limiter: AdaptiveLimiter,
    /// Samples per second, fixed at construction.
    pub sample_rate: i64,
    /// The last feature vector pushed by the simulation.
    pub current_features: FeatureVector,
    /// Samples generated so far; parameters recompute every 64.
    pub update_counter: u64,
    /// The spatial aggregate of the live cells.
    pub cell_matrix: CellMatrix,
    /// Ring buffer of recent pattern-complexity scores.
    pub pattern_memory: [i64; 16],
    /// Slow evolution phase, one cycle per ~30 s, in nano-units so the
    /// per-sample increment stays nonzero at audio rates.
    pub evolution_phase: i64,
    /// Fast micro-variation phase, one cycle per ~2 s, in nano-units.
    pub micro_variation_timer: i64,
    /// Per-oscillator slow harmonic drift, within `[0.3, 2]`.
    pub harmonic_drift: [i64; 4],
    /// Gradual shift between the four ambient scales, within `[0, 4)`.
    pub scale_evolution: i64,
    /// Moving average of the pattern memory.
    pub temporal_complexity: i64,
    /// Synthesis/sample mix: one unit means all synthesis.
    pub synthesis_mix: i64,
    /// Master volume for the playback layer, up to two units of overdrive.
    pub master_volume: i64,
    /// The current 7-note diatonic scale in micro-hertz.
    pub scale_notes: [i64; 7],
    /// Generation of the last milestone bell.
    pub last_milestone_generation: u64,
}

impl HybridDungeonSynthEngine {
    /// Every component and parameter inside its documented range.
    pub open spec fn wf(&self) -> bool {
        &&& self.cathedral_drone.wf()
        &&& self.medieval_samples.wf()
        &&& self.crypt_reverb.wf()
        &&& self.tape_saturation.wf()
        &&& self.master_limiter.wf()
        &&& 1_000 <= self.sample_rate <= 200_000
        &&& self.current_features.wf()
        &&& self.cell_matrix.wf()
        &&& forall|k: int| 0 <= k < 16 ==> 0 <= #[trigger] self.pattern_memory[k] <= SCALE
        &&& 0 <= self.evolution_phase < PHASE_SCALE
        &&& 0 <= self.micro_variation_timer < PHASE_SCALE
        &&& forall|k: int| 0 <= k < 4 ==> 300_000 <= #[trigger] self.harmonic_drift[k] <= 2_000_000
        &&& 0 <= self.scale_evolution < 4_000_000
        &&& 0 <= self.temporal_complexity <= SCALE
        &&& 0 <= self.synthesis_mix <= SCALE
        &&& 0 <= self.master_volume <= 2_000_000
        &&& forall|k: int| 0 <= k < 7 ==> SCALE <= #[trigger] self.scale_notes[k] <= 20_000_000_000
    }

    /// An engine at `sample_rate` with its micro-variation generator seeded
    /// by `seed`, tuned to A minor with all phases at zero.
    pub fn new(sample_rate: i64, seed: u64) -> (r: Self)
        requires
            1_000 <= sample_rate <= 200_000,
        ensures
            r.wf(),
            r.sample_rate == sample_rate,
            r.update_counter == 0,
            r.scale_notes[0] == 220_000_000,
            r.synthesis_mix == 700_000,
            r.last_milestone_generation == 0,
            r.medieval_samples.spec_voices().len() == 0,
    {
        HybridDungeonSynthEngine {
            cathedral_drone: CathedralDroneLayer::new(sample_rate),
            medieval_samples: MedievalSampleBank::new(sample_rate, seed),
            neural_modulator: SimpleNeuralModulator::new(),
            crypt_reverb: CryptReverb::new(sample_rate),
            tape_saturation: TapeSaturation::new(),
            master_limiter: AdaptiveLimiter::new(),
            sample_rate,
            current_features: FeatureVector::new(),
            update_counter: 0,
            cell_matrix: CellMatrix::new(),
            pattern_memory: [0i64; 16],
            evolution_phase: 0,
            micro_variation_timer: 0,
            harmonic_drift: [1_000_000i64; 4],
            scale_evolution: 0,
            temporal_complexity: 0,
            synthesis_mix: 700_000,
            master_volume: 700_000,
            scale_notes: [
                220_000_000,
                246_940_000,
                261_630_000,
                293_660_000,
                329_630_000,
                369_990_000,
                415_300_000,
            ],
            last_milestone_generation: 0,
        }
    }

    /// Replace the last-known feature vector wholesale, saturating each
    /// component into `[0, 1]`.
    pub fn update_features(&mut self, features: FeatureVector)
        requires
            old(self).wf(),
        ensures
            final(self).wf(),
            final(self).current_features == features.clamped_spec(),
            *final(self) == (HybridDungeonSynthEngine {
                current_features: final(self).current_features,
                ..*old(self)
            }),
    {
        self.current_features = features.clamped();
    }

    /// Feed a live-cell snapshot into the spatial aggregator.
    pub fn update_cell_data(
        &mut self,
        cells: &Vec<(i32, i32)>,
        camera_x: i64,
        camera_y: i64,
        viewport_size: i64,
    )
        requires
            old(self).wf(),
            cells@.len() <= 100_000_000,
            -1_000_000_000_000 <= camera_x <= 1_000_000_000_000,
            -1_000_000_000_000 <= camera_y <= 1_000_000_000_000,
            4_000_000 <= viewport_size <= 1_000_000_000_000,
        ensures
            final(self).wf(),
            final(self).cell_matrix.total_cells == cells@.len(),
            forall|k: int|
                0 <= k < 16 ==> #[trigger] final(self).cell_matrix.sampled_counts[k]
                    <= crate::audio::cell_matrix::MAX_CELLS_PER_REGION,
            *final(self) == (HybridDungeonSynthEngine {
                cell_matrix: final(self).cell_matrix,
                ..*old(self)
            }),
    {
        self.cell_matrix.update_from_cells(cells, camera_x, camera_y, viewport_size);
    }

    /// Set the master volume, saturated into `[0, 2]`: values above one are
    /// the intentional overdrive region.
    pub fn set_master_volume(&mut self, volume: i64)
        requires
            old(self).wf(),
        ensures
            final(self).wf(),
            final(self).master_volume == spec_clamp(volume as int, 0, 2_000_000),
            *final(self) == (HybridDungeonSynthEngine {
                master_volume: final(self).master_volume,
                ..*old(self)
            }),
    {
        self.master_volume = clamp_fx(volume, 0, 2_000_000);
    }

    /// The current master volume.
    pub fn get_master_volume(&self) -> (r: i64)
        ensures
            r == self.master_volume,
    {
        self.master_volume
    }

    /// Set the synthesis/sample mix, saturated into `[0, 1]`.
    pub fn set_synthesis_mix(&mut self, mix: i64)
        requires
            old(self).wf(),
        ensures
            final(self).wf(),
            final(self).synthesis_mix == spec_clamp(mix as int, 0, SCALE as int),
            *final(self) == (HybridDungeonSynthEngine {
                synthesis_mix: final(self).synthesis_mix,
                ..*old(self)
            }),
    {
        self.synthesis_mix = clamp_fx(mix, 0, SCALE);
    }

    /// The current scale's root frequency in micro-hertz, for an external
    /// rhythm generator to lock onto.
    pub fn get_scale_root(&self) -> (r: i64)
        ensures
            r == self.scale_notes[0],
    {
        self.scale_notes[0]
    }

    /// Build the 7-note diatonic scale on `root_hz` rotated to `mode`.
    ///
    /// Deterministic: the result is a function of the arguments alone, so
    /// identical inputs always give identical scales; degree zero is exactly
    /// the root.
    pub fn build_scale(root_hz: i64, mode: usize) -> (r: [i64; 7])
        requires
            0 < root_hz <= 1_000_000_000_000,
            mode < 7,
        ensures
            forall|i: int|
                0 <= i < 7 ==> r[i] == spec_scale_note(root_hz as int, mode as int, i),
            r[0] == root_hz,
            forall|i: int| 0 <= i < 7 ==> root_hz <= #[trigger] r[i] <= 2 * root_hz,
    {
        let mut notes: [i64; 7] = [0i64; 7];
        let mut i: usize = 0;
        while i < 7
            invariant
                0 < root_hz <= 1_000_000_000_000,
                mode < 7,
                i <= 7,
                forall|k: int|
                    0 <= k < i ==> notes[k] == spec_scale_note(root_hz as int, mode as int, k),
                forall|k: int| 0 <= k < i ==> root_hz <= #[trigger] notes[k] <= 2 * root_hz,
            decreases 7 - i,
        {
            let step = if mode + i < 7 {
                major_step(mode + i) - major_step(mode)
            } else {
                major_step(mode + i - 7) - major_step(mode) + 12
            };
            let ratio = semi_ratio(step);
            proof {
                assert((root_hz as int) * (ratio as int) <= (root_hz as int) * 2_000_000
                    && (root_hz as int) * 1_000_000 <= (root_hz as int) * (ratio as int)
                    && 0 < (root_hz as int) * 1_000_000) by (nonlinear_arith)
                    requires
                        0 < root_hz,
                        1_000_000 <= ratio <= 2_000_000,
                ;
                assert((root_hz as int) * 2_000_000 <= 2_000_000_000_000_000_000int)
                    by (nonlinear_arith)
                    requires
                        root_hz <= 1_000_000_000_000,
                ;
                lemma_div_range(
                    (root_hz as int) * (ratio as int),
                    SCALE as int,
                    (root_hz as int) * 1_000_000,
                    (root_hz as int) * 2_000_000,
                    SCALE as int,
                    SCALE as int,
                );
                vstd::arithmetic::div_mod::lemma_div_by_multiple(root_hz as int, SCALE as int);
                vstd::arithmetic::div_mod::lemma_div_by_multiple(2 * root_hz as int, SCALE as int);
                assert((root_hz as int) * 1_000_000 == (root_hz as int) * (SCALE as int));
                assert((root_hz as int) * 2_000_000 == (2 * root_hz as int) * (SCALE as int))
                    by (nonlinear_arith);
            }
            let note = (root_hz * ratio) / SCALE;
            notes[i] = note;
            i += 1;
        }
        notes
    }
}

impl HybridDungeonSynthEngine {
    /// Current pattern-complexity score.
    fn calculate_pattern_complexity(&self) -> (r: i64)
        requires
            self.wf(),
        ensures
            r == spec_pattern_complexity(self.current_features, self.evolution_phase as int),
            0 <= r <= SCALE,
    {
        let f = &self.current_features;
        let phase_u = self.evolution_phase / 1000;
        proof {
            lemma_mul_fx_bound(f.activity as int, 300_000, SCALE as int, 300_000);
            lemma_mul_fx_bound(f.chaos as int, 400_000, SCALE as int, 400_000);
            lemma_mul_fx_bound(f.symmetry as int, 200_000, SCALE as int, 200_000);
            lemma_mul_fx_bound(f.cluster_count as int, 100_000, SCALE as int, 100_000);
            lemma_div_range(self.evolution_phase as int, 1000, 0, 999_999_999, 1000, 1000);
            assert(phase_u == spec_phase_micro(self.evolution_phase as int));
            vstd::arithmetic::div_mod::lemma_mod_pos_bound(2 * phase_u as int, SCALE as int);
            crate::audio::fixed::lemma_sin_unit_bounded(
                (2 * phase_u as int) % (SCALE as int),
            );
            lemma_mul_fx_bound(
                spec_sin_unit((2 * phase_u as int) % (SCALE as int)),
                50_000,
                SCALE as int,
                50_000,
            );
        }
        let base = mul_fx(f.activity, 300_000) + mul_fx(f.chaos, 400_000) + mul_fx(
            f.symmetry,
            200_000,
        ) + mul_fx(f.cluster_count, 100_000);
        let ripple = mul_fx(sin_unit((2 * phase_u) % SCALE), 50_000);
        clamp_fx(base + ripple, 0, SCALE)
    }

    /// Advance the evolution clock by one sample: move both phases, push the
    /// current pattern complexity into the 16-slot memory, refresh the
    /// moving average, drift the harmonics and the scale evolution, and
    /// apply the resulting continuous variations.
    fn update_evolution_state(&mut self)
        requires
            old(self).wf(),
        ensures
            final(self).wf(),
            final(self).sample_rate == old(self).sample_rate,
            final(self).current_features == old(self).current_features,
            final(self).update_counter == old(self).update_counter,
            final(self).scale_notes == old(self).scale_notes,
            final(self).last_milestone_generation == old(self).last_milestone_generation,
            final(self).evolution_phase == (old(self).evolution_phase + evolution_increment(
                old(self).sample_rate as int,
            )) % (PHASE_SCALE as int),
            final(self).micro_variation_timer == (old(self).micro_variation_timer
                + micro_increment(old(self).sample_rate as int)) % (PHASE_SCALE as int),
            final(self).pattern_memory[0] == spec_pattern_complexity(
                old(self).current_features,
                final(self).evolution_phase as int,
            ),
            forall|k: int|
                1 <= k < 16 ==> #[trigger] final(self).pattern_memory[k] == old(
                    self,
                ).pattern_memory[k - 1],
            final(self).temporal_complexity == spec_memory_sum(final(self).pattern_memory, 16)
                / 16,
            forall|d: int|
                0 <= d < 4 ==> final(self).harmonic_drift[d] == spec_clamp(
                    old(self).harmonic_drift[d] + spec_drift_delta(
                        old(self).sample_rate as int,
                        final(self).evolution_phase as int,
                        d,
                    ),
                    300_000,
                    2_000_000,
                ),
            final(self).scale_evolution == (old(self).scale_evolution + spec_scale_advance(
                old(self).sample_rate as int,
                final(self).temporal_complexity as int,
            )) % 4_000_000,
            final(self).crypt_reverb.delay_lines == old(self).crypt_reverb.delay_lines,
    {
        let rate = self.sample_rate;
        proof {
            lemma_div_range(
                PHASE_SCALE as int,
                30 * rate as int,
                166,
                PHASE_SCALE as int,
                30_000,
                6_000_000,
            );
            lemma_div_range(
                PHASE_SCALE as int,
                2 * rate as int,
                2_500,
                PHASE_SCALE as int,
                2_000,
                400_000,
            );
        }
        self.evolution_phase = (self.evolution_phase + PHASE_SCALE / (30 * rate)) % PHASE_SCALE;
        self.micro_variation_timer = (self.micro_variation_timer + PHASE_SCALE / (2 * rate))
            % PHASE_SCALE;
        let current_complexity = self.calculate_pattern_complexity();
        let ghost mid = *self;
        let mut k: usize = 15;
        while k >= 1
            invariant
                self.wf(),
                mid.wf(),
                k <= 15,
                forall|m: int|
                    (k as int) < m < 16 ==> #[trigger] self.pattern_memory[m]
                        == mid.pattern_memory[m - 1],
                forall|m: int|
                    0 <= m <= k ==> #[trigger] self.pattern_memory[m] == mid.pattern_memory[m],
                *self == (HybridDungeonSynthEngine { pattern_memory: self.pattern_memory, ..mid }),
            decreases k,
        {
            self.pattern_memory[k] = self.pattern_memory[k - 1];
            k -= 1;
        }
        self.pattern_memory[0] = current_complexity;
        let ghost mid2 = *self;
        let mut total: i64 = 0;
        let mut m: usize = 0;
        while m < 16
            invariant
                self.wf(),
                m <= 16,
                total == spec_memory_sum(self.pattern_memory, m as int),
                0 <= total <= (m as int) * SCALE,
                *self == mid2,
            decreases 16 - m,
        {
            total = total + self.pattern_memory[m];
            m += 1;
        }
        proof {
            lemma_div_range(total as int, 16, 0, 16_000_000, 16, 16);
        }
        self.temporal_complexity = total / 16;
        let ghost mid3 = *self;
        let mut d: usize = 0;
        while d < 4
            invariant
                self.wf(),
                mid3.wf(),
                d <= 4,
                *self == (HybridDungeonSynthEngine { harmonic_drift: self.harmonic_drift, ..mid3 }),
                1_000 <= self.sample_rate <= 200_000,
                forall|m: int|
                    0 <= m < d ==> #[trigger] self.harmonic_drift[m] == spec_clamp(
                        mid3.harmonic_drift[m] + spec_drift_delta(
                            mid3.sample_rate as int,
                            mid3.evolution_phase as int,
                            m,
                        ),
                        300_000,
                        2_000_000,
                    ),
                forall|m: int|
                    d <= m < 4 ==> #[trigger] self.harmonic_drift[m] == mid3.harmonic_drift[m],
            decreases 4 - d,
        {
            let rate2 = self.sample_rate;
            proof {
                assert(10_000 <= (rate2 as int) * (10 + 5 * (d as int)) <= 5_000_000)
                    by (nonlinear_arith)
                    requires
                        1_000 <= rate2 <= 200_000,
                        d < 4,
                ;
                lemma_div_range(
                    SCALE as int,
                    (rate2 as int) * (10 + 5 * (d as int)),
                    SCALE as int,
                    SCALE as int,
                    10_000,
                    5_000_000,
                );
            }
            let drift_speed = SCALE / (rate2 * (10 + 5 * (d as i64)));
            let phase_u = self.evolution_phase / 1000;
            proof {
                lemma_div_range(self.evolution_phase as int, 1000, 0, 999_999_999, 1000, 1000);
                assert(0 <= (phase_u as int) * ((d as int) + 1) <= 4_000_000)
                    by (nonlinear_arith)
                    requires
                        0 <= phase_u < 1_000_000,
                        d < 4,
                ;
                vstd::arithmetic::div_mod::lemma_mod_pos_bound(
                    (phase_u as int) * ((d as int) + 1),
                    SCALE as int,
                );
            }
            let drift_phase = (phase_u * ((d as i64) + 1)) % SCALE;
            let wave = sin_unit(drift_phase);
            proof {
                lemma_mul_fx_bound(wave as int, 100_000, SCALE as int, 100_000);
                lemma_mul_fx_bound(
                    drift_speed as int,
                    spec_mul_fx(wave as int, 100_000),
                    100,
                    100_000,
                );
            }
            let drift_amount = mul_fx(wave, 100_000);
            let delta = mul_fx(drift_speed, drift_amount);
            let new_drift = clamp_fx(self.harmonic_drift[d] + delta, 300_000, 2_000_000);
            self.harmonic_drift[d] = new_drift;
            d += 1;
        }
        let rate3 = self.sample_rate;
        proof {
            lemma_div_range(SCALE as int, 20 * rate3 as int, 0, SCALE as int, 20_000, 4_000_000);
            lemma_mul_fx_bound(self.temporal_complexity as int, 500_000, SCALE as int, 500_000);
            lemma_mul_fx_bound(
                SCALE as int / (20 * rate3 as int),
                SCALE as int + spec_mul_fx(self.temporal_complexity as int, 500_000),
                50,
                1_500_000,
            );
            vstd::arithmetic::div_mod::lemma_mod_pos_bound(
                self.scale_evolution as int + spec_clamp(
                    spec_mul_fx(
                        SCALE as int / (20 * rate3 as int),
                        SCALE as int + spec_mul_fx(self.temporal_complexity as int, 500_000),
                    ),
                    0,
                    SCALE as int,
                ),
                4_000_000,
            );
        }
        let scale_speed = SCALE / (20 * rate3);
        let temporal_influence = mul_fx(self.temporal_complexity, 500_000);
        let advance = mul_fx(scale_speed, SCALE + temporal_influence);
        proof {
            assert(spec_clamp(advance as int, 0, SCALE as int) == spec_scale_advance(
                rate3 as int,
                self.temporal_complexity as int,
            ));
        }
        self.scale_evolution = (self.scale_evolution + clamp_fx(advance, 0, SCALE)) % 4_000_000;
        self.apply_evolutionary_changes();
    }

    /// Apply the continuous evolutionary variations: drift the oscillator
    /// pitches and harmonic weights, breathe the reverb wetness, trigger
    /// ambient notes during calm stretches, and re-balance the mix.
    fn apply_evolutionary_changes(&mut self)
        requires
            old(self).wf(),
        ensures
            final(self).wf(),
            final(self).sample_rate == old(self).sample_rate,
            final(self).current_features == old(self).current_features,
            final(self).update_counter == old(self).update_counter,
            final(self).scale_notes == old(self).scale_notes,
            final(self).last_milestone_generation == old(self).last_milestone_generation,
            final(self).evolution_phase == old(self).evolution_phase,
            final(self).micro_variation_timer == old(self).micro_variation_timer,
            final(self).pattern_memory == old(self).pattern_memory,
            final(self).temporal_complexity == old(self).temporal_complexity,
            final(self).harmonic_drift == old(self).harmonic_drift,
            final(self).scale_evolution == old(self).scale_evolution,
            final(self).crypt_reverb.delay_lines == old(self).crypt_reverb.delay_lines,
            forall|i: int|
                0 <= i < 4 ==> (#[trigger] final(self).cathedral_drone.oscillators[i]).frequency
                    == spec_evo_freq(
                    old(self).evolution_phase as int,
                    old(self).micro_variation_timer as int,
                    old(self).harmonic_drift[i] as int,
                    i,
                ),
            forall|i: int, h: int|
                0 <= i < 4 && 0 <= h < 8
                    ==> (#[trigger] final(self).cathedral_drone.oscillators[i].harmonic_weights[h])
                    == spec_evo_weight(
                    old(self).cathedral_drone.oscillators[i].harmonic_weights[h] as int,
                    old(self).evolution_phase as int,
                    h,
                ),
            final(self).crypt_reverb.wet_amount == spec_clamp(
                old(self).crypt_reverb.wet_amount + spec_mul_fx(
                    spec_sin_unit(
                        (spec_phase_micro(old(self).evolution_phase as int) + 250_000) % (
                        SCALE as int),
                    ),
                    50_000,
                ),
                100_000,
                800_000,
            ),
            final(self).synthesis_mix == spec_clamp(
                300_000 + spec_mul_fx(old(self).temporal_complexity as int, 400_000) + spec_mul_fx(
                    spec_sin_unit(spec_phase_micro(old(self).evolution_phase as int)),
                    150_000,
                ),
                100_000,
                900_000,
            ),
            !(old(self).temporal_complexity > 300_000 && old(self).micro_variation_timer
                < 100_000_000) ==> final(self).medieval_samples == old(self).medieval_samples,
    {
        let phase_u = self.evolution_phase / 1000;
        let micro_u = self.micro_variation_timer / 1000;
        proof {
            lemma_div_range(self.evolution_phase as int, 1000, 0, 999_999_999, 1000, 1000);
            lemma_div_range(self.micro_variation_timer as int, 1000, 0, 999_999_999, 1000, 1000);
            vstd::arithmetic::div_mod::lemma_mod_pos_bound((micro_u as int) * 8, SCALE as int);
        }
        let phase_sin = sin_unit(phase_u);
        let micro_sin = sin_unit((micro_u * 8) % SCALE);
        let mut i: usize = 0;
        while i < 4
            invariant
                self.wf(),
                i <= 4,
                phase_sin == spec_sin_unit(spec_phase_micro(old(self).evolution_phase as int)),
                micro_sin == spec_sin_unit(
                    (spec_phase_micro(old(self).micro_variation_timer as int) * 8) % (SCALE as int),
                ),
                -SCALE <= phase_sin <= SCALE,
                -SCALE <= micro_sin <= SCALE,
                *self == (HybridDungeonSynthEngine {
                    cathedral_drone: self.cathedral_drone,
                    ..*old(self)
                }),
                self.cathedral_drone == (CathedralDroneLayer {
                    oscillators: self.cathedral_drone.oscillators,
                    ..old(self).cathedral_drone
                }),
                forall|k: int|
                    i <= k < 4 ==> #[trigger] self.cathedral_drone.oscillators[k] == old(
                        self,
                    ).cathedral_drone.oscillators[k],
                forall|k: int|
                    0 <= k < i ==> (#[trigger] self.cathedral_drone.oscillators[k]).phase == old(
                        self,
                    ).cathedral_drone.oscillators[k].phase,
                forall|k: int|
                    0 <= k < i ==> (#[trigger] self.cathedral_drone.oscillators[k]).amplitude
                        == old(self).cathedral_drone.oscillators[k].amplitude,
                forall|k: int|
                    0 <= k < i ==> (#[trigger] self.cathedral_drone.oscillators[k]).frequency
                        == spec_evo_freq(
                        old(self).evolution_phase as int,
                        old(self).micro_variation_timer as int,
                        old(self).harmonic_drift[k] as int,
                        k,
                    ),
                forall|k: int, h: int|
                    0 <= k < i && 0 <= h < 8
                        ==> (#[trigger] self.cathedral_drone.oscillators[k].harmonic_weights[h])
                        == spec_evo_weight(
                        old(self).cathedral_drone.oscillators[k].harmonic_weights[h] as int,
                        old(self).evolution_phase as int,
                        h,
                    ),
            decreases 4 - i,
        {
            let base_freq: i64 = if i == 0 {
                65_410_000
            } else if i == 1 {
                82_410_000
            } else {
                98_000_000
            };
            let drift_factor = self.harmonic_drift[i];
            proof {
                lemma_mul_fx_bound(micro_sin as int, 2_000 * ((i as int) + 1), SCALE as int, 8_000);
                lemma_mul_fx_bound(phase_sin as int, 8_000, SCALE as int, 8_000);
                lemma_mul_fx_bound(base_freq as int, drift_factor as int, 98_000_000, 2_000_000);
                lemma_mul_fx_nonneg_engine(base_freq as int, drift_factor as int);
            }
            let micro_variation = SCALE + mul_fx(micro_sin, 2_000 * ((i as i64) + 1));
            let temporal_variation = SCALE + mul_fx(phase_sin, 8_000);
            let pitched = mul_fx(base_freq, drift_factor);
            proof {
                lemma_mul_fx_bound(pitched as int, micro_variation as int, 196_000_000, 1_008_000);
                lemma_mul_fx_nonneg_engine(pitched as int, micro_variation as int);
                lemma_mul_fx_bound(
                    spec_mul_fx(pitched as int, micro_variation as int),
                    temporal_variation as int,
                    197_568_000,
                    1_008_000,
                );
            }
            let drifted = mul_fx(mul_fx(pitched, micro_variation), temporal_variation);
            self.cathedral_drone.oscillators[i].frequency = clamp_fx(
                drifted,
                crate::audio::drone::MIN_FREQ,
                crate::audio::drone::MAX_FREQ,
            );
            let ghost snap_osc = *self;
            let mut h: usize = 0;
            while h < 8
                invariant
                    self.wf(),
                    snap_osc.wf(),
                    i < 4,
                    h <= 8,
                    *self == (HybridDungeonSynthEngine {
                        cathedral_drone: self.cathedral_drone,
                        ..snap_osc
                    }),
                    self.cathedral_drone == (CathedralDroneLayer {
                        oscillators: self.cathedral_drone.oscillators,
                        ..snap_osc.cathedral_drone
                    }),
                    forall|k: int|
                        0 <= k < 4 && k != i ==> #[trigger] self.cathedral_drone.oscillators[k]
                            == snap_osc.cathedral_drone.oscillators[k],
                    self.cathedral_drone.oscillators[i as int].phase
                        == snap_osc.cathedral_drone.oscillators[i as int].phase,
                    self.cathedral_drone.oscillators[i as int].amplitude
                        == snap_osc.cathedral_drone.oscillators[i as int].amplitude,
                    self.cathedral_drone.oscillators[i as int].frequency
                        == snap_osc.cathedral_drone.oscillators[i as int].frequency,
                    forall|hh: int|
                        0 <= hh < h
                            ==> (#[trigger] self.cathedral_drone.oscillators[i as int].harmonic_weights[hh])
                            == spec_evo_weight(
                            snap_osc.cathedral_drone.oscillators[i as int].harmonic_weights[hh] as int,
                            snap_osc.evolution_phase as int,
                            hh,
                        ),
                    forall|hh: int|
                        h <= hh < 8
                            ==> (#[trigger] self.cathedral_drone.oscillators[i as int].harmonic_weights[hh])
                            == snap_osc.cathedral_drone.oscillators[i as int].harmonic_weights[hh],
                decreases 8 - h,
            {
                let phase_uh = self.evolution_phase / 1000;
                proof {
                    lemma_div_range(self.evolution_phase as int, 1000, 0, 999_999_999, 1000, 1000);
                    assert(0 <= (phase_uh as int) * (7 * ((h as int) + 1))
                        <= 56_000_000) by (nonlinear_arith)
                        requires
                            0 <= phase_uh < 1_000_000,
                            h < 8,
                    ;
                    vstd::arithmetic::div_mod::lemma_mod_pos_bound(
                        (phase_uh as int) * (7 * ((h as int) + 1)) / 10,
                        SCALE as int,
                    );
                    lemma_div_range(
                        (phase_uh as int) * (7 * ((h as int) + 1)),
                        10,
                        0,
                        56_000_000,
                        10,
                        10,
                    );
                }
                let harmonic_phase = ((phase_uh * (7 * ((h as i64) + 1))) / 10) % SCALE;
                let hv = sin_unit(harmonic_phase);
                proof {
                    lemma_mul_fx_bound(hv as int, 100_000, SCALE as int, 100_000);
                    lemma_mul_fx_bound(
                        self.cathedral_drone.oscillators[i as int].harmonic_weights[h as int] as int,
                        SCALE as int + spec_mul_fx(hv as int, 100_000),
                        SCALE as int,
                        1_100_000,
                    );
                }
                let variation = SCALE + mul_fx(hv, 100_000);
                let w = mul_fx(self.cathedral_drone.oscillators[i].harmonic_weights[h], variation);
                self.cathedral_drone.oscillators[i].harmonic_weights[h] = clamp_fx(
                    w,
                    100_000,
                    SCALE,
                );
                h += 1;
            }
            i += 1;
        }
        proof {
            vstd::arithmetic::div_mod::lemma_mod_pos_bound(
                phase_u as int + 250_000,
                SCALE as int,
            );
        }
        let reverb_wave = sin_unit((phase_u + 250_000) % SCALE);
        proof {
            lemma_mul_fx_bound(reverb_wave as int, 50_000, SCALE as int, 50_000);
        }
        let wet = self.crypt_reverb.wet_amount + mul_fx(reverb_wave, 50_000);
        self.crypt_reverb.set_wet_amount(wet);
        if self.temporal_complexity > 300_000 && self.micro_variation_timer < 100_000_000 {
            self.trigger_evolutionary_samples();
        }
        proof {
            lemma_mul_fx_bound(self.temporal_complexity as int, 400_000, SCALE as int, 400_000);
            lemma_mul_fx_bound(phase_sin as int, 150_000, SCALE as int, 150_000);
        }
        let base_mix = 300_000 + mul_fx(self.temporal_complexity, 400_000);
        let evolution_mod = mul_fx(phase_sin, 150_000);
        self.synthesis_mix = clamp_fx(base_mix + evolution_mod, 100_000, 900_000);
    }

    /// Stochastically start an ambient lute, bell or two-note harmony drawn
    /// from one of four modal scales chosen by the evolving scale position.
    fn trigger_evolutionary_samples(&mut self)
        requires
            old(self).wf(),
        ensures
            final(self).wf(),
            final(self).sample_rate == old(self).sample_rate,
            final(self).current_features == old(self).current_features,
            final(self).update_counter == old(self).update_counter,
            final(self).scale_notes == old(self).scale_notes,
            final(self).last_milestone_generation == old(self).last_milestone_generation,
            final(self).evolution_phase == old(self).evolution_phase,
            final(self).micro_variation_timer == old(self).micro_variation_timer,
            final(self).pattern_memory == old(self).pattern_memory,
            final(self).temporal_complexity == old(self).temporal_complexity,
            final(self).harmonic_drift == old(self).harmonic_drift,
            final(self).scale_evolution == old(self).scale_evolution,
            final(self).crypt_reverb.delay_lines == old(self).crypt_reverb.delay_lines,
            *final(self) == (HybridDungeonSynthEngine {
                medieval_samples: final(self).medieval_samples,
                ..*old(self)
            }),
    {
        let evolved_pos = (self.scale_evolution + self.temporal_complexity) % 4_000_000;
        proof {
            lemma_div_range(evolved_pos as int, SCALE as int, 0, 3_999_999, SCALE as int, SCALE as int);
            vstd::arithmetic::div_mod::lemma_mod_pos_bound(
                self.scale_evolution as int + self.temporal_complexity as int,
                4_000_000,
            );
        }
        let scale_index = ((evolved_pos / SCALE) % 4) as usize;
        let phase_u = self.evolution_phase / 1000;
        proof {
            lemma_div_range(self.evolution_phase as int, 1000, 0, 999_999_999, 1000, 1000);
            lemma_div_range(
                (phase_u as int) * 7,
                SCALE as int,
                0,
                6_999_993,
                SCALE as int,
                SCALE as int,
            );
        }
        let note_index = (((phase_u * 7) / SCALE) % 7) as usize;
        let base_note = evo_scale_note(scale_index, note_index);
        let harmonic_modifier = self.harmonic_drift[note_index % 4];
        proof {
            lemma_mul_fx_bound(base_note as int, harmonic_modifier as int, 500_000_000, 2_000_000);
        }
        let evolved_note = clamp_fx(
            mul_fx(base_note, harmonic_modifier),
            SCALE,
            20_000_000_000,
        );
        proof {
            lemma_mul_fx_bound(self.temporal_complexity as int, 300_000, SCALE as int, 300_000);
        }
        let ambient_volume = 200_000 + mul_fx(self.temporal_complexity, 300_000);
        let micro_u = self.micro_variation_timer / 1000;
        proof {
            lemma_div_range(self.micro_variation_timer as int, 1000, 0, 999_999_999, 1000, 1000);
            lemma_div_range(
                (micro_u as int) * 100,
                SCALE as int,
                0,
                99_999_900,
                SCALE as int,
                SCALE as int,
            );
        }
        let micro_choice = ((micro_u * 100) / SCALE) % 3;
        if micro_choice == 0 {
            self.medieval_samples.trigger_lute(evolved_note, ambient_volume);
        } else if micro_choice == 1 {
            let low = clamp_fx(evolved_note / 2, SCALE, 20_000_000_000);
            self.medieval_samples.trigger_bell(low, ambient_volume);
        } else {
            proof {
                lemma_mul_fx_bound(ambient_volume as int, 700_000, 500_000, 700_000);
                lemma_mul_fx_bound(ambient_volume as int, 500_000, 500_000, 500_000);
                lemma_mul_fx_bound(evolved_note as int, 1_250_000, 20_000_000_000, 1_250_000);
            }
            self.medieval_samples.trigger_lute(evolved_note, mul_fx(ambient_volume, 700_000));
            let third = clamp_fx(mul_fx(evolved_note, 1_250_000), SCALE, 20_000_000_000);
            self.medieval_samples.trigger_lute(third, mul_fx(ambient_volume, 500_000));
        }
    }
}

/// Drone fundamental `k` derived from a freshly built scale: sub-octaves of
/// degrees 0, 0, 2 and 4 (a quarter, then halves).
pub open spec fn spec_drone_base(root: int, mode: int, k: int) -> int {
    if k == 0 {
        spec_scale_note(root, mode, 0) / 4
    } else if k == 1 {
        spec_scale_note(root, mode, 0) / 2
    } else if k == 2 {
        spec_scale_note(root, mode, 2) / 2
    } else {
        spec_scale_note(root, mode, 4) / 2
    }
}

/// The stereo pipeline's mono value before the stereo split: the drone and
/// voice-bank outputs mixed, diffused against the reverb read-out, tape
/// saturated, and passed through the adaptive two-stage limiter.
pub open spec fn spec_pipeline_out(
    drone_out: int,
    samples_out: int,
    mix: int,
    reads: int,
    wet: int,
    drive: int,
    sat_gain: int,
    master_gain: int,
    ratio: int,
) -> int {
    let mixed = spec_mul_fx(drone_out, mix) + spec_mul_fx(samples_out, SCALE as int - mix);
    let reverbed = spec_mul_fx(mixed, SCALE as int - wet) + spec_mul_fx(
        div_trunc(reads, 8),
        wet,
    );
    let saturated = spec_mul_fx(spec_tanh_fx(spec_mul_fx(reverbed, drive)), sat_gain);
    spec_two_stage(spec_mul_fx(saturated, master_gain), ratio)
}

/// Generation count recovered from the normalized generation feature (the
/// upstream wraps the counter at 1000 before normalizing).
pub open spec fn spec_gen_units(generation: int) -> int {
    generation * 1000 / (SCALE as int)
}

impl HybridDungeonSynthEngine {
    /// Recompute the slow parameters: derive the musical scale from the
    /// features, retune the drone to sub-octaves of scale degrees 0, 2 and
    /// 4, fire the milestone bell when the generation counter crosses a
    /// multiple of 100, run the threshold-gated note and bell triggers, and
    /// refresh mix, reverb and saturation.
    fn update_all_parameters(&mut self)
        requires
            old(self).wf(),
        ensures
            final(self).wf(),
            final(self).sample_rate == old(self).sample_rate,
            final(self).current_features == old(self).current_features,
            final(self).update_counter == old(self).update_counter,
            forall|i: int|
                0 <= i < 7 ==> final(self).scale_notes[i] == spec_scale_note(
                    spec_root_hz(old(self).current_features.symmetry as int),
                    spec_mode_choice(
                        old(self).current_features.symmetry as int,
                        old(self).current_features.chaos as int,
                    ),
                    i,
                ),
            final(self).last_milestone_generation == if spec_gen_units(
                old(self).current_features.generation as int,
            ) / 100 > old(self).last_milestone_generation as int / 100 {
                spec_gen_units(old(self).current_features.generation as int) as u64
            } else {
                old(self).last_milestone_generation
            },
            forall|k: int|
                0 <= k < 4 ==> final(self).cathedral_drone.spec_base_frequency(k) == spec_clamp(
                    spec_drone_base(
                        spec_root_hz(old(self).current_features.symmetry as int),
                        spec_mode_choice(
                            old(self).current_features.symmetry as int,
                            old(self).current_features.chaos as int,
                        ),
                        k,
                    ),
                    crate::audio::drone::MIN_FREQ as int,
                    crate::audio::drone::MAX_FREQ as int,
                ),
            final(self).crypt_reverb.delay_lines == old(self).crypt_reverb.delay_lines,
    {
        let features = self.current_features;
        let arr = features.as_array();
        let neural_mod = self.neural_modulator.get_modulation_values(&arr);
        proof {
            lemma_div_range(
                (features.generation as int) * 1000,
                SCALE as int,
                0,
                1_000_000_000,
                SCALE as int,
                SCALE as int,
            );
        }
        let gen_units = (features.generation * 1000) / SCALE;
        self.refresh_scale();
        self.fire_milestone(gen_units);
        self.update_drone(&neural_mod);
        self.run_note_triggers(&neural_mod, gen_units);
        self.update_mix_and_effects(&neural_mod);
    }

    /// Derive the current diatonic scale from symmetry and chaos and retune
    /// the drone's fundamentals to sub-octaves of degrees 0, 2 and 4.
    fn refresh_scale(&mut self)
        requires
            old(self).wf(),
        ensures
            final(self).wf(),
            forall|i: int|
                0 <= i < 7 ==> final(self).scale_notes[i] == spec_scale_note(
                    spec_root_hz(old(self).current_features.symmetry as int),
                    spec_mode_choice(
                        old(self).current_features.symmetry as int,
                        old(self).current_features.chaos as int,
                    ),
                    i,
                ),
            forall|i: int| 0 <= i < 7 ==> SCALE <= #[trigger] final(self).scale_notes[i] <= 160_000_000,
            forall|k: int|
                0 <= k < 4 ==> final(self).cathedral_drone.spec_base_frequency(k) == spec_clamp(
                    spec_drone_base(
                        spec_root_hz(old(self).current_features.symmetry as int),
                        spec_mode_choice(
                            old(self).current_features.symmetry as int,
                            old(self).current_features.chaos as int,
                        ),
                        k,
                    ),
                    crate::audio::drone::MIN_FREQ as int,
                    crate::audio::drone::MAX_FREQ as int,
                ),
            *final(self) == (HybridDungeonSynthEngine {
                scale_notes: final(self).scale_notes,
                cathedral_drone: final(self).cathedral_drone,
                ..*old(self)
            }),
    {
        let symmetry = self.current_features.symmetry;
        let chaos = self.current_features.chaos;
        let scale_choice = ((((symmetry + chaos) * 4) / SCALE) % 4) as usize;
        proof {
            lemma_div_range(
                (symmetry as int + chaos as int) * 4,
                SCALE as int,
                0,
                8_000_000,
                SCALE as int,
                SCALE as int,
            );
            vstd::arithmetic::div_mod::lemma_mod_pos_bound(
                (symmetry as int + chaos as int) * 4 / (SCALE as int),
                4,
            );
        }
        let root_hz = 55 * exp2_half(symmetry - 500_000);
        let notes = Self::build_scale(root_hz, scale_choice);
        self.scale_notes = notes;
        proof {
            lemma_div_range(notes[0] as int, 4, 0, 160_000_000, 4, 4);
            lemma_div_range(notes[0] as int, 2, 0, 160_000_000, 2, 2);
            lemma_div_range(notes[2 as int] as int, 2, 0, 160_000_000, 2, 2);
            lemma_div_range(notes[4 as int] as int, 2, 0, 160_000_000, 2, 2);
        }
        let drone_bases: [i64; 4] = [notes[0] / 4, notes[0] / 2, notes[2] / 2, notes[4] / 2];
        proof {
            assert(drone_bases[0] == spec_drone_base(
                spec_root_hz(symmetry as int),
                spec_mode_choice(symmetry as int, chaos as int),
                0,
            ));
            assert(drone_bases[1] == spec_drone_base(
                spec_root_hz(symmetry as int),
                spec_mode_choice(symmetry as int, chaos as int),
                1,
            ));
            assert(drone_bases[2] == spec_drone_base(
                spec_root_hz(symmetry as int),
                spec_mode_choice(symmetry as int, chaos as int),
                2,
            ));
            assert(drone_bases[3] == spec_drone_base(
                spec_root_hz(symmetry as int),
                spec_mode_choice(symmetry as int, chaos as int),
                3,
            ));
        }
        self.cathedral_drone.set_base_frequencies(drone_bases);
    }

    /// Ring the milestone bell once each time the generation counter
    /// crosses a multiple of 100.
    fn fire_milestone(&mut self, gen_units: i64)
        requires
            old(self).wf(),
            0 <= gen_units <= 1000,
        ensures
            final(self).wf(),
            final(self).last_milestone_generation == if gen_units as int / 100 > old(
                self,
            ).last_milestone_generation as int / 100 {
                gen_units as u64
            } else {
                old(self).last_milestone_generation
            },
            gen_units as int / 100 > old(self).last_milestone_generation as int / 100
                ==> crate::audio::samples::spec_bell_trigger(
                old(self).medieval_samples.spec_bells(),
                old(self).medieval_samples.spec_voices(),
                old(self).medieval_samples.spec_rng(),
                final(self).medieval_samples.spec_voices(),
                final(self).medieval_samples.spec_rng(),
                spec_clamp(old(self).scale_notes[0] as int, SCALE as int, 20_000_000_000),
                SCALE as int,
            ),
            gen_units as int / 100 <= old(self).last_milestone_generation as int / 100
                ==> final(self).medieval_samples == old(self).medieval_samples,
            *final(self) == (HybridDungeonSynthEngine {
                medieval_samples: final(self).medieval_samples,
                last_milestone_generation: final(self).last_milestone_generation,
                ..*old(self)
            }),
    {
        let gen_u64 = gen_units as u64;
        if gen_u64 / 100 > self.last_milestone_generation / 100 {
            let root_note = clamp_fx(self.scale_notes[0], SCALE, 20_000_000_000);
            self.medieval_samples.trigger_bell(root_note, SCALE);
            self.last_milestone_generation = gen_u64;
        }
    }

    /// Feed the drone layer the population, darkness, modulation scalar
    /// and regional aggregates derived from the current features.
    fn update_drone(&mut self, neural_mod: &[i64; 8])
        requires
            old(self).wf(),
            forall|k: int| 0 <= k < 8 ==> 0 <= #[trigger] neural_mod[k] <= SCALE,
        ensures
            final(self).wf(),
            forall|k: int|
                0 <= k < 4 ==> final(self).cathedral_drone.spec_base_frequency(k) == old(
                    self,
                ).cathedral_drone.spec_base_frequency(k),
            *final(self) == (HybridDungeonSynthEngine {
                cathedral_drone: final(self).cathedral_drone,
                ..*old(self)
            }),
    {
        let population = self.current_features.population;
        let symmetry = self.current_features.symmetry;
        let chaos = self.current_features.chaos;
        proof {
            lemma_mul_fx_bound(neural_mod[0 as int] as int, 500_000, SCALE as int, 500_000);
            lemma_mul_fx_bound(
                population as int,
                SCALE as int + spec_mul_fx(neural_mod[0 as int] as int, 500_000),
                SCALE as int,
                1_500_000,
            );
            lemma_mul_fx_bound(chaos as int, 300_000, SCALE as int, 300_000);
            lemma_mul_fx_bound(
                SCALE as int - symmetry as int,
                SCALE as int + spec_mul_fx(chaos as int, 300_000),
                SCALE as int,
                1_300_000,
            );
        }
        let drone_intensity = mul_fx(population, SCALE + mul_fx(neural_mod[0], 500_000));
        let drone_darkness = mul_fx(SCALE - symmetry, SCALE + mul_fx(chaos, 300_000));
        let regions = self.cell_matrix.regions;
        self.cathedral_drone.update_parameters(
            drone_intensity,
            drone_darkness,
            neural_mod[0],
            &regions,
        );
    }

    /// Run the threshold-gated note triggers: melodic lutes on activity,
    /// dissonance on chaos, bass on density, sparkles on clustering, and
    /// the four bell families.
    fn run_note_triggers(&mut self, neural_mod: &[i64; 8], gen_units: i64)
        requires
            old(self).wf(),
            forall|k: int| 0 <= k < 8 ==> 0 <= #[trigger] neural_mod[k] <= SCALE,
            0 <= gen_units <= 1000,
        ensures
            final(self).wf(),
            *final(self) == (HybridDungeonSynthEngine {
                medieval_samples: final(self).medieval_samples,
                ..*old(self)
            }),
    {
        self.run_lute_triggers(neural_mod);
        self.run_bell_triggers(neural_mod, gen_units);
    }

    /// Melodic lute triggers gated on activity, chaos, density and
    /// clustering.
    #[verifier::rlimit(100)]
    #[verifier::spinoff_prover]
    fn run_lute_triggers(&mut self, neural_mod: &[i64; 8])
        requires
            old(self).wf(),
            forall|k: int| 0 <= k < 8 ==> 0 <= #[trigger] neural_mod[k] <= SCALE,
        ensures
            final(self).wf(),
            *final(self) == (HybridDungeonSynthEngine {
                medieval_samples: final(self).medieval_samples,
                ..*old(self)
            }),
    {
        let features = self.current_features;
        let population = features.population;
        let density = features.density;
        let activity = features.activity;
        let cluster_count = features.cluster_count;
        let symmetry = features.symmetry;
        let chaos = features.chaos;
        if activity > 50_000 {
            let activity_intensity = clamp_fx(activity * 8, 0, SCALE);
            if activity > 150_000 && self.update_counter % 128 == 0 {
                let note_index = note_pick(neural_mod[1]);
                proof {
                    lemma_mul_fx_bound(
                        self.scale_notes[note_index as int] as int,
                        SCALE as int + (neural_mod[1 as int] as int) / 10,
                        20_000_000_000,
                        1_100_000,
                    );
                }
                let base_note = clamp_fx(
                    mul_fx_wide(self.scale_notes[note_index], SCALE + neural_mod[1] / 10),
                    SCALE,
                    20_000_000_000,
                );
                proof {
                    lemma_mul_fx_bound(activity_intensity as int, 600_000, SCALE as int, 600_000);
                    lemma_mul_fx_bound(activity_intensity as int, 400_000, SCALE as int, 400_000);
                    lemma_mul_fx_bound(base_note as int, 1_250_000, 20_000_000_000, 1_250_000);
                }
                self.medieval_samples.trigger_lute(
                    base_note,
                    mul_fx(activity_intensity, 600_000),
                );
                if population > 700_000 && self.update_counter % 256 == 0 {
                    let third = clamp_fx(
                        mul_fx_wide(base_note, 1_250_000),
                        SCALE,
                        20_000_000_000,
                    );
                    self.medieval_samples.trigger_lute(
                        third,
                        mul_fx(activity_intensity, 400_000),
                    );
                }
            }
            if activity > 250_000 && self.update_counter % 512 == 0 {
                let note_idx = note_pick(neural_mod[2]);
                proof {
                    lemma_mul_fx_bound(
                        self.scale_notes[note_idx as int] as int,
                        SCALE as int + (neural_mod[2 as int] as int) / 10,
                        20_000_000_000,
                        1_100_000,
                    );
                    lemma_mul_fx_bound(activity_intensity as int, 500_000, SCALE as int, 500_000);
                }
                let run_note = clamp_fx(
                    mul_fx_wide(self.scale_notes[note_idx], SCALE + neural_mod[2] / 10),
                    SCALE,
                    20_000_000_000,
                );
                self.medieval_samples.trigger_lute(run_note, mul_fx(activity_intensity, 500_000));
            }
            if chaos > 250_000 && self.update_counter % 192 == 0 {
                let base_idx = note_pick(neural_mod[6]);
                let chromatic_shift: i64 = if neural_mod[6] > 500_000 {
                    1_059_000
                } else {
                    944_000
                };
                proof {
                    lemma_mul_fx_bound(
                        self.scale_notes[base_idx as int] as int,
                        chromatic_shift as int,
                        20_000_000_000,
                        1_059_000,
                    );
                    lemma_mul_fx_bound(activity_intensity as int, 400_000, SCALE as int, 400_000);
                }
                let dissonant_note = clamp_fx(
                    mul_fx_wide(self.scale_notes[base_idx], chromatic_shift),
                    SCALE,
                    20_000_000_000,
                );
                self.medieval_samples.trigger_lute(
                    dissonant_note,
                    mul_fx(activity_intensity, 400_000),
                );
            }
            if density > 600_000 && self.update_counter % 256 == 0 {
                proof {
                    lemma_div_range(self.scale_notes[0] as int, 2, 0, 20_000_000_000, 2, 2);
                    lemma_mul_fx_bound(activity_intensity as int, 700_000, SCALE as int, 700_000);
                }
                let bass_note = clamp_fx(self.scale_notes[0] / 2, SCALE, 20_000_000_000);
                self.medieval_samples.trigger_lute(bass_note, mul_fx(activity_intensity, 700_000));
            }
            if cluster_count > 800_000 && symmetry > 300_000 {
                proof {
                    lemma_mul_fx_bound(activity_intensity as int, 600_000, SCALE as int, 600_000);
                }
                let high_note = clamp_fx(
                    mul_fx_wide(self.scale_notes[6], 2_000_000),
                    SCALE,
                    20_000_000_000,
                );
                self.medieval_samples.trigger_lute(high_note, mul_fx(activity_intensity, 600_000));
            }
        }
    }

    /// Bell triggers: the cadence bell, activity cascades, deep drones,
    /// chaos clusters and the symmetry arpeggio.
    #[verifier::rlimit(100)]
    #[verifier::spinoff_prover]
    fn run_bell_triggers(&mut self, neural_mod: &[i64; 8], gen_units: i64)
        requires
            old(self).wf(),
            forall|k: int| 0 <= k < 8 ==> 0 <= #[trigger] neural_mod[k] <= SCALE,
            0 <= gen_units <= 1000,
        ensures
            final(self).wf(),
            *final(self) == (HybridDungeonSynthEngine {
                medieval_samples: final(self).medieval_samples,
                ..*old(self)
            }),
    {
        let features = self.current_features;
        let population = features.population;
        let density = features.density;
        let activity = features.activity;
        let cluster_avg_size = features.avg_cluster_size;
        let symmetry = features.symmetry;
        let chaos = features.chaos;
        if gen_units % 60 < 1 && neural_mod[2] > 400_000 {
            let bell_index = note_pick(neural_mod[3]);
            let bell_base = bell_scale_note(bell_index);
            proof {
                lemma_mul_fx_bound(
                    bell_base as int,
                    SCALE as int + (symmetry as int) / 5,
                    250_000_000,
                    1_200_000,
                );
                lemma_mul_fx_bound(activity as int, 300_000, SCALE as int, 300_000);
            }
            let bell_note = clamp_fx(
                mul_fx(bell_base, SCALE + symmetry / 5),
                SCALE,
                20_000_000_000,
            );
            self.medieval_samples.trigger_bell(bell_note, 400_000 + mul_fx(activity, 300_000));
        }
        if activity > 200_000 && symmetry > 300_000 && self.update_counter % 128 == 0 {
            let bell_idx = four_pick(activity);
            let high_bell = high_bell_note(bell_idx);
            proof {
                lemma_mul_fx_bound(
                    high_bell as int,
                    SCALE as int + (population as int) / 5,
                    320_000_000,
                    1_200_000,
                );
                lemma_mul_fx_bound(activity as int, 500_000, SCALE as int, 500_000);
            }
            let bell_note = clamp_fx(
                mul_fx(high_bell, SCALE + population / 5),
                SCALE,
                20_000_000_000,
            );
            self.medieval_samples.trigger_bell(bell_note, mul_fx(activity, 500_000));
        }
        if density > 400_000 && cluster_avg_size > 500_000 && self.update_counter % 256 == 0 {
            let deep_idx = four_pick(density);
            let deep_bell = deep_bell_note(deep_idx);
            proof {
                lemma_mul_fx_bound(neural_mod[3 as int] as int, 300_000, SCALE as int, 300_000);
                lemma_mul_fx_bound(
                    deep_bell as int,
                    SCALE as int + spec_mul_fx(neural_mod[3 as int] as int, 300_000),
                    98_000_000,
                    1_300_000,
                );
            }
            let bell_note = clamp_fx(
                mul_fx(deep_bell, SCALE + mul_fx(neural_mod[3], 300_000)),
                SCALE,
                20_000_000_000,
            );
            self.medieval_samples.trigger_bell(bell_note, density * 8);
        }
        if chaos > 400_000 && neural_mod[4] > 600_000 && self.update_counter % 192 == 0 {
            let chaos_idx = four_pick(chaos);
            let chaos_bell = chaos_bell_note(chaos_idx);
            proof {
                lemma_mul_fx_bound(
                    chaos_bell as int,
                    990_000 + (chaos as int) / 50,
                    210_000_000,
                    1_010_000,
                );
                lemma_mul_fx_bound(chaos as int, 600_000, SCALE as int, 600_000);
            }
            let bell_note = clamp_fx(
                mul_fx(chaos_bell, 990_000 + chaos / 50),
                SCALE,
                20_000_000_000,
            );
            self.medieval_samples.trigger_bell(bell_note, mul_fx(chaos, 600_000));
        }
        if symmetry > 700_000 && gen_units % 80 < 1 {
            let ghost snap = *self;
            let mut i: usize = 0;
            while i < 3
                invariant
                    self.wf(),
                    i <= 3,
                    0 <= symmetry <= SCALE,
                    0 <= neural_mod[5 as int] <= SCALE,
                    *self == (HybridDungeonSynthEngine {
                        medieval_samples: self.medieval_samples,
                        ..snap
                    }),
                decreases 3 - i,
            {
                let arp_bell = arp_bell_note(i);
                let delay_factor = (i as i64) * 50_000;
                proof {
                    lemma_mul_fx_bound(
                        arp_bell as int,
                        SCALE as int + (neural_mod[5 as int] as int) / 10,
                        250_000_000,
                        1_100_000,
                    );
                    lemma_mul_fx_bound(
                        symmetry as int + delay_factor as int,
                        400_000,
                        1_100_000,
                        400_000,
                    );
                }
                let bell_note = clamp_fx(
                    mul_fx(arp_bell, SCALE + neural_mod[5] / 10),
                    SCALE,
                    20_000_000_000,
                );
                self.medieval_samples.trigger_bell(
                    bell_note,
                    mul_fx(symmetry + delay_factor, 400_000),
                );
                i += 1;
            }
        }
    }

    /// Refresh the synthesis/sample mix, the reverb wetness and the tape
    /// saturation from the current features, each saturated into its
    /// documented range.
    fn update_mix_and_effects(&mut self, neural_mod: &[i64; 8])
        requires
            old(self).wf(),
            forall|k: int| 0 <= k < 8 ==> 0 <= #[trigger] neural_mod[k] <= SCALE,
        ensures
            final(self).wf(),
            *final(self) == (HybridDungeonSynthEngine {
                synthesis_mix: final(self).synthesis_mix,
                crypt_reverb: final(self).crypt_reverb,
                tape_saturation: final(self).tape_saturation,
                ..*old(self)
            }),
            final(self).synthesis_mix == spec_clamp(
                300_000 + spec_mul_fx(
                    spec_clamp(5 * old(self).current_features.activity as int, 0, SCALE as int),
                    400_000,
                ) + spec_mul_fx(old(self).current_features.chaos as int, 600_000) + spec_mul_fx(
                    neural_mod[7] as int,
                    400_000,
                ),
                0,
                SCALE as int,
            ),
            final(self).crypt_reverb.wet_amount == spec_clamp(
                200_000 + spec_mul_fx(
                    SCALE as int - old(self).current_features.density as int,
                    300_000,
                ) + spec_mul_fx(old(self).current_features.activity as int, 200_000),
                100_000,
                800_000,
            ),
            final(self).crypt_reverb.delay_lines == old(self).crypt_reverb.delay_lines,
            final(self).tape_saturation.drive == spec_clamp(
                1_200_000 + spec_mul_fx(
                    old(self).current_features.population as int + 2 * old(
                        self,
                    ).current_features.activity as int,
                    800_000,
                ),
                SCALE as int,
                3_000_000,
            ),
            final(self).tape_saturation.output_gain == spec_clamp(
                600_000 + spec_mul_fx(neural_mod[4] as int, 200_000),
                400_000,
                SCALE as int,
            ),
    {
        let features = self.current_features;
        let population = features.population;
        let density = features.density;
        let activity = features.activity;
        let chaos = features.chaos;
        let activity_factor = clamp_fx(activity * 5, 0, SCALE);
        proof {
            lemma_mul_fx_bound(activity_factor as int, 400_000, SCALE as int, 400_000);
            lemma_mul_fx_bound(chaos as int, 600_000, SCALE as int, 600_000);
            lemma_mul_fx_bound(neural_mod[7 as int] as int, 400_000, SCALE as int, 400_000);
            lemma_mul_fx_bound(SCALE as int - density as int, 300_000, SCALE as int, 300_000);
            lemma_mul_fx_bound(activity as int, 200_000, SCALE as int, 200_000);
            lemma_mul_fx_bound(
                population as int + 2 * activity as int,
                800_000,
                3_000_000,
                800_000,
            );
            lemma_mul_fx_bound(neural_mod[4 as int] as int, 200_000, SCALE as int, 200_000);
        }
        self.synthesis_mix = clamp_fx(
            300_000 + mul_fx(activity_factor, 400_000) + mul_fx(chaos, 600_000) + mul_fx(
                neural_mod[7],
                400_000,
            ),
            0,
            SCALE,
        );
        let wet = 200_000 + mul_fx(SCALE - density, 300_000) + mul_fx(activity, 200_000);
        self.crypt_reverb.set_wet_amount(wet);
        let intensity = population + activity * 2;
        self.tape_saturation.set_character(
            1_200_000 + mul_fx(intensity, 800_000),
            600_000 + mul_fx(neural_mod[4], 200_000),
        );
    }
    /// Generate one stereo sample from the given features: advance the
    /// evolution clock, recompute the slow parameters every 64 samples, run
    /// the drone and voice layers, mix, diffuse, saturate and limit.
    ///
    /// Both channels stay strictly inside one unit whatever the history.
    pub fn process_sample(&mut self, game_features: FeatureVector) -> (r: (i64, i64))
        requires
            old(self).wf(),
        ensures
            final(self).wf(),
            final(self).current_features == game_features.clamped_spec(),
            final(self).update_counter == vstd::wrapping::u64_specs::wrapping_add(
                old(self).update_counter,
                1,
            ),
            old(self).update_counter % 64 == 0 ==> forall|i: int|
                0 <= i < 7 ==> final(self).scale_notes[i] == spec_scale_note(
                    spec_root_hz(game_features.clamped_spec().symmetry as int),
                    spec_mode_choice(
                        game_features.clamped_spec().symmetry as int,
                        game_features.clamped_spec().chaos as int,
                    ),
                    i,
                ),
            old(self).update_counter % 64 != 0 ==> final(self).scale_notes == old(
                self,
            ).scale_notes,
            r.0 == spec_mul_fx(
                spec_pipeline_out(
                    spec_soft_limit(
                        final(self).cathedral_drone.resonance_filter.spec_state(3),
                        700_000,
                        200_000,
                        850_000,
                    ),
                    final(self).medieval_samples.spec_last_output(),
                    final(self).synthesis_mix as int,
                    spec_reads_sum(old(self).crypt_reverb.delay_lines@, 8),
                    final(self).crypt_reverb.wet_amount as int,
                    final(self).tape_saturation.drive as int,
                    final(self).tape_saturation.output_gain as int,
                    final(self).master_limiter.master_gain as int,
                    final(self).master_limiter.compression_ratio as int,
                ),
                800_000,
            ),
            r.1 == spec_mul_fx(
                spec_mul_fx(
                    spec_pipeline_out(
                        spec_soft_limit(
                            final(self).cathedral_drone.resonance_filter.spec_state(3),
                            700_000,
                            200_000,
                            850_000,
                        ),
                        final(self).medieval_samples.spec_last_output(),
                        final(self).synthesis_mix as int,
                        spec_reads_sum(old(self).crypt_reverb.delay_lines@, 8),
                        final(self).crypt_reverb.wet_amount as int,
                        final(self).tape_saturation.drive as int,
                        final(self).tape_saturation.output_gain as int,
                        final(self).master_limiter.master_gain as int,
                        final(self).master_limiter.compression_ratio as int,
                    ),
                    960_000,
                ),
                800_000,
            ),
            -800_000 <= r.0 <= 800_000,
            -800_000 <= r.1 <= 800_000,
            -SCALE < r.0 < SCALE,
            -SCALE < r.1 < SCALE,
    {
        self.current_features = game_features.clamped();
        self.update_evolution_state();
        if self.update_counter % 64 == 0 {
            self.update_all_parameters();
        }
        self.update_counter = self.update_counter.wrapping_add(1);
        let ghost reads0 = spec_reads_sum(old(self).crypt_reverb.delay_lines@, 8);
        proof {
            assert(self.crypt_reverb.delay_lines@ == old(self).crypt_reverb.delay_lines@);
        }
        let rate = self.sample_rate;
        let drone = self.cathedral_drone.process(rate);
        let samples = self.medieval_samples.process();
        proof {
            lemma_mul_fx_bound(drone as int, self.synthesis_mix as int, 850_000, SCALE as int);
            lemma_mul_fx_bound(
                samples as int,
                SCALE as int - self.synthesis_mix as int,
                950_000,
                SCALE as int,
            );
        }
        let mixed = mul_fx(drone, self.synthesis_mix) + mul_fx(samples, SCALE - self.synthesis_mix);
        let reverbed = self.crypt_reverb.process(mixed);
        let saturated = self.tape_saturation.process(reverbed);
        let limited = self.master_limiter.process(saturated);
        proof {
            assert(limited == spec_pipeline_out(
                spec_soft_limit(
                    self.cathedral_drone.resonance_filter.spec_state(3),
                    700_000,
                    200_000,
                    850_000,
                ),
                self.medieval_samples.spec_last_output(),
                self.synthesis_mix as int,
                reads0,
                self.crypt_reverb.wet_amount as int,
                self.tape_saturation.drive as int,
                self.tape_saturation.output_gain as int,
                self.master_limiter.master_gain as int,
                self.master_limiter.compression_ratio as int,
            ));
            lemma_mul_fx_bound(limited as int, 960_000, 950_000, 960_000);
            lemma_mul_fx_bound(limited as int, 800_000, 950_000, 800_000);
            lemma_mul_fx_bound(
                spec_mul_fx(limited as int, 960_000),
                800_000,
                912_000,
                800_000,
            );
        }
        let left = mul_fx(limited, 800_000);
        let right = mul_fx(mul_fx(limited, 960_000), 800_000);
        (left, right)
    }

    /// Generate one stereo sample from the last-known features.
    ///
    /// Output components always lie strictly within one unit, for any
    /// feature history and any number of consecutive calls.
    pub fn generate_stereo_sample(&mut self) -> (r: (i64, i64))
        requires
            old(self).wf(),
        ensures
            final(self).wf(),
            r.0 == spec_mul_fx(
                spec_pipeline_out(
                    spec_soft_limit(
                        final(self).cathedral_drone.resonance_filter.spec_state(3),
                        700_000,
                        200_000,
                        850_000,
                    ),
                    final(self).medieval_samples.spec_last_output(),
                    final(self).synthesis_mix as int,
                    spec_reads_sum(old(self).crypt_reverb.delay_lines@, 8),
                    final(self).crypt_reverb.wet_amount as int,
                    final(self).tape_saturation.drive as int,
                    final(self).tape_saturation.output_gain as int,
                    final(self).master_limiter.master_gain as int,
                    final(self).master_limiter.compression_ratio as int,
                ),
                800_000,
            ),
            r.1 == spec_mul_fx(
                spec_mul_fx(
                    spec_pipeline_out(
                        spec_soft_limit(
                            final(self).cathedral_drone.resonance_filter.spec_state(3),
                            700_000,
                            200_000,
                            850_000,
                        ),
                        final(self).medieval_samples.spec_last_output(),
                        final(self).synthesis_mix as int,
                        spec_reads_sum(old(self).crypt_reverb.delay_lines@, 8),
                        final(self).crypt_reverb.wet_amount as int,
                        final(self).tape_saturation.drive as int,
                        final(self).tape_saturation.output_gain as int,
                        final(self).master_limiter.master_gain as int,
                        final(self).master_limiter.compression_ratio as int,
                    ),
                    960_000,
                ),
                800_000,
            ),
            -800_000 <= r.0 <= 800_000,
            -800_000 <= r.1 <= 800_000,
            -SCALE < r.0 < SCALE,
            -SCALE < r.1 < SCALE,
    {
        let features = self.current_features;
        self.process_sample(features)
    }
}

/// A seven-way note pick from a modulation scalar.
fn note_pick(m: i64) -> (r: usize)
    requires
        0 <= m <= SCALE,
    ensures
        r < 7,
{
    proof {
        lemma_div_range((m as int) * 7, SCALE as int, 0, 7_000_000, SCALE as int, SCALE as int);
        vstd::arithmetic::div_mod::lemma_mod_pos_bound((m as int) * 7 / (SCALE as int), 7);
    }
    (((m * 7) / SCALE) % 7) as usize
}

/// A four-way pick from a feature scalar.
fn four_pick(m: i64) -> (r: usize)
    requires
        0 <= m <= SCALE,
    ensures
        r < 4,
{
    proof {
        lemma_div_range((m as int) * 4, SCALE as int, 0, 4_000_000, SCALE as int, SCALE as int);
        vstd::arithmetic::div_mod::lemma_mod_pos_bound((m as int) * 4 / (SCALE as int), 4);
    }
    (((m * 4) / SCALE) % 4) as usize
}

/// Bell scale C3 to B3, in micro-hertz.
fn bell_scale_note(k: usize) -> (r: i64)
    requires
        k < 7,
    ensures
        100_000_000 <= r <= 250_000_000,
{
    if k == 0 {
        130_810_000
    } else if k == 1 {
        146_830_000
    } else if k == 2 {
        164_810_000
    } else if k == 3 {
        174_610_000
    } else if k == 4 {
        196_000_000
    } else if k == 5 {
        220_000_000
    } else {
        246_940_000
    }
}

/// High-register bells for activity cascades, in micro-hertz.
fn high_bell_note(k: usize) -> (r: i64)
    requires
        k < 4,
    ensures
        100_000_000 <= r <= 320_000_000,
{
    if k == 0 {
        220_000_000
    } else if k == 1 {
        246_940_000
    } else if k == 2 {
        277_180_000
    } else {
        311_130_000
    }
}

/// Very deep bells for dense populations, in micro-hertz.
fn deep_bell_note(k: usize) -> (r: i64)
    requires
        k < 4,
    ensures
        60_000_000 <= r <= 98_000_000,
{
    if k == 0 {
        65_410_000
    } else if k == 1 {
        73_420_000
    } else if k == 2 {
        82_410_000
    } else {
        98_000_000
    }
}

/// Slightly detuned bells for chaotic patterns, in micro-hertz.
fn chaos_bell_note(k: usize) -> (r: i64)
    requires
        k < 4,
    ensures
        100_000_000 <= r <= 210_000_000,
{
    if k == 0 {
        138_590_000
    } else if k == 1 {
        155_560_000
    } else if k == 2 {
        185_000_000
    } else {
        207_650_000
    }
}

/// Short arpeggio of bells for symmetric patterns, in micro-hertz.
fn arp_bell_note(k: usize) -> (r: i64)
    requires
        k < 3,
    ensures
        100_000_000 <= r <= 250_000_000,
{
    if k == 0 {
        164_810_000
    } else if k == 1 {
        196_000_000
    } else {
        246_940_000
    }
}

/// Law: scale building is deterministic and anchored. [`HybridDungeonSynthEngine::build_scale`]
/// returns exactly `spec_scale_note` at every degree, so two calls with
/// identical root and mode give bit-identical scales; and degree zero of
/// every mode — mode zero in particular — is exactly the root frequency.
pub proof fn lemma_build_scale_root(root_hz: int, mode: int)
    requires
        0 < root_hz,
        0 <= mode < 7,
    ensures
        spec_scale_note(root_hz, mode, 0) == root_hz,
{
    assert(spec_mode_step(mode, 0) == 0);
    assert(spec_semi_ratio(0) == 1_000_000);
    vstd::arithmetic::div_mod::lemma_div_by_multiple(root_hz, SCALE as int);
    assert(root_hz * 1_000_000 == root_hz * (SCALE as int));
}

/// Law: the seven notes of a built scale ascend with the degree.
pub proof fn lemma_build_scale_ascending(root_hz: int, mode: int, i: int)
    requires
        0 < root_hz,
        0 <= mode < 7,
        0 <= i < 6,
    ensures
        spec_scale_note(root_hz, mode, i) <= spec_scale_note(root_hz, mode, i + 1),
{
    let s1 = spec_semi_ratio(spec_mode_step(mode, i));
    let s2 = spec_semi_ratio(spec_mode_step(mode, i + 1));
    assert(s1 <= s2);
    assert(root_hz * s1 <= root_hz * s2) by (nonlinear_arith)
        requires
            root_hz > 0,
            s1 <= s2,
    ;
    crate::audio::fixed::lemma_div_trunc_ordered(root_hz * s1, root_hz * s2, SCALE as int);
}

/// A fixed-point product of nonnegative factors is nonnegative.
proof fn lemma_mul_fx_nonneg_engine(a: int, b: int)
    requires
        a >= 0,
        b >= 0,
    ensures
        spec_mul_fx(a, b) >= 0,
{
    assert(a * b >= 0) by (nonlinear_arith)
        requires
            a >= 0,
            b >= 0,
    ;
    vstd::arithmetic::div_mod::lemma_div_pos_is_pos(a * b, SCALE as int);
}

/// Per-sample advance of the slow evolution phase at a sample rate, in
/// nano-units: at least 166 at every supported rate, so the ~30 s cycle
/// really does advance at 44.1 kHz.
pub open spec fn evolution_increment(rate: int) -> int {
    (PHASE_SCALE as int) / (30 * rate)
}

/// Per-sample advance of the micro-variation timer, in nano-units.
pub open spec fn micro_increment(rate: int) -> int {
    (PHASE_SCALE as int) / (2 * rate)
}

/// Per-sample harmonic-drift increment of oscillator `d`: a slow sine of
/// the (already advanced) evolution phase, scaled by a per-oscillator rate.
pub open spec fn spec_drift_delta(rate: int, phase: int, d: int) -> int {
    spec_mul_fx(
        (SCALE as int) / (rate * (10 + 5 * d)),
        spec_mul_fx(
            spec_sin_unit((spec_phase_micro(phase) * (d + 1)) % (SCALE as int)),
            100_000,
        ),
    )
}

/// Evolution anchor pitch of oscillator `i`, in micro-hertz.
pub open spec fn spec_evo_base(i: int) -> int {
    if i == 0 {
        65_410_000
    } else if i == 1 {
        82_410_000
    } else {
        98_000_000
    }
}

/// Evolved frequency of oscillator `i`: the anchor pitch drifted, with a
/// micro pitch wobble and a slow breathing factor, saturated to the
/// playable range.
pub open spec fn spec_evo_freq(phase: int, micro: int, drift: int, i: int) -> int {
    let micro_sin = spec_sin_unit((spec_phase_micro(micro) * 8) % (SCALE as int));
    let phase_sin = spec_sin_unit(spec_phase_micro(phase));
    let micro_variation = SCALE as int + spec_mul_fx(micro_sin, 2_000 * (i + 1));
    let temporal_variation = SCALE as int + spec_mul_fx(phase_sin, 8_000);
    spec_clamp(
        spec_mul_fx(
            spec_mul_fx(spec_mul_fx(spec_evo_base(i), drift), micro_variation),
            temporal_variation,
        ),
        crate::audio::drone::MIN_FREQ as int,
        crate::audio::drone::MAX_FREQ as int,
    )
}

/// Evolved weight of harmonic `h`: the old weight swayed by a slow
/// harmonic-phase wave, saturated into `[0.1, 1]`.
pub open spec fn spec_evo_weight(old_w: int, phase: int, h: int) -> int {
    let hv = spec_sin_unit(((spec_phase_micro(phase) * (7 * (h + 1))) / 10) % (SCALE as int));
    spec_clamp(spec_mul_fx(old_w, SCALE as int + spec_mul_fx(hv, 100_000)), 100_000, SCALE as int)
}

/// Per-sample advance of the scale evolution, accelerated by the temporal
/// complexity and saturated to one unit.
pub open spec fn spec_scale_advance(rate: int, temporal: int) -> int {
    spec_clamp(
        spec_mul_fx((SCALE as int) / (20 * rate), SCALE as int + spec_mul_fx(temporal, 500_000)),
        0,
        SCALE as int,
    )
}

/// Note `n` of ambient scale `s`: four hard-coded seven-note modal scales,
/// in micro-hertz.
fn evo_scale_note(s: usize, n: usize) -> (r: i64)
    requires
        s < 4,
        n < 7,
    ensures
        100_000_000 <= r <= 500_000_000,
{
    if s == 0 {
        if n == 0 {
            220_000_000
        } else if n == 1 {
            246_940_000
        } else if n == 2 {
            277_180_000
        } else if n == 3 {
            293_660_000
        } else if n == 4 {
            329_630_000
        } else if n == 5 {
            369_990_000
        } else {
            415_300_000
        }
    } else if s == 1 {
        if n == 0 {
            261_630_000
        } else if n == 1 {
            293_660_000
        } else if n == 2 {
            329_630_000
        } else if n == 3 {
            349_230_000
        } else if n == 4 {
            392_000_000
        } else if n == 5 {
            440_000_000
        } else {
            493_880_000
        }
    } else if s == 2 {
        if n == 0 {
            220_000_000
        } else if n == 1 {
            233_080_000
        } else if n == 2 {
            261_630_000
        } else if n == 3 {
            277_180_000
        } else if n == 4 {
            311_130_000
        } else if n == 5 {
            349_230_000
        } else {
            369_990_000
        }
    } else {
        if n == 0 {
            196_000_000
        } else if n == 1 {
            220_000_000
        } else if n == 2 {
            246_940_000
        } else if n == 3 {
            261_630_000
        } else if n == 4 {
            293_660_000
        } else if n == 5 {
            329_630_000
        } else {
            349_230_000
        }
    }
}

impl FeatureVector {
    /// Spec-level clamp of every component into `[0, 1]`.
    pub open spec fn clamped_spec(&self) -> FeatureVector {
        FeatureVector {
            population: spec_clamp(self.population as int, 0, SCALE as int) as i64,
            density: spec_clamp(self.density as int, 0, SCALE as int) as i64,
            activity: spec_clamp(self.activity as int, 0, SCALE as int) as i64,
            cluster_count: spec_clamp(self.cluster_count as int, 0, SCALE as int) as i64,
            avg_cluster_size: spec_clamp(self.avg_cluster_size as int, 0, SCALE as int) as i64,
            symmetry: spec_clamp(self.symmetry as int, 0, SCALE as int) as i64,
            chaos: spec_clamp(self.chaos as int, 0, SCALE as int) as i64,
            generation: spec_clamp(self.generation as int, 0, SCALE as int) as i64,
        }
    }
}

} // verus!
