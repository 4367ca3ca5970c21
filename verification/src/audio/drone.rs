//! Four-oscillator additive drone: sub-bass plus three harmonic-bank
//! oscillators, a bass-pattern sequencer, and a cascaded low-pass filter.
//!
//! Every parameter write saturates into its documented range, so the layer's
//! well-formedness is preserved by all entry points and its output stays
//! within the per-layer soft-limit ceiling.

use vstd::prelude::*;

use crate::audio::fixed::{
    clamp_fx, div_fx, mul_fx, mul_fx_wide, sin_unit, soft_limit, spec_clamp, spec_div_fx,
    spec_mul_fx, spec_sin_unit, spec_soft_limit, lemma_div_range, lemma_mul_fx_bound, SCALE,
};

verus! {

/// Smallest oscillator frequency, in micro-hertz.
pub const MIN_FREQ: i64 = 1_000_000;

/// Largest oscillator frequency, in micro-hertz.
pub const MAX_FREQ: i64 = 20_000_000_000;

/// One additive oscillator: a phase, a pitch, a level and eight harmonic
/// weights.
pub struct DroneOscillator {
    /// Unit phase in `[0, 1)` micro-units.
    pub phase: i64,
    /// Frequency in micro-hertz.
    pub frequency: i64,
    /// Level in micro-units.
    pub amplitude: i64,
    /// Harmonic weights, each within `[0.05, 1]` in micro-units.
    pub harmonic_weights: [i64; 8],
}

impl DroneOscillator {
    /// All fields inside their documented ranges.
    pub open spec fn wf(&self) -> bool {
        &&& 0 <= self.phase < SCALE
        &&& MIN_FREQ <= self.frequency <= MAX_FREQ
        &&& 0 <= self.amplitude <= SCALE
        &&& forall|h: int| 0 <= h < 8 ==> 50_000 <= #[trigger] self.harmonic_weights[h] <= SCALE
    }
}

/// Four cascaded one-pole low-pass stages with a resonance feedback term.
pub struct ResonanceFilter {
    /// The four cascaded stage outputs, saturated to two units.
    pub state: [i64; 4],
    /// Cutoff in micro-hertz.
    pub cutoff: i64,
    /// Resonance in micro-units.
    pub resonance: i64,
}

impl ResonanceFilter {
    /// Stage `k` of the filter state.
    pub open spec fn spec_state(&self, k: int) -> int {
        self.state[k] as int
    }

    /// Cutoff in micro-hertz.
    pub open spec fn spec_cutoff(&self) -> int {
        self.cutoff as int
    }

    /// Resonance in micro-units.
    pub open spec fn spec_resonance(&self) -> int {
        self.resonance as int
    }

    /// States saturated to two units, cutoff and resonance in their
    /// documented ranges.
    pub open spec fn wf(&self) -> bool {
        &&& forall|k: int| 0 <= k < 4 ==> -2_000_000 <= #[trigger] self.state[k] <= 2_000_000
        &&& 50_000_000 <= self.spec_cutoff() <= 400_000_000
        &&& 100_000 <= self.spec_resonance() <= 700_000
    }

    /// Run one sample through the cascade; each stage saturates at two
    /// units. Returns the last stage.
    fn process(&mut self, input: i64) -> (r: i64)
        requires
            old(self).wf(),
            -1_000_000 <= input <= 1_000_000,
        ensures
            final(self).wf(),
            final(self).spec_cutoff() == old(self).spec_cutoff(),
            final(self).spec_resonance() == old(self).spec_resonance(),
            *final(self) == spec_filter_next(*old(self), input as int),
            r == final(self).spec_state(3),
            -2_000_000 <= r <= 2_000_000,
    {
        proof {
            lemma_mul_fx_bound(self.cutoff as int, 142, 400_000_000, 142);
        }
        let f = clamp_fx(mul_fx(self.cutoff, 142), 1, 990_000);
        let fb_boost = div_fx(self.resonance, SCALE - f);
        proof {
            lemma_div_range(
                (self.resonance as int) * (SCALE as int),
                SCALE as int - f as int,
                0,
                700_000_000_000,
                10_000,
                1_000_000,
            );
        }
        let fb = self.resonance + clamp_fx(fb_boost, 0, 70_000_000);
        let fb_c = clamp_fx(fb, 0, 2_000_000);
        proof {
            lemma_mul_fx_bound(fb_c as int, self.state[0] as int - self.state[1] as int, 2_000_000, 4_000_000);
        }
        let reso_term = mul_fx(fb_c, self.state[0] - self.state[1]);
        let drive = clamp_fx(input - self.state[0] + reso_term, -8_000_000, 8_000_000);
        proof {
            lemma_mul_fx_bound(f as int, drive as int, SCALE as int, 8_000_000);
        }
        self.state[0] = clamp_fx(self.state[0] + mul_fx(f, drive), -2_000_000, 2_000_000);
        proof {
            lemma_mul_fx_bound(f as int, self.state[0] as int - self.state[1] as int, SCALE as int, 4_000_000);
        }
        self.state[1] = clamp_fx(self.state[1] + mul_fx(f, self.state[0] - self.state[1]), -2_000_000, 2_000_000);
        proof {
            lemma_mul_fx_bound(f as int, self.state[1] as int - self.state[2] as int, SCALE as int, 4_000_000);
        }
        self.state[2] = clamp_fx(self.state[2] + mul_fx(f, self.state[1] - self.state[2]), -2_000_000, 2_000_000);
        proof {
            lemma_mul_fx_bound(f as int, self.state[2] as int - self.state[3] as int, SCALE as int, 4_000_000);
        }
        self.state[3] = clamp_fx(self.state[3] + mul_fx(f, self.state[2] - self.state[3]), -2_000_000, 2_000_000);
        proof {
            let target = spec_filter_next(*old(self), input as int);
            assert(self.state[0] == target.state[0]);
            assert(self.state[1] == target.state[1]);
            assert(self.state[2] == target.state[2]);
            assert(self.state[3] == target.state[3]);
            assert(self.state =~= target.state);
            assert(*self == target);
        }
        self.state[3]
    }
}

/// Rhythm phase after one sample, wrapping at one unit.
pub open spec fn spec_rhythm_next(rhythm: int, rate: int) -> int {
    let bumped = rhythm + 2_500_000int / rate;
    if bumped >= SCALE as int {
        if bumped - SCALE as int >= SCALE as int {
            0int
        } else {
            bumped - SCALE as int
        }
    } else {
        bumped
    }
}

/// Whether the rhythm accent fires this sample.
pub open spec fn spec_rhythm_fires(rhythm: int, rate: int) -> bool {
    rhythm + 2_500_000int / rate >= SCALE as int
}

/// The crossfaded bass-pattern intensity, after the timer advance.
pub open spec fn spec_pattern_mod(layer: CathedralDroneLayer, rate: int) -> int {
    let t = final_timer_snapshot(layer.pattern_transition_timer as int, SCALE as int / rate);
    let p = final_pattern_snapshot(
        layer.pattern_transition_timer as int,
        SCALE as int / rate,
        layer.current_pattern as int,
    );
    let pt = spec_clamp(t / 4, 0, SCALE as int);
    spec_clamp(
        spec_mul_fx(layer.bass_modulation_patterns[p] as int, SCALE as int - pt) + spec_mul_fx(
            layer.bass_modulation_patterns[(p + 1) % 8] as int,
            pt,
        ),
        0,
        SCALE as int,
    )
}

/// The rhythmic accent added to the sub-bass this sample.
pub open spec fn spec_rhythm_mod(layer: CathedralDroneLayer, rate: int) -> int {
    if spec_rhythm_fires(layer.rhythm_trigger as int, rate) {
        spec_mul_fx(spec_pattern_mod(layer, rate), 300_000)
    } else {
        0
    }
}

/// Weighted harmonic sum of an oscillator over its first `n` harmonics;
/// harmonics above the third are scaled by the pattern intensity.
pub open spec fn spec_harmonic_sum(osc: DroneOscillator, cur_mod: int, n: int) -> int
    decreases n,
{
    if n <= 0 {
        0
    } else {
        let h = n - 1;
        let hs = spec_sin_unit((osc.phase as int * (h + 1)) % (SCALE as int));
        let influence = if h > 2 {
            cur_mod
        } else {
            SCALE as int
        };
        spec_harmonic_sum(osc, cur_mod, n - 1) + spec_mul_fx(
            spec_mul_fx(hs, osc.harmonic_weights[h] as int),
            influence,
        )
    }
}

/// Raw output of oscillator `i`: two accented sines for the sub-bass, the
/// weighted harmonic bank for the rest.
pub open spec fn spec_osc_raw(osc: DroneOscillator, i: int, rhythm_mod: int, cur_mod: int) -> int {
    if i == 0 {
        spec_mul_fx(
            spec_sin_unit(osc.phase as int) + spec_mul_fx(
                spec_sin_unit((osc.phase as int * 2) % (SCALE as int)),
                300_000,
            ),
            SCALE as int + rhythm_mod,
        )
    } else {
        spec_harmonic_sum(osc, cur_mod, 8)
    }
}

/// Soft-limited, levelled output of oscillator `i`.
pub open spec fn spec_osc_out(
    osc: DroneOscillator,
    i: int,
    rhythm_mod: int,
    cur_mod: int,
    mod_sin: int,
) -> int {
    let mod_amount = spec_mul_fx(spec_mul_fx(mod_sin, 50_000), cur_mod);
    let level = spec_mul_fx(osc.amplitude as int, SCALE as int + mod_amount);
    spec_soft_limit(
        spec_mul_fx(spec_osc_raw(osc, i, rhythm_mod, cur_mod), level),
        700_000,
        200_000,
        850_000,
    )
}

/// Sum of the first `n` oscillator outputs.
pub open spec fn spec_osc_sum(
    oscs: [DroneOscillator; 4],
    rhythm_mod: int,
    cur_mod: int,
    mod_sin: int,
    n: int,
) -> int
    decreases n,
{
    if n <= 0 {
        0
    } else {
        spec_osc_sum(oscs, rhythm_mod, cur_mod, mod_sin, n - 1) + spec_osc_out(
            oscs[n - 1],
            n - 1,
            rhythm_mod,
            cur_mod,
            mod_sin,
        )
    }
}

/// An oscillator with its phase advanced by one sample at `rate`.
pub open spec fn spec_osc_advanced(osc: DroneOscillator, rate: int) -> DroneOscillator {
    DroneOscillator {
        phase: ((osc.phase as int + (osc.frequency as int / rate) % (SCALE as int)) % (
        SCALE as int)) as i64,
        ..osc
    }
}

/// The saturated filter input the drone feeds in for one sample.
pub open spec fn spec_drone_drive(layer: CathedralDroneLayer, rate: int) -> int {
    spec_clamp(
        spec_mul_fx(
            spec_osc_sum(
                layer.oscillators,
                spec_rhythm_mod(layer, rate),
                spec_pattern_mod(layer, rate),
                spec_sin_unit(layer.modulation_phase as int),
                4,
            ),
            150_000,
        ),
        -(SCALE as int),
        SCALE as int,
    )
}

/// Total density-weighted activity of the first `n` regions.
pub open spec fn spec_regional_activity(regions: [(i64, i64, i64); 16], n: int) -> int
    decreases n,
{
    if n <= 0 {
        0
    } else {
        spec_regional_activity(regions, n - 1) + spec_mul_fx(
            regions[n - 1].0 as int,
            regions[n - 1].1 as int,
        )
    }
}

/// Total complexity of the first `n` regions.
pub open spec fn spec_regional_complexity(regions: [(i64, i64, i64); 16], n: int) -> int
    decreases n,
{
    if n <= 0 {
        0
    } else {
        spec_regional_complexity(regions, n - 1) + regions[n - 1].2 as int
    }
}

/// Normalized regional activity driving amplitudes and patterns.
pub open spec fn spec_dp_regional_mod(regions: [(i64, i64, i64); 16]) -> int {
    spec_clamp(spec_regional_activity(regions, 16) / 16, 0, SCALE as int)
}

/// Breathing amount at the advanced modulation phase.
pub open spec fn spec_dp_breathing(old_phase: int) -> int {
    spec_mul_fx((spec_sin_unit((old_phase + 2_000) % (SCALE as int)) + SCALE as int) / 2, 100_000)
}

/// Harmonic brightness from darkness and the modulation scalar.
pub open spec fn spec_dp_brightness(dark: int, nm: int) -> int {
    spec_clamp(600_000 - spec_mul_fx(dark, 500_000) + spec_mul_fx(nm, 300_000), 0, SCALE as int)
}

/// Per-oscillator amplitude scaling factor.
pub open spec fn spec_amp_factor(i: int) -> int {
    if i == 0 {
        800_000
    } else if i == 1 {
        900_000
    } else if i == 2 {
        700_000
    } else {
        600_000
    }
}

/// Reciprocal square root of `h + 1` in micro-units.
pub open spec fn spec_inv_sqrt(h: int) -> int {
    if h <= 0 {
        1_000_000
    } else if h == 1 {
        707_107
    } else if h == 2 {
        577_350
    } else if h == 3 {
        500_000
    } else if h == 4 {
        447_214
    } else if h == 5 {
        408_248
    } else if h == 6 {
        377_964
    } else {
        353_553
    }
}

/// New amplitude of oscillator `i`.
pub open spec fn spec_param_amplitude(pop: int, regional_mod: int, breathing: int, i: int) -> int {
    let base_amp = 300_000 + spec_mul_fx(pop, 300_000);
    spec_clamp(
        spec_mul_fx(
            spec_mul_fx(base_amp, spec_amp_factor(i)) + spec_mul_fx(regional_mod, 200_000),
            SCALE as int + breathing,
        ),
        0,
        SCALE as int,
    )
}

/// New frequency of oscillator `i`: the base retuned by the complexity
/// drift plus a darkness offset centred on the middle oscillators.
pub open spec fn spec_param_frequency(base: int, rc: int, dark: int, i: int) -> int {
    spec_clamp(
        spec_mul_fx(base, SCALE as int + spec_mul_fx(rc, 20_000)) + spec_mul_fx(
            dark,
            3_000_000 * i - 4_500_000,
        ),
        MIN_FREQ as int,
        MAX_FREQ as int,
    )
}

/// New weight of harmonic `h`: the reciprocal-root base scaled by the
/// brightness and the regional emphasis.
pub open spec fn spec_param_weight(hb: int, nm: int, region_act: int, h: int) -> int {
    let harmonic_mod = spec_mul_fx(hb, SCALE as int + spec_mul_fx(nm, 300_000));
    let emphasis = if h > 3 {
        spec_mul_fx(hb, 1_500_000) + spec_mul_fx(region_act, 300_000)
    } else {
        SCALE as int + spec_mul_fx(region_act, 100_000)
    };
    spec_clamp(
        spec_mul_fx(spec_mul_fx(spec_inv_sqrt(h), harmonic_mod), emphasis),
        50_000,
        SCALE as int,
    )
}

/// The filter cascade after one sample of `input`: every stage saturated
/// to two units.
pub open spec fn spec_filter_next(f: ResonanceFilter, input: int) -> ResonanceFilter {
    let fc = spec_clamp(spec_mul_fx(f.cutoff as int, 142), 1, 990_000);
    let fb = f.resonance as int + spec_clamp(
        spec_div_fx(f.resonance as int, SCALE as int - fc),
        0,
        70_000_000,
    );
    let fb_c = spec_clamp(fb, 0, 2_000_000);
    let reso = spec_mul_fx(fb_c, f.state[0] as int - f.state[1] as int);
    let drive = spec_clamp(input - f.state[0] + reso, -8_000_000, 8_000_000);
    let s0 = spec_clamp(f.state[0] + spec_mul_fx(fc, drive), -2_000_000, 2_000_000);
    let s1 = spec_clamp(f.state[1] + spec_mul_fx(fc, s0 - f.state[1]), -2_000_000, 2_000_000);
    let s2 = spec_clamp(f.state[2] + spec_mul_fx(fc, s1 - f.state[2]), -2_000_000, 2_000_000);
    let s3 = spec_clamp(f.state[3] + spec_mul_fx(fc, s2 - f.state[3]), -2_000_000, 2_000_000);
    ResonanceFilter { state: [s0 as i64, s1 as i64, s2 as i64, s3 as i64], ..f }
}

/// Deep bass foundation: four oscillators, a 4-second bass-pattern cycle
/// with crossfade, a rhythm accent near 2.5 Hz, and the resonance filter.
pub struct CathedralDroneLayer {
    /// The four additive oscillators; index 0 is the sub-bass.
    pub oscillators: [DroneOscillator; 4],
    /// Scale-derived fundamentals in micro-hertz.
    pub base_frequencies: [i64; 4],
    /// Unit phase of the slow breathing modulation.
    pub modulation_phase: i64,
    /// The output low-pass filter.
    pub resonance_filter: ResonanceFilter,
    /// Eight bass-pattern intensity presets in micro-units.
    pub bass_modulation_patterns: [i64; 8],
    /// Index of the active bass pattern.
    pub current_pattern: usize,
    /// Seconds into the 4-second pattern cycle, in micro-units.
    pub pattern_transition_timer: i64,
    /// Unit phase of the rhythm accent.
    pub rhythm_trigger: i64,
}

impl CathedralDroneLayer {
    /// Base frequency `k`, in micro-hertz.
    pub open spec fn spec_base_frequency(&self, k: int) -> int {
        self.base_frequencies[k] as int
    }

    /// Index of the active bass pattern.
    pub open spec fn spec_current_pattern(&self) -> int {
        self.current_pattern as int
    }

    /// Seconds into the 4-second pattern cycle, in micro-units.
    pub open spec fn spec_timer(&self) -> int {
        self.pattern_transition_timer as int
    }

    /// Every component inside its documented range.
    pub open spec fn wf(&self) -> bool {
        &&& forall|k: int| 0 <= k < 4 ==> (#[trigger] self.oscillators[k]).wf()
        &&& forall|k: int| 0 <= k < 4 ==> MIN_FREQ <= #[trigger] self.base_frequencies[k] <= MAX_FREQ
        &&& 0 <= self.modulation_phase < SCALE
        &&& self.resonance_filter.wf()
        &&& forall|k: int| 0 <= k < 8 ==> 100_000 <= #[trigger] self.bass_modulation_patterns[k] <= SCALE
        &&& self.current_pattern < 8
        &&& 0 <= self.pattern_transition_timer <= 4_400_000
        &&& 0 <= self.rhythm_trigger < SCALE
    }

    /// A drone layer tuned to the default extended minor triad.
    pub fn new(sample_rate: i64) -> (r: Self)
        ensures
            r.wf(),
            r.spec_base_frequency(0) == 32_700_000,
            r.spec_current_pattern() == 0,
            r.spec_timer() == 0,
    {
        let amp0: [i64; 8] = [
            1_000_000,
            800_000,
            600_000,
            400_000,
            300_000,
            200_000,
            150_000,
            100_000,
        ];
        let oscillators: [DroneOscillator; 4] = [
            DroneOscillator {
                phase: 0,
                frequency: 32_700_000,
                amplitude: 900_000,
                harmonic_weights: amp0,
            },
            DroneOscillator {
                phase: 0,
                frequency: 65_400_000,
                amplitude: 700_000,
                harmonic_weights: amp0,
            },
            DroneOscillator {
                phase: 0,
                frequency: 82_400_000,
                amplitude: 600_000,
                harmonic_weights: amp0,
            },
            DroneOscillator {
                phase: 0,
                frequency: 98_000_000,
                amplitude: 500_000,
                harmonic_weights: amp0,
            },
        ];
        CathedralDroneLayer {
            oscillators,
            base_frequencies: [32_700_000, 65_400_000, 82_400_000, 98_000_000],
            modulation_phase: 0,
            resonance_filter: ResonanceFilter {
                state: [0i64; 4],
                cutoff: 200_000_000,
                resonance: 700_000,
            },
            bass_modulation_patterns: [
                200_000,
                500_000,
                800_000,
                300_000,
                700_000,
                400_000,
                900_000,
                600_000,
            ],
            current_pattern: 0,
            pattern_transition_timer: 0,
            rhythm_trigger: 0,
        }
    }

    /// Retune the drone's fundamentals; each is saturated into the playable
    /// range.
    pub fn set_base_frequencies(&mut self, base: [i64; 4])
        requires
            old(self).wf(),
        ensures
            final(self).wf(),
            forall|k: int|
                0 <= k < 4 ==> final(self).spec_base_frequency(k) == spec_clamp(
                    base[k] as int,
                    MIN_FREQ as int,
                    MAX_FREQ as int,
                ),
    {
        let mut clamped: [i64; 4] = [MIN_FREQ; 4];
        let mut k: usize = 0;
        while k < 4
            invariant
                k <= 4,
                forall|j: int|
                    0 <= j < k ==> clamped[j] == spec_clamp(
                        base[j] as int,
                        MIN_FREQ as int,
                        MAX_FREQ as int,
                    ),
                forall|j: int| 0 <= j < 4 ==> MIN_FREQ <= #[trigger] clamped[j] <= MAX_FREQ,
            decreases 4 - k,
        {
            clamped[k] = clamp_fx(base[k], MIN_FREQ, MAX_FREQ);
            k += 1;
        }
        self.base_frequencies = clamped;
    }

    /// Derive amplitudes, frequency drift, harmonic distribution and the
    /// filter from the population, darkness, modulation scalar and the
    /// regional cell aggregates. Every write saturates into its range.
    #[verifier::rlimit(100)]
    #[verifier::spinoff_prover]
    pub fn update_parameters(
        &mut self,
        population: i64,
        darkness: i64,
        neural_mod: i64,
        cell_regions: &[(i64, i64, i64); 16],
    )
        requires
            old(self).wf(),
            forall|k: int|
                0 <= k < 16 ==> 0 <= (#[trigger] cell_regions[k]).0 <= SCALE && 0
                    <= cell_regions[k].1 <= SCALE && 0 <= cell_regions[k].2 <= SCALE,
        ensures
            final(self).wf(),
            forall|k: int|
                0 <= k < 4 ==> final(self).spec_base_frequency(k) == old(self).spec_base_frequency(
                    k,
                ),
            final(self).spec_current_pattern() == old(self).spec_current_pattern(),
            final(self).modulation_phase == (old(self).modulation_phase + 2_000) % (SCALE as int),
            final(self).rhythm_trigger == old(self).rhythm_trigger,
            final(self).pattern_transition_timer == if spec_dp_regional_mod(*cell_regions)
                > 500_000 {
                if old(self).pattern_transition_timer + 11 > 4_400_000 {
                    4_400_000int
                } else {
                    old(self).pattern_transition_timer + 11
                }
            } else {
                old(self).pattern_transition_timer as int
            },
            forall|i: int|
                0 <= i < 8 ==> #[trigger] final(self).bass_modulation_patterns[i] == spec_clamp(
                    spec_mul_fx(old(self).bass_modulation_patterns[i] as int, 900_000)
                        + spec_mul_fx(cell_regions[i].2 as int, 100_000),
                    100_000,
                    SCALE as int,
                ),
            forall|i: int|
                0 <= i < 4 ==> (#[trigger] final(self).oscillators[i]).phase == old(
                    self,
                ).oscillators[i].phase,
            forall|i: int|
                0 <= i < 4 ==> (#[trigger] final(self).oscillators[i]).amplitude
                    == spec_param_amplitude(
                    spec_clamp(population as int, 0, 2_000_000),
                    spec_dp_regional_mod(*cell_regions),
                    spec_dp_breathing(old(self).modulation_phase as int),
                    i,
                ),
            forall|i: int|
                0 <= i < 4 ==> (#[trigger] final(self).oscillators[i]).frequency
                    == spec_param_frequency(
                    old(self).base_frequencies[i] as int,
                    spec_regional_complexity(*cell_regions, 16),
                    spec_clamp(darkness as int, 0, 2_000_000),
                    i,
                ),
            forall|i: int, h: int|
                0 <= i < 4 && 0 <= h < 8
                    ==> (#[trigger] final(self).oscillators[i].harmonic_weights[h])
                    == spec_param_weight(
                    spec_dp_brightness(
                        spec_clamp(darkness as int, 0, 2_000_000),
                        spec_clamp(neural_mod as int, 0, SCALE as int),
                    ),
                    spec_clamp(neural_mod as int, 0, SCALE as int),
                    cell_regions[h].1 as int,
                    h,
                ),
            final(self).resonance_filter.state == old(self).resonance_filter.state,
            final(self).resonance_filter.cutoff == spec_clamp(
                100_000_000 + spec_mul_fx(
                    SCALE as int - spec_clamp(darkness as int, 0, 2_000_000),
                    180_000_000,
                ) + spec_mul_fx(spec_clamp(neural_mod as int, 0, SCALE as int), 60_000_000)
                    + spec_mul_fx(
                    spec_sin_unit(
                        spec_mul_fx(spec_clamp(neural_mod as int, 0, SCALE as int), 80_000_000) % (
                        SCALE as int),
                    ),
                    20_000_000,
                ) + spec_mul_fx(spec_dp_regional_mod(*cell_regions), 15_000_000),
                50_000_000,
                400_000_000,
            ),
            final(self).resonance_filter.resonance == spec_clamp(
                200_000 + spec_mul_fx(spec_clamp(darkness as int, 0, 2_000_000), 300_000)
                    + spec_mul_fx(spec_regional_complexity(*cell_regions, 16), 100_000),
                100_000,
                700_000,
            ),
    {
        let pop = clamp_fx(population, 0, 2_000_000);
        let dark = clamp_fx(darkness, 0, 2_000_000);
        let nm = clamp_fx(neural_mod, 0, SCALE);
        proof {
            lemma_mul_fx_bound(pop as int, 300_000, 2_000_000, 300_000);
            lemma_mul_fx_bound(dark as int, 500_000, 2_000_000, 500_000);
            lemma_mul_fx_bound(nm as int, 300_000, SCALE as int, 300_000);
        }
        let base_amp = 300_000 + mul_fx(pop, 300_000);
        let harmonic_brightness = clamp_fx(
            600_000 - mul_fx(dark, 500_000) + mul_fx(nm, 300_000),
            0,
            SCALE,
        );
        self.modulation_phase = (self.modulation_phase + 2_000) % SCALE;
        let breath_sin = sin_unit(self.modulation_phase);
        proof {
            lemma_mul_fx_bound((breath_sin as int + SCALE as int) / 2, 100_000, SCALE as int, 100_000);
        }
        let breathing_mod = mul_fx((breath_sin + SCALE) / 2, 100_000);
        let mut total_regional_activity: i64 = 0;
        let mut regional_complexity: i64 = 0;
        let mut k: usize = 0;
        while k < 16
            invariant
                self.wf(),
                forall|m: int|
                    0 <= m < 16 ==> 0 <= (#[trigger] cell_regions[m]).0 <= SCALE && 0
                        <= cell_regions[m].1 <= SCALE && 0 <= cell_regions[m].2 <= SCALE,
                k <= 16,
                total_regional_activity == spec_regional_activity(*cell_regions, k as int),
                regional_complexity == spec_regional_complexity(*cell_regions, k as int),
                0 <= total_regional_activity <= (k as int) * SCALE,
                0 <= regional_complexity <= (k as int) * SCALE,
                *self == (CathedralDroneLayer {
                    modulation_phase: self.modulation_phase,
                    ..*old(self)
                }),
                self.modulation_phase == (old(self).modulation_phase + 2_000) % (SCALE as int),
            decreases 16 - k,
        {
            let (d, a, c) = cell_regions[k];
            proof {
                lemma_mul_fx_bound(d as int, a as int, SCALE as int, SCALE as int);
                assert((d as int) * (a as int) >= 0) by (nonlinear_arith)
                    requires
                        d >= 0,
                        a >= 0,
                ;
                vstd::arithmetic::div_mod::lemma_div_pos_is_pos(
                    (d as int) * (a as int),
                    SCALE as int,
                );
            }
            total_regional_activity = total_regional_activity + mul_fx(d, a);
            regional_complexity = regional_complexity + c;
            k += 1;
        }
        proof {
            lemma_div_range(total_regional_activity as int, 16, 0, 16_000_000, 16, 16);
        }
        let regional_mod = clamp_fx(total_regional_activity / 16, 0, SCALE);
        if regional_mod > 500_000 {
            let bumped = self.pattern_transition_timer + 11;
            self.pattern_transition_timer = if bumped > 4_400_000 {
                4_400_000
            } else {
                bumped
            };
        }
        proof {
            assert(regional_mod == spec_dp_regional_mod(*cell_regions));
        }
        let mut i: usize = 0;
        while i < 8
            invariant
                self.wf(),
                forall|m: int|
                    0 <= m < 16 ==> 0 <= (#[trigger] cell_regions[m]).0 <= SCALE && 0
                        <= cell_regions[m].1 <= SCALE && 0 <= cell_regions[m].2 <= SCALE,
                i <= 8,
                self.modulation_phase == (old(self).modulation_phase + 2_000) % (SCALE as int),
                self.rhythm_trigger == old(self).rhythm_trigger,
                self.current_pattern == old(self).current_pattern,
                self.base_frequencies == old(self).base_frequencies,
                self.resonance_filter == old(self).resonance_filter,
                self.pattern_transition_timer as int == (if spec_dp_regional_mod(*cell_regions)
                    > 500_000 {
                    if old(self).pattern_transition_timer + 11 > 4_400_000 {
                        4_400_000int
                    } else {
                        old(self).pattern_transition_timer + 11
                    }
                } else {
                    old(self).pattern_transition_timer as int
                }),
                self.oscillators == old(self).oscillators,
                forall|m: int|
                    0 <= m < i ==> #[trigger] self.bass_modulation_patterns[m] == spec_clamp(
                        spec_mul_fx(old(self).bass_modulation_patterns[m] as int, 900_000)
                            + spec_mul_fx(cell_regions[m].2 as int, 100_000),
                        100_000,
                        SCALE as int,
                    ),
                forall|m: int|
                    i <= m < 8 ==> #[trigger] self.bass_modulation_patterns[m] == old(
                        self,
                    ).bass_modulation_patterns[m],
            decreases 8 - i,
        {
            proof {
                lemma_mul_fx_bound(
                    self.bass_modulation_patterns[i as int] as int,
                    900_000,
                    SCALE as int,
                    900_000,
                );
                lemma_mul_fx_bound(cell_regions[i as int].2 as int, 100_000, SCALE as int, 100_000);
            }
            let blended = mul_fx(self.bass_modulation_patterns[i], 900_000) + mul_fx(
                cell_regions[i].2,
                100_000,
            );
            self.bass_modulation_patterns[i] = clamp_fx(blended, 100_000, SCALE);
            i += 1;
        }
        let mut i: usize = 0;
        while i < 4
            invariant
                self.wf(),
                forall|m: int|
                    0 <= m < 16 ==> 0 <= (#[trigger] cell_regions[m]).0 <= SCALE && 0
                        <= cell_regions[m].1 <= SCALE && 0 <= cell_regions[m].2 <= SCALE,
                i <= 4,
                base_amp as int == 300_000 + spec_mul_fx(pop as int, 300_000),
                pop as int == spec_clamp(population as int, 0, 2_000_000),
                dark as int == spec_clamp(darkness as int, 0, 2_000_000),
                nm as int == spec_clamp(neural_mod as int, 0, SCALE as int),
                harmonic_brightness as int == spec_dp_brightness(dark as int, nm as int),
                breathing_mod as int == spec_dp_breathing(old(self).modulation_phase as int),
                regional_mod as int == spec_dp_regional_mod(*cell_regions),
                regional_complexity == spec_regional_complexity(*cell_regions, 16),
                300_000 <= base_amp <= 900_000,
                0 <= harmonic_brightness <= SCALE,
                0 <= breathing_mod <= 100_000,
                0 <= regional_mod <= SCALE,
                0 <= regional_complexity <= 16_000_000,
                0 <= dark <= 2_000_000,
                0 <= nm <= SCALE,
                self.modulation_phase == (old(self).modulation_phase + 2_000) % (SCALE as int),
                self.rhythm_trigger == old(self).rhythm_trigger,
                self.current_pattern == old(self).current_pattern,
                self.base_frequencies == old(self).base_frequencies,
                self.resonance_filter == old(self).resonance_filter,
                self.pattern_transition_timer as int == (if spec_dp_regional_mod(*cell_regions)
                    > 500_000 {
                    if old(self).pattern_transition_timer + 11 > 4_400_000 {
                        4_400_000int
                    } else {
                        old(self).pattern_transition_timer + 11
                    }
                } else {
                    old(self).pattern_transition_timer as int
                }),
                forall|m: int|
                    0 <= m < 8 ==> #[trigger] self.bass_modulation_patterns[m] == spec_clamp(
                        spec_mul_fx(old(self).bass_modulation_patterns[m] as int, 900_000)
                            + spec_mul_fx(cell_regions[m].2 as int, 100_000),
                        100_000,
                        SCALE as int,
                    ),
                forall|m: int|
                    i <= m < 4 ==> #[trigger] self.oscillators[m] == old(self).oscillators[m],
                forall|m: int|
                    0 <= m < i ==> (#[trigger] self.oscillators[m]).phase == old(
                        self,
                    ).oscillators[m].phase,
                forall|m: int|
                    0 <= m < i ==> (#[trigger] self.oscillators[m]).amplitude
                        == spec_param_amplitude(
                        pop as int,
                        regional_mod as int,
                        breathing_mod as int,
                        m,
                    ),
                forall|m: int|
                    0 <= m < i ==> (#[trigger] self.oscillators[m]).frequency
                        == spec_param_frequency(
                        old(self).base_frequencies[m] as int,
                        regional_complexity as int,
                        dark as int,
                        m,
                    ),
                forall|m: int, hh: int|
                    0 <= m < i && 0 <= hh < 8 ==> (#[trigger] self.oscillators[m].harmonic_weights[hh])
                        == spec_param_weight(
                        harmonic_brightness as int,
                        nm as int,
                        cell_regions[hh].1 as int,
                        hh,
                    ),
            decreases 4 - i,
        {
            let amp_factor: i64 = if i == 0 {
                800_000
            } else if i == 1 {
                900_000
            } else if i == 2 {
                700_000
            } else {
                600_000
            };
            proof {
                lemma_mul_fx_bound(base_amp as int, amp_factor as int, 900_000, 900_000);
                lemma_mul_fx_bound(regional_mod as int, 200_000, SCALE as int, 200_000);
            }
            let osc_amp_base = mul_fx(base_amp, amp_factor);
            let regional_influence = mul_fx(regional_mod, 200_000);
            proof {
                lemma_mul_fx_bound(
                    osc_amp_base as int + regional_influence as int,
                    SCALE as int + breathing_mod as int,
                    1_100_000,
                    1_100_000,
                );
            }
            let amplitude = clamp_fx(
                mul_fx(osc_amp_base + regional_influence, SCALE + breathing_mod),
                0,
                SCALE,
            );
            self.oscillators[i].amplitude = amplitude;
            proof {
                lemma_mul_fx_bound(regional_complexity as int, 20_000, 16_000_000, 20_000);
            }
            let complexity_drift = mul_fx(regional_complexity, 20_000);
            let offset_factor: i64 = 3_000_000 * (i as i64) - 4_500_000;
            proof {
                lemma_mul_fx_bound(dark as int, offset_factor as int, 2_000_000, 4_500_000);
                lemma_mul_fx_bound(
                    self.base_frequencies[i as int] as int,
                    SCALE as int + complexity_drift as int,
                    MAX_FREQ as int,
                    1_320_000,
                );
            }
            let darkness_offset = mul_fx(dark, offset_factor);
            let pitched = mul_fx_wide(self.base_frequencies[i], SCALE + complexity_drift);
            self.oscillators[i].frequency = clamp_fx(
                pitched + darkness_offset,
                MIN_FREQ,
                MAX_FREQ,
            );
            let ghost snap = *self;
            let mut h: usize = 0;
            while h < 8
                invariant
                    self.wf(),
                    snap.wf(),
                    forall|m: int|
                        0 <= m < 16 ==> 0 <= (#[trigger] cell_regions[m]).0 <= SCALE && 0
                            <= cell_regions[m].1 <= SCALE && 0 <= cell_regions[m].2 <= SCALE,
                    i < 4,
                    h <= 8,
                    0 <= harmonic_brightness <= SCALE,
                    0 <= nm <= SCALE,
                    harmonic_brightness as int == spec_dp_brightness(dark as int, nm as int),
                    *self == (CathedralDroneLayer { oscillators: self.oscillators, ..snap }),
                    forall|m: int|
                        0 <= m < 4 && m != i ==> #[trigger] self.oscillators[m]
                            == snap.oscillators[m],
                    self.oscillators[i as int].phase == snap.oscillators[i as int].phase,
                    self.oscillators[i as int].amplitude == snap.oscillators[i as int].amplitude,
                    self.oscillators[i as int].frequency == snap.oscillators[i as int].frequency,
                    forall|hh: int|
                        0 <= hh < h ==> (#[trigger] self.oscillators[i as int].harmonic_weights[hh])
                            == spec_param_weight(
                            harmonic_brightness as int,
                            nm as int,
                            cell_regions[hh].1 as int,
                            hh,
                        ),
                    forall|hh: int|
                        h <= hh < 8 ==> (#[trigger] self.oscillators[i as int].harmonic_weights[hh])
                            == snap.oscillators[i as int].harmonic_weights[hh],
                decreases 8 - h,
            {
                let base_weight = inv_sqrt_weight(h);
                proof {
                    lemma_mul_fx_bound(nm as int, 300_000, SCALE as int, 300_000);
                    lemma_mul_fx_bound(
                        harmonic_brightness as int,
                        SCALE as int + spec_mul_fx(nm as int, 300_000),
                        SCALE as int,
                        1_300_000,
                    );
                    lemma_mul_fx_bound(harmonic_brightness as int, 1_500_000, SCALE as int, 1_500_000);
                    lemma_mul_fx_bound(cell_regions[h as int].1 as int, 300_000, SCALE as int, 300_000);
                    lemma_mul_fx_bound(cell_regions[h as int].1 as int, 100_000, SCALE as int, 100_000);
                }
                let harmonic_mod = mul_fx(harmonic_brightness, SCALE + mul_fx(nm, 300_000));
                let region_harmonic_mod = cell_regions[h].1;
                let emphasis = if h > 3 {
                    mul_fx(harmonic_brightness, 1_500_000) + mul_fx(region_harmonic_mod, 300_000)
                } else {
                    SCALE + mul_fx(region_harmonic_mod, 100_000)
                };
                proof {
                    lemma_mul_fx_bound(base_weight as int, harmonic_mod as int, SCALE as int, 1_300_000);
                    lemma_mul_fx_bound(
                        spec_mul_fx(base_weight as int, harmonic_mod as int),
                        emphasis as int,
                        1_300_000,
                        1_800_000,
                    );
                }
                let weight = clamp_fx(
                    mul_fx(mul_fx(base_weight, harmonic_mod), emphasis),
                    50_000,
                    SCALE,
                );
                self.oscillators[i].harmonic_weights[h] = weight;
                h += 1;
            }
            i += 1;
        }
        proof {
            lemma_mul_fx_bound(nm as int, 80_000_000, SCALE as int, 80_000_000);
            vstd::arithmetic::div_mod::lemma_mod_pos_bound(
                spec_mul_fx(nm as int, 80_000_000),
                SCALE as int,
            );
            vstd::arithmetic::div_mod::lemma_div_pos_is_pos(
                (nm as int) * 80_000_000,
                SCALE as int,
            );
            assert((nm as int) * 80_000_000 >= 0) by (nonlinear_arith)
                requires
                    nm >= 0,
            ;
        }
        let filter_wave = sin_unit(mul_fx(nm, 80_000_000) % SCALE);
        proof {
            lemma_mul_fx_bound(filter_wave as int, 20_000_000, SCALE as int, 20_000_000);
            lemma_mul_fx_bound(regional_mod as int, 15_000_000, SCALE as int, 15_000_000);
            lemma_mul_fx_bound(SCALE as int - dark as int, 180_000_000, SCALE as int, 180_000_000);
            lemma_mul_fx_bound(nm as int, 60_000_000, SCALE as int, 60_000_000);
            lemma_mul_fx_bound(dark as int, 300_000, 2_000_000, 300_000);
            lemma_mul_fx_bound(regional_complexity as int, 100_000, 16_000_000, 100_000);
        }
        let filter_mod = mul_fx(filter_wave, 20_000_000) + mul_fx(regional_mod, 15_000_000);
        self.resonance_filter.cutoff = clamp_fx(
            100_000_000 + mul_fx(SCALE - dark, 180_000_000) + mul_fx(nm, 60_000_000) + filter_mod,
            50_000_000,
            400_000_000,
        );
        self.resonance_filter.resonance = clamp_fx(
            200_000 + mul_fx(dark, 300_000) + mul_fx(regional_complexity, 100_000),
            100_000,
            700_000,
        );
    }

    /// Render one sample: advance the pattern cycle and the rhythm accent,
    /// sum the four soft-limited oscillators, filter, and soft-limit again.
    pub fn process(&mut self, sample_rate: i64) -> (r: i64)
        requires
            old(self).wf(),
            1_000 <= sample_rate <= 200_000,
        ensures
            final(self).wf(),
            forall|k: int|
                0 <= k < 4 ==> final(self).spec_base_frequency(k) == old(self).spec_base_frequency(
                    k,
                ),
            final(self).spec_timer() == final_timer_snapshot(
                old(self).spec_timer(),
                SCALE as int / sample_rate as int,
            ),
            final(self).spec_current_pattern() == final_pattern_snapshot(
                old(self).spec_timer(),
                SCALE as int / sample_rate as int,
                old(self).spec_current_pattern(),
            ),
            final(self).bass_modulation_patterns == old(self).bass_modulation_patterns,
            final(self).rhythm_trigger == spec_rhythm_next(
                old(self).rhythm_trigger as int,
                sample_rate as int,
            ),
            final(self).modulation_phase == (old(self).modulation_phase + 200_000int
                / sample_rate as int) % (SCALE as int),
            forall|k: int|
                0 <= k < 4 ==> #[trigger] final(self).oscillators[k] == spec_osc_advanced(
                    old(self).oscillators[k],
                    sample_rate as int,
                ),
            final(self).resonance_filter == spec_filter_next(
                old(self).resonance_filter,
                spec_drone_drive(*old(self), sample_rate as int),
            ),
            r == spec_soft_limit(
                final(self).resonance_filter.spec_state(3),
                700_000,
                200_000,
                850_000,
            ),
            -850_000 <= r <= 850_000,
    {
        proof {
            lemma_div_range(SCALE as int, sample_rate as int, 1_000_000, 1_000_000, 1_000, 200_000);
            lemma_div_range(
                2_500_000,
                sample_rate as int,
                2_500_000,
                2_500_000,
                1_000,
                200_000,
            );
        }
        self.pattern_transition_timer = self.pattern_transition_timer + SCALE / sample_rate;
        if self.pattern_transition_timer >= 4_000_000 {
            self.current_pattern = (self.current_pattern + 1) % 8;
            self.pattern_transition_timer = 0;
        }
        let pattern_intensity = self.bass_modulation_patterns[self.current_pattern];
        let pattern_transition = clamp_fx(self.pattern_transition_timer / 4, 0, SCALE);
        let next_pattern_intensity = self.bass_modulation_patterns[(self.current_pattern + 1) % 8];
        proof {
            lemma_mul_fx_bound(pattern_intensity as int, SCALE as int - pattern_transition as int, SCALE as int, SCALE as int);
            lemma_mul_fx_bound(next_pattern_intensity as int, pattern_transition as int, SCALE as int, SCALE as int);
        }
        let current_pattern_mod = clamp_fx(
            mul_fx(pattern_intensity, SCALE - pattern_transition) + mul_fx(
                next_pattern_intensity,
                pattern_transition,
            ),
            0,
            SCALE,
        );
        self.rhythm_trigger = self.rhythm_trigger + 2_500_000 / sample_rate;
        let rhythm_mod = if self.rhythm_trigger >= SCALE {
            self.rhythm_trigger = self.rhythm_trigger - SCALE;
            if self.rhythm_trigger >= SCALE {
                self.rhythm_trigger = 0;
            }
            proof {
                lemma_mul_fx_bound(current_pattern_mod as int, 300_000, SCALE as int, 300_000);
            }
            mul_fx(current_pattern_mod, 300_000)
        } else {
            0i64
        };
        proof {
            assert(current_pattern_mod == spec_pattern_mod(*old(self), sample_rate as int));
            assert(rhythm_mod == spec_rhythm_mod(*old(self), sample_rate as int));
            assert(self.rhythm_trigger == spec_rhythm_next(
                old(self).rhythm_trigger as int,
                sample_rate as int,
            ));
        }
        let ghost rm = rhythm_mod as int;
        let ghost cm = current_pattern_mod as int;
        let ghost ms = spec_sin_unit(old(self).modulation_phase as int);
        let mut output: i64 = 0;
        let mut i: usize = 0;
        while i < 4
            invariant
                self.wf(),
                forall|k: int|
                    0 <= k < 4 ==> self.spec_base_frequency(k) == old(self).spec_base_frequency(k),
                self.spec_timer() == final_timer_snapshot(old(self).spec_timer(), SCALE as int / sample_rate as int),
                self.spec_current_pattern() == final_pattern_snapshot(
                    old(self).spec_timer(),
                    SCALE as int / sample_rate as int,
                    old(self).spec_current_pattern(),
                ),
                self.bass_modulation_patterns == old(self).bass_modulation_patterns,
                self.modulation_phase == old(self).modulation_phase,
                self.resonance_filter == old(self).resonance_filter,
                self.rhythm_trigger == spec_rhythm_next(
                    old(self).rhythm_trigger as int,
                    sample_rate as int,
                ),
                1_000 <= sample_rate <= 200_000,
                0 <= rhythm_mod <= 300_000,
                0 <= current_pattern_mod <= SCALE,
                rm == rhythm_mod as int,
                cm == current_pattern_mod as int,
                ms == spec_sin_unit(old(self).modulation_phase as int),
                i <= 4,
                forall|k: int|
                    0 <= k < i ==> #[trigger] self.oscillators[k] == spec_osc_advanced(
                        old(self).oscillators[k],
                        sample_rate as int,
                    ),
                forall|k: int|
                    i <= k < 4 ==> #[trigger] self.oscillators[k] == old(self).oscillators[k],
                output == spec_osc_sum(old(self).oscillators, rm, cm, ms, i as int),
                -(i as int) * 850_000 <= output <= (i as int) * 850_000,
            decreases 4 - i,
        {
            let osc_phase = self.oscillators[i].phase;
            let mut osc_output: i64;
            if i == 0 {
                let sub_fundamental = sin_unit(osc_phase);
                let sub_harmonic2_sin = sin_unit((osc_phase * 2) % SCALE);
                proof {
                    lemma_mul_fx_bound(sub_harmonic2_sin as int, 300_000, SCALE as int, 300_000);
                }
                let sub_harmonic2 = mul_fx(sub_harmonic2_sin, 300_000);
                proof {
                    lemma_mul_fx_bound(
                        sub_fundamental as int + sub_harmonic2 as int,
                        SCALE as int + rhythm_mod as int,
                        1_300_000,
                        1_300_000,
                    );
                }
                osc_output = mul_fx(sub_fundamental + sub_harmonic2, SCALE + rhythm_mod);
            } else {
                let mut acc: i64 = 0;
                let mut h: usize = 0;
                while h < 8
                    invariant
                        self.wf(),
                        i < 4,
                        self.oscillators[i as int] == old(self).oscillators[i as int],
                        osc_phase == self.oscillators[i as int].phase,
                        0 <= current_pattern_mod <= SCALE,
                        cm == current_pattern_mod as int,
                        h <= 8,
                        acc == spec_harmonic_sum(old(self).oscillators[i as int], cm, h as int),
                        -(h as int) * SCALE <= acc <= (h as int) * SCALE,
                    decreases 8 - h,
                {
                    proof {
                        assert(0 <= osc_phase * ((h as i64) + 1) <= 8_000_000) by (nonlinear_arith)
                            requires
                                0 <= osc_phase < 1_000_000,
                                h < 8,
                        ;
                    }
                    let hp = (osc_phase * ((h as i64) + 1)) % SCALE;
                    let hs = sin_unit(hp);
                    let w = self.oscillators[i].harmonic_weights[h];
                    proof {
                        lemma_mul_fx_bound(hs as int, w as int, SCALE as int, SCALE as int);
                        lemma_mul_fx_bound(
                            spec_mul_fx(hs as int, w as int),
                            if h > 2 {
                                current_pattern_mod as int
                            } else {
                                SCALE as int
                            },
                            SCALE as int,
                            SCALE as int,
                        );
                    }
                    let harmonic_content = mul_fx(hs, w);
                    let pattern_influence = if h > 2 {
                        current_pattern_mod
                    } else {
                        SCALE
                    };
                    acc = acc + mul_fx(harmonic_content, pattern_influence);
                    h += 1;
                }
                osc_output = acc;
            }
            let mod_sin = sin_unit(self.modulation_phase);
            proof {
                lemma_mul_fx_bound(mod_sin as int, 50_000, SCALE as int, 50_000);
                lemma_mul_fx_bound(
                    spec_mul_fx(mod_sin as int, 50_000),
                    current_pattern_mod as int,
                    50_000,
                    SCALE as int,
                );
            }
            let mod_amount = mul_fx(mul_fx(mod_sin, 50_000), current_pattern_mod);
            proof {
                lemma_mul_fx_bound(
                    self.oscillators[i as int].amplitude as int,
                    SCALE as int + mod_amount as int,
                    SCALE as int,
                    1_050_000,
                );
                lemma_mul_fx_bound(osc_output as int, spec_mul_fx(self.oscillators[i as int].amplitude as int, SCALE as int + mod_amount as int), 8_000_000, 1_050_000);
            }
            let level = mul_fx(self.oscillators[i].amplitude, SCALE + mod_amount);
            osc_output = mul_fx(osc_output, level);
            let limited = soft_limit(osc_output, 700_000, 200_000, 850_000);
            proof {
                assert(limited == spec_osc_out(old(self).oscillators[i as int], i as int, rm, cm, ms));
            }
            output = output + limited;
            let osc_freq = self.oscillators[i].frequency;
            proof {
                lemma_div_range(
                    osc_freq as int,
                    sample_rate as int,
                    0,
                    MAX_FREQ as int,
                    1_000,
                    200_000,
                );
                vstd::arithmetic::div_mod::lemma_mod_pos_bound(
                    (osc_freq as int) / (sample_rate as int),
                    SCALE as int,
                );
            }
            let inc = (osc_freq / sample_rate) % SCALE;
            let new_phase = (self.oscillators[i].phase + inc) % SCALE;
            self.oscillators[i].phase = new_phase;
            i += 1;
        }
        self.modulation_phase = (self.modulation_phase + 200_000 / sample_rate) % SCALE;
        proof {
            lemma_mul_fx_bound(output as int, 150_000, 3_400_000, 150_000);
        }
        let driven = mul_fx(output, 150_000);
        let drive_in = clamp_fx(driven, -SCALE, SCALE);
        proof {
            assert(drive_in == spec_drone_drive(*old(self), sample_rate as int));
        }
        let filtered = self.resonance_filter.process(drive_in);
        soft_limit(filtered, 700_000, 200_000, 850_000)
    }
}

/// Reciprocal square root of `h + 1` in micro-units: the base harmonic
/// weight of harmonic `h`.
fn inv_sqrt_weight(h: usize) -> (r: i64)
    requires
        h < 8,
    ensures
        r == spec_inv_sqrt(h as int),
        353_553 <= r <= 1_000_000,
{
    if h == 0 {
        1_000_000
    } else if h == 1 {
        707_107
    } else if h == 2 {
        577_350
    } else if h == 3 {
        500_000
    } else if h == 4 {
        447_214
    } else if h == 5 {
        408_248
    } else if h == 6 {
        377_964
    } else {
        353_553
    }
}

/// Timer value after one processing step.
pub open spec fn final_timer_snapshot(timer: int, inc: int) -> int {
    if timer + inc >= 4_000_000 {
        0
    } else {
        timer + inc
    }
}

/// Pattern index after one processing step.
pub open spec fn final_pattern_snapshot(timer: int, inc: int, pattern: int) -> int {
    if timer + inc >= 4_000_000 {
        (pattern + 1) % 8
    } else {
        pattern
    }
}

} // verus!
