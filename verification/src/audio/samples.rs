//! Procedurally synthesised lute and bell samples with a bounded voice pool.
//!
//! All eight sample buffers are rendered once at construction. Triggering a
//! note admits at most [`MAX_VOICES`] concurrent voices — the admission
//! control that keeps polyphony, and with it CPU cost and clipping, bounded.

use vstd::prelude::*;

use crate::audio::fixed::{
    clamp_fx, div_fx, div_trunc, mul_fx, sin_unit, soft_limit, spec_clamp, spec_div_fx,
    spec_mul_fx, spec_sin_unit, spec_soft_limit, lemma_div_trunc_bound, lemma_mul_fx_bound, SCALE,
};
use crate::audio::rng::{Lcg, spec_lcg_step, spec_lcg_unit};

verus! {

/// Hard cap on concurrently playing voices.
pub const MAX_VOICES: usize = 6;

/// A rendered sample buffer and the pitch it was rendered at.
pub struct SampleData {
    data: Vec<i64>,
    base_frequency: i64,
}

impl SampleData {
    /// The rendered samples.
    pub closed spec fn spec_data(&self) -> Seq<i64> {
        self.data@
    }

    /// The pitch the buffer was rendered at, in micro-hertz.
    pub closed spec fn spec_base(&self) -> int {
        self.base_frequency as int
    }

    /// Valid buffer: non-empty, bounded samples, sensible base pitch.
    pub open spec fn wf(&self) -> bool {
        &&& 1 <= self.spec_data().len() <= 1_000_000_000
        &&& forall|k: int|
            0 <= k < self.spec_data().len() ==> -SCALE <= #[trigger] self.spec_data()[k] <= SCALE
        &&& 100_000_000 <= self.spec_base() <= 20_000_000_000
    }
}

/// One playing note: a borrowed sample buffer, a playback position and an
/// exponentially decaying amplitude.
#[derive(Copy, Clone)]
pub struct PlayingVoice {
    /// Index of the sample buffer in its bank.
    pub sample: usize,
    /// Whether the buffer lives in the bell bank rather than the lute bank.
    pub from_bells: bool,
    /// Playback position in micro-samples.
    pub position: i64,
    /// Playback speed in micro-units: `SCALE` plays at the rendered pitch.
    pub pitch_ratio: i64,
    /// Current amplitude in micro-units, decaying every call.
    pub amplitude: i64,
    /// Per-call amplitude multiplier, at most one unit.
    pub decay_rate: i64,
}

impl PlayingVoice {
    /// Valid voice for banks of `n_lutes` and `n_bells` buffers.
    pub open spec fn wf(&self, n_lutes: int, n_bells: int) -> bool {
        &&& if self.from_bells {
            self.sample < n_bells
        } else {
            self.sample < n_lutes
        }
        &&& 0 <= self.position <= 2_000_000_000_000_000
        &&& 10_000 <= self.pitch_ratio <= 100_000_000
        &&& 0 <= self.amplitude <= SCALE
        &&& 900_000 <= self.decay_rate <= SCALE
    }
}

/// Buffer index a voice currently reads from.
pub open spec fn spec_voice_idx(v: PlayingVoice) -> int {
    v.position as int / SCALE as int
}

/// The voice advanced by one call: position moves by the pitch ratio, the
/// amplitude decays.
pub open spec fn spec_voice_advanced(v: PlayingVoice) -> PlayingVoice {
    PlayingVoice {
        position: (v.position + v.pitch_ratio) as i64,
        amplitude: spec_mul_fx(v.amplitude as int, v.decay_rate as int) as i64,
        ..v
    }
}

/// The buffer a voice plays, out of the two banks.
pub open spec fn spec_voice_data(
    lutes: Seq<SampleData>,
    bells: Seq<SampleData>,
    v: PlayingVoice,
) -> Seq<i64> {
    if v.from_bells {
        bells[v.sample as int].spec_data()
    } else {
        lutes[v.sample as int].spec_data()
    }
}

/// What one voice adds to the mix under polyphony gain `g`; an exhausted
/// voice adds nothing.
pub open spec fn spec_voice_contrib(
    lutes: Seq<SampleData>,
    bells: Seq<SampleData>,
    v: PlayingVoice,
    g: int,
) -> int {
    let d = spec_voice_data(lutes, bells, v);
    if spec_voice_idx(v) < d.len() {
        spec_mul_fx(spec_mul_fx(d[spec_voice_idx(v)] as int, v.amplitude as int), g)
    } else {
        0
    }
}

/// Sum of the first `n` voices' contributions.
pub open spec fn spec_voices_out(
    lutes: Seq<SampleData>,
    bells: Seq<SampleData>,
    vs: Seq<PlayingVoice>,
    n: int,
    g: int,
) -> int
    decreases n,
{
    if n <= 0 {
        0
    } else {
        spec_voices_out(lutes, bells, vs, n - 1, g) + spec_voice_contrib(
            lutes,
            bells,
            vs[n - 1],
            g,
        )
    }
}

/// Whether a voice survives one processing step: still inside its buffer and
/// still audible after decay.
pub open spec fn spec_voice_kept(
    lutes: Seq<SampleData>,
    bells: Seq<SampleData>,
    v: PlayingVoice,
) -> bool {
    &&& spec_voice_idx(v) < spec_voice_data(lutes, bells, v).len()
    &&& spec_voice_advanced(v).amplitude > 1_000
}

/// The voices that remain after one processing step, advanced.
pub open spec fn spec_voices_retained(
    lutes: Seq<SampleData>,
    bells: Seq<SampleData>,
    vs: Seq<PlayingVoice>,
    n: int,
) -> Seq<PlayingVoice>
    decreases n,
{
    if n <= 0 {
        Seq::empty()
    } else {
        let prefix = spec_voices_retained(lutes, bells, vs, n - 1);
        if spec_voice_kept(lutes, bells, vs[n - 1]) {
            prefix.push(spec_voice_advanced(vs[n - 1]))
        } else {
            prefix
        }
    }
}

/// Polyphony gain for `n` active voices: `1 / (1 + 0.15 n)`.
pub open spec fn spec_polyphony_gain(n: int) -> int {
    if n > 0 {
        spec_div_fx(SCALE as int, SCALE as int + n * 150_000)
    } else {
        SCALE as int
    }
}

/// Envelope after `k` per-sample decay steps.
pub open spec fn spec_env_pow(decay: int, k: int) -> int
    decreases k,
{
    if k <= 0 {
        SCALE as int
    } else {
        spec_mul_fx(spec_env_pow(decay, k - 1), decay)
    }
}

/// Per-sample phase increment of a rendered buffer.
pub open spec fn spec_phase_inc(frequency: int, sample_rate: int) -> int {
    (frequency / sample_rate) % (SCALE as int)
}

/// Sample `k` of a lute buffer: four harmonics of the accumulated phase
/// under the double exponential envelope, at level 0.3.
pub open spec fn spec_lute_sample(frequency: int, sample_rate: int, k: int) -> int {
    let inc = spec_phase_inc(frequency, sample_rate);
    let decay = SCALE as int - 3_800_000int / sample_rate;
    let p = (k * inc) % (SCALE as int);
    let sum = spec_sin_unit(p) + spec_mul_fx(spec_sin_unit((p * 2) % (SCALE as int)), 600_000)
        + spec_mul_fx(spec_sin_unit((p * 3) % (SCALE as int)), 300_000) + spec_mul_fx(
        spec_sin_unit((p * 4) % (SCALE as int)),
        150_000,
    );
    spec_clamp(
        spec_mul_fx(spec_mul_fx(sum, spec_env_pow(decay, k)), 300_000),
        -(SCALE as int),
        SCALE as int,
    )
}

/// Render a plucked-string buffer: four harmonics under a double
/// exponential envelope (attack 3/s, sustain 0.8/s).
fn generate_lute_sample(frequency: i64, duration: i64, sample_rate: i64) -> (r: SampleData)
    requires
        100_000_000 <= frequency <= 20_000_000_000,
        1 <= duration <= 10,
        1_000 <= sample_rate <= 200_000,
    ensures
        r.wf(),
        r.spec_base() == frequency,
        r.spec_data().len() == sample_rate * duration,
        forall|k: int|
            0 <= k < r.spec_data().len() ==> #[trigger] r.spec_data()[k] == spec_lute_sample(
                frequency as int,
                sample_rate as int,
                k,
            ),
{
    proof {
        assert(1_000 <= sample_rate * duration <= 2_000_000) by (nonlinear_arith)
            requires
                1 <= duration <= 10,
                1_000 <= sample_rate <= 200_000,
        ;
        crate::audio::fixed::lemma_div_range(3_800_000, sample_rate as int, 3_800_000, 3_800_000, 1_000, 200_000);
        crate::audio::fixed::lemma_div_range(
            frequency as int,
            sample_rate as int,
            0,
            20_000_000_000,
            1_000,
            200_000,
        );
        vstd::arithmetic::div_mod::lemma_mod_pos_bound(
            (frequency as int) / (sample_rate as int),
            SCALE as int,
        );
    }
    let length = (sample_rate * duration) as usize;
    let inc = (frequency / sample_rate) % SCALE;
    let decay = SCALE - 3_800_000 / sample_rate;
    let mut data: Vec<i64> = Vec::new();
    let mut phase: i64 = 0;
    let mut env: i64 = SCALE;
    let mut i: usize = 0;
    while i < length
        invariant
            length == sample_rate * duration,
            1_000 <= sample_rate <= 200_000,
            inc as int == spec_phase_inc(frequency as int, sample_rate as int),
            decay as int == SCALE as int - 3_800_000int / sample_rate as int,
            0 <= inc < SCALE,
            900_000 <= decay < SCALE,
            phase as int == ((i as int) * (inc as int)) % (SCALE as int),
            env as int == spec_env_pow(decay as int, i as int),
            0 <= phase < SCALE,
            0 <= env <= SCALE,
            i <= length,
            data.len() == i,
            forall|k: int| 0 <= k < i ==> -SCALE <= #[trigger] data[k] <= SCALE,
            forall|k: int|
                0 <= k < i ==> #[trigger] data[k] == spec_lute_sample(
                    frequency as int,
                    sample_rate as int,
                    k,
                ),
        decreases length - i,
    {
        let fundamental = sin_unit(phase);
        let second = mul_fx(sin_unit((phase * 2) % SCALE), 600_000);
        let third = mul_fx(sin_unit((phase * 3) % SCALE), 300_000);
        let fourth = mul_fx(sin_unit((phase * 4) % SCALE), 150_000);
        proof {
            lemma_mul_fx_bound(spec_sin_unit((phase * 2) % SCALE as int), 600_000, SCALE as int, 600_000);
            lemma_mul_fx_bound(spec_sin_unit((phase * 3) % SCALE as int), 300_000, SCALE as int, 300_000);
            lemma_mul_fx_bound(spec_sin_unit((phase * 4) % SCALE as int), 150_000, SCALE as int, 150_000);
            lemma_sin_mod_bounded((phase * 2) % SCALE as int);
            lemma_sin_mod_bounded((phase * 3) % SCALE as int);
            lemma_sin_mod_bounded((phase * 4) % SCALE as int);
        }
        let sum = fundamental + second + third + fourth;
        proof {
            lemma_mul_fx_bound(sum as int, env as int, 2_050_000, SCALE as int);
        }
        let shaped = mul_fx(sum, env);
        proof {
            lemma_mul_fx_bound(shaped as int, 300_000, 2_050_000, 300_000);
        }
        let sample = mul_fx(shaped, 300_000);
        data.push(clamp_fx(sample, -SCALE, SCALE));
        phase = (phase + inc) % SCALE;
        proof {
            lemma_mul_fx_bound(env as int, decay as int, SCALE as int, SCALE as int);
            assert(spec_mul_fx(env as int, decay as int) >= 0) by {
                assert((env as int) * (decay as int) >= 0) by (nonlinear_arith)
                    requires
                        env >= 0,
                        decay >= 0,
                ;
                vstd::arithmetic::div_mod::lemma_div_pos_is_pos(
                    (env as int) * (decay as int),
                    SCALE as int,
                );
            }
        }
        env = mul_fx(env, decay);
        proof {
            let a = (i as int) * (inc as int);
            vstd::arithmetic::div_mod::lemma_fundamental_div_mod(a, SCALE as int);
            vstd::arithmetic::div_mod::lemma_mod_multiples_vanish(
                a / (SCALE as int),
                a % (SCALE as int) + inc as int,
                SCALE as int,
            );
            assert(((i as int) + 1) * (inc as int) == a + inc as int) by (nonlinear_arith)
                requires
                    a == (i as int) * (inc as int),
            ;
        }
        i += 1;
    }
    SampleData { data, base_frequency: frequency }
}

/// A value reduced modulo [`SCALE`] stays inside one wave cycle.
proof fn lemma_sin_mod_bounded(p: int)
    ensures
        -SCALE <= spec_sin_unit(p) <= SCALE,
{
    crate::audio::fixed::lemma_sin_unit_bounded(p);
}

/// Partial frequency ratio `p` of a bell, in micro-units.
pub open spec fn spec_bell_ratio(p: int) -> int {
    if p <= 0 {
        1_000_000
    } else if p == 1 {
        2_760_000
    } else if p == 2 {
        5_400_000
    } else if p == 3 {
        8_930_000
    } else {
        13_340_000
    }
}

/// Partial level `p` of a bell, in micro-units.
pub open spec fn spec_bell_amp(p: int) -> int {
    if p <= 0 {
        1_000_000
    } else if p == 1 {
        600_000
    } else if p == 2 {
        250_000
    } else if p == 3 {
        120_000
    } else {
        60_000
    }
}

/// Phase increment of bell partial `p`.
pub open spec fn spec_bell_inc(frequency: int, sample_rate: int, p: int) -> int {
    (spec_mul_fx(frequency, spec_bell_ratio(p)) / sample_rate) % (SCALE as int)
}

/// Per-sample decay multiplier of bell partial `p`.
pub open spec fn spec_bell_decay(frequency: int, sample_rate: int, p: int) -> int {
    SCALE as int - (300_000 + spec_mul_fx(spec_bell_ratio(p), 100_000)) / sample_rate
}

/// Sum of the first `n` bell partials at sample `k`.
pub open spec fn spec_bell_partials(frequency: int, sample_rate: int, k: int, n: int) -> int
    decreases n,
{
    if n <= 0 {
        0
    } else {
        let p = n - 1;
        let ph = (k * spec_bell_inc(frequency, sample_rate, p)) % (SCALE as int);
        spec_bell_partials(frequency, sample_rate, k, n - 1) + spec_mul_fx(
            spec_mul_fx(spec_sin_unit(ph), spec_bell_amp(p)),
            spec_env_pow(spec_bell_decay(frequency, sample_rate, p), k),
        )
    }
}

/// The squared 10 ms attack ramp at sample `k`.
pub open spec fn spec_bell_attack(sample_rate: int, k: int) -> int {
    if k < sample_rate / 100 {
        let q = spec_clamp(k * 100_000_000 / sample_rate, 0, SCALE as int);
        spec_mul_fx(q, q)
    } else {
        SCALE as int
    }
}

/// Sample `k` of a bell buffer: the five decaying partials under the
/// attack ramp, at level 0.2.
pub open spec fn spec_bell_sample(frequency: int, sample_rate: int, k: int) -> int {
    spec_clamp(
        spec_mul_fx(
            spec_mul_fx(
                spec_bell_partials(frequency, sample_rate, k, 5),
                spec_bell_attack(sample_rate, k),
            ),
            200_000,
        ),
        -(SCALE as int),
        SCALE as int,
    )
}

/// Render a bell buffer: five inharmonic partials, each with its own decay,
/// under a 10 ms squared attack ramp.
fn generate_bell_sample(frequency: i64, duration: i64, sample_rate: i64) -> (r: SampleData)
    requires
        100_000_000 <= frequency <= 1_000_000_000,
        1 <= duration <= 10,
        1_000 <= sample_rate <= 200_000,
    ensures
        r.wf(),
        r.spec_base() == frequency,
        r.spec_data().len() == sample_rate * duration,
        forall|k: int|
            0 <= k < r.spec_data().len() ==> #[trigger] r.spec_data()[k] == spec_bell_sample(
                frequency as int,
                sample_rate as int,
                k,
            ),
{
    proof {
        assert(1_000 <= sample_rate * duration <= 2_000_000) by (nonlinear_arith)
            requires
                1 <= duration <= 10,
                1_000 <= sample_rate <= 200_000,
        ;
    }
    let length = (sample_rate * duration) as usize;
    let ratios: [i64; 5] = [1_000_000, 2_760_000, 5_400_000, 8_930_000, 13_340_000];
    let amps: [i64; 5] = [1_000_000, 600_000, 250_000, 120_000, 60_000];
    let mut incs: [i64; 5] = [0i64; 5];
    let mut decays: [i64; 5] = [0i64; 5];
    let mut phases: [i64; 5] = [0i64; 5];
    let mut envs: [i64; 5] = [SCALE; 5];
    let mut p: usize = 0;
    while p < 5
        invariant
            100_000_000 <= frequency <= 1_000_000_000,
            1_000 <= sample_rate <= 200_000,
            p <= 5,
            forall|k: int| 0 <= k < 5 ==> #[trigger] ratios[k] == spec_bell_ratio(k),
            forall|k: int| 0 <= k < 5 ==> 1_000_000 <= #[trigger] ratios[k] <= 13_340_000,
            forall|k: int|
                0 <= k < p ==> #[trigger] incs[k] == spec_bell_inc(
                    frequency as int,
                    sample_rate as int,
                    k,
                ),
            forall|k: int|
                0 <= k < p ==> #[trigger] decays[k] == spec_bell_decay(
                    frequency as int,
                    sample_rate as int,
                    k,
                ),
            forall|k: int| 0 <= k < p ==> 0 <= #[trigger] incs[k] < SCALE,
            forall|k: int| 0 <= k < p ==> 900_000 <= #[trigger] decays[k] < SCALE,
        decreases 5 - p,
    {
        proof {
            lemma_mul_fx_bound(frequency as int, ratios[p as int] as int, 1_000_000_000, 13_340_000);
            assert(spec_mul_fx(frequency as int, ratios[p as int] as int) >= 0) by {
                assert((frequency as int) * (ratios[p as int] as int) >= 0) by (nonlinear_arith)
                    requires
                        frequency >= 0,
                        ratios[p as int] >= 0,
                ;
                vstd::arithmetic::div_mod::lemma_div_pos_is_pos(
                    (frequency as int) * (ratios[p as int] as int),
                    SCALE as int,
                );
            }
            lemma_mul_fx_bound(ratios[p as int] as int, 100_000, 13_340_000, 100_000);
            assert(spec_mul_fx(ratios[p as int] as int, 100_000) >= 0) by {
                assert((ratios[p as int] as int) * 100_000 >= 0) by (nonlinear_arith)
                    requires
                        ratios[p as int] >= 0,
                ;
                vstd::arithmetic::div_mod::lemma_div_pos_is_pos(
                    (ratios[p as int] as int) * 100_000,
                    SCALE as int,
                );
            }
        }
        let partial_freq = mul_fx(frequency, ratios[p]);
        proof {
            crate::audio::fixed::lemma_div_range(
                partial_freq as int,
                sample_rate as int,
                0,
                13_340_000_000,
                1_000,
                200_000,
            );
            vstd::arithmetic::div_mod::lemma_mod_pos_bound(
                (partial_freq as int) / (sample_rate as int),
                SCALE as int,
            );
        }
        incs[p] = (partial_freq / sample_rate) % SCALE;
        let decay_amount = 300_000 + mul_fx(ratios[p], 100_000);
        proof {
            crate::audio::fixed::lemma_div_range(
                decay_amount as int,
                sample_rate as int,
                300_000,
                1_634_000,
                1_000,
                200_000,
            );
        }
        let dec_per_sample = decay_amount / sample_rate;
        decays[p] = SCALE - dec_per_sample;
        p += 1;
    }
    let attack_len = (sample_rate / 100) as usize;
    let mut data: Vec<i64> = Vec::new();
    let mut i: usize = 0;
    while i < length
        invariant
            length == sample_rate * duration,
            100_000_000 <= frequency <= 1_000_000_000,
            1_000 <= sample_rate <= 200_000,
            attack_len == sample_rate / 100,
            forall|k: int|
                0 <= k < 5 ==> #[trigger] incs[k] == spec_bell_inc(
                    frequency as int,
                    sample_rate as int,
                    k,
                ),
            forall|k: int|
                0 <= k < 5 ==> #[trigger] decays[k] == spec_bell_decay(
                    frequency as int,
                    sample_rate as int,
                    k,
                ),
            forall|k: int| 0 <= k < 5 ==> #[trigger] amps[k] == spec_bell_amp(k),
            forall|k: int| 0 <= k < 5 ==> 0 <= #[trigger] incs[k] < SCALE,
            forall|k: int| 0 <= k < 5 ==> 900_000 <= #[trigger] decays[k] < SCALE,
            forall|k: int|
                0 <= k < 5 ==> #[trigger] phases[k] == ((i as int) * (incs[k] as int)) % (
                SCALE as int),
            forall|k: int|
                0 <= k < 5 ==> #[trigger] envs[k] == spec_env_pow(decays[k] as int, i as int),
            forall|k: int| 0 <= k < 5 ==> 0 <= #[trigger] phases[k] < SCALE,
            forall|k: int| 0 <= k < 5 ==> 0 <= #[trigger] envs[k] <= SCALE,
            forall|k: int| 0 <= k < 5 ==> 60_000 <= #[trigger] amps[k] <= 1_000_000,
            i <= length,
            data.len() == i,
            forall|k: int| 0 <= k < i ==> -SCALE <= #[trigger] data[k] <= SCALE,
            forall|k: int|
                0 <= k < i ==> #[trigger] data[k] == spec_bell_sample(
                    frequency as int,
                    sample_rate as int,
                    k,
                ),
        decreases length - i,
    {
        let mut sum: i64 = 0;
        let mut p: usize = 0;
        while p < 5
            invariant
                100_000_000 <= frequency <= 1_000_000_000,
                1_000 <= sample_rate <= 200_000,
                forall|k: int|
                    0 <= k < 5 ==> #[trigger] incs[k] == spec_bell_inc(
                        frequency as int,
                        sample_rate as int,
                        k,
                    ),
                forall|k: int|
                    0 <= k < 5 ==> #[trigger] decays[k] == spec_bell_decay(
                        frequency as int,
                        sample_rate as int,
                        k,
                    ),
                forall|k: int| 0 <= k < 5 ==> #[trigger] amps[k] == spec_bell_amp(k),
                forall|k: int| 0 <= k < 5 ==> 0 <= #[trigger] incs[k] < SCALE,
                forall|k: int| 0 <= k < 5 ==> 900_000 <= #[trigger] decays[k] < SCALE,
                forall|k: int|
                    0 <= k < p ==> #[trigger] phases[k] == (((i as int) + 1) * (incs[k] as int)) % (
                    SCALE as int),
                forall|k: int|
                    p <= k < 5 ==> #[trigger] phases[k] == ((i as int) * (incs[k] as int)) % (
                    SCALE as int),
                forall|k: int|
                    0 <= k < p ==> #[trigger] envs[k] == spec_env_pow(
                        decays[k] as int,
                        i as int + 1,
                    ),
                forall|k: int|
                    p <= k < 5 ==> #[trigger] envs[k] == spec_env_pow(decays[k] as int, i as int),
                forall|k: int| 0 <= k < 5 ==> 0 <= #[trigger] phases[k] < SCALE,
                forall|k: int| 0 <= k < 5 ==> 0 <= #[trigger] envs[k] <= SCALE,
                forall|k: int| 0 <= k < 5 ==> 60_000 <= #[trigger] amps[k] <= 1_000_000,
                p <= 5,
                sum == spec_bell_partials(frequency as int, sample_rate as int, i as int, p as int),
                -(p as int) * SCALE <= sum <= (p as int) * SCALE,
            decreases 5 - p,
        {
            let s = sin_unit(phases[p]);
            proof {
                lemma_mul_fx_bound(spec_sin_unit(phases[p as int] as int), amps[p as int] as int, SCALE as int, SCALE as int);
                lemma_mul_fx_bound(
                    spec_mul_fx(spec_sin_unit(phases[p as int] as int), amps[p as int] as int),
                    envs[p as int] as int,
                    SCALE as int,
                    SCALE as int,
                );
                lemma_mul_fx_bound(envs[p as int] as int, decays[p as int] as int, SCALE as int, SCALE as int);
                assert(spec_mul_fx(envs[p as int] as int, decays[p as int] as int) >= 0) by {
                    assert((envs[p as int] as int) * (decays[p as int] as int) >= 0)
                        by (nonlinear_arith)
                        requires
                            envs[p as int] >= 0,
                            decays[p as int] >= 0,
                    ;
                    vstd::arithmetic::div_mod::lemma_div_pos_is_pos(
                        (envs[p as int] as int) * (decays[p as int] as int),
                        SCALE as int,
                    );
                }
            }
            let part = mul_fx(mul_fx(s, amps[p]), envs[p]);
            sum = sum + part;
            proof {
                let a = (i as int) * (incs[p as int] as int);
                vstd::arithmetic::div_mod::lemma_fundamental_div_mod(a, SCALE as int);
                vstd::arithmetic::div_mod::lemma_mod_multiples_vanish(
                    a / (SCALE as int),
                    a % (SCALE as int) + incs[p as int] as int,
                    SCALE as int,
                );
                assert(((i as int) + 1) * (incs[p as int] as int) == a + incs[p as int] as int)
                    by (nonlinear_arith)
                    requires
                        a == (i as int) * (incs[p as int] as int),
                ;
            }
            phases[p] = (phases[p] + incs[p]) % SCALE;
            envs[p] = mul_fx(envs[p], decays[p]);
            p += 1;
        }
        let attack = if i < attack_len {
            let q = ((i as i64) * 100_000_000) / sample_rate;
            let qc = clamp_fx(q, 0, SCALE);
            proof {
                lemma_mul_fx_bound(qc as int, qc as int, SCALE as int, SCALE as int);
                assert((qc as int) * (qc as int) >= 0) by (nonlinear_arith);
                vstd::arithmetic::div_mod::lemma_div_pos_is_pos(
                    (qc as int) * (qc as int),
                    SCALE as int,
                );
            }
            mul_fx(qc, qc)
        } else {
            SCALE
        };
        proof {
            lemma_mul_fx_bound(sum as int, attack as int, 5_000_000, SCALE as int);
            lemma_mul_fx_bound(
                spec_mul_fx(sum as int, attack as int),
                200_000,
                5_000_000,
                200_000,
            );
        }
        proof {
            if i < attack_len {
                crate::audio::fixed::lemma_div_range(
                    (i as int) * 100_000_000,
                    sample_rate as int,
                    0,
                    200_000_000_000,
                    1_000,
                    200_000,
                );
            }
            assert(attack as int == spec_bell_attack(sample_rate as int, i as int));
        }
        let sample = mul_fx(mul_fx(sum, attack), 200_000);
        data.push(clamp_fx(sample, -SCALE, SCALE));
        i += 1;
    }
    SampleData { data, base_frequency: frequency }
}

/// The exact effect of starting a lute voice at `note` and `velocity` on a
/// bank with lute buffers `lutes`: at the voice cap nothing changes;
/// otherwise exactly one fully-determined voice is appended (closest
/// buffer, three seeded draws for pitch, decay and velocity variation).
pub open spec fn spec_lute_trigger(
    lutes: Seq<SampleData>,
    pre_voices: Seq<PlayingVoice>,
    pre_rng: u64,
    post_voices: Seq<PlayingVoice>,
    post_rng: u64,
    note: int,
    velocity: int,
) -> bool {
    if pre_voices.len() >= MAX_VOICES {
        post_voices == pre_voices && post_rng == pre_rng
    } else {
        let s0 = pre_rng;
        let s1 = spec_lcg_step(s0);
        let s2 = spec_lcg_step(s1);
        let r1 = spec_lcg_unit(s0);
        let r2 = spec_lcg_unit(s1);
        let r3 = spec_lcg_unit(s2);
        let v = post_voices.last();
        &&& post_rng == spec_lcg_step(s2)
        &&& post_voices == pre_voices.push(v)
        &&& !v.from_bells
        &&& v.sample < lutes.len()
        &&& (forall|j: int|
            0 <= j < lutes.len() ==> spec_pitch_dist(lutes[v.sample as int].spec_base(), note)
                <= spec_pitch_dist((#[trigger] lutes[j]).spec_base(), note))
        &&& v.position == 0
        &&& v.pitch_ratio == spec_clamp(
            spec_mul_fx(
                spec_div_fx(note, lutes[v.sample as int].spec_base()),
                SCALE as int + div_trunc(r1 - 500_000, 100),
            ),
            10_000,
            100_000_000,
        )
        &&& v.decay_rate == 998_000 + r2 / 500
        &&& v.amplitude == spec_mul_fx(
            spec_mul_fx(
                spec_clamp(velocity, 0, SCALE as int),
                600_000 + spec_mul_fx(r3, 300_000),
            ),
            700_000,
        )
    }
}

/// The exact effect of starting a bell voice, with the bell bank's gentler
/// pitch variation and slower decay.
pub open spec fn spec_bell_trigger(
    bells: Seq<SampleData>,
    pre_voices: Seq<PlayingVoice>,
    pre_rng: u64,
    post_voices: Seq<PlayingVoice>,
    post_rng: u64,
    note: int,
    velocity: int,
) -> bool {
    if pre_voices.len() >= MAX_VOICES {
        post_voices == pre_voices && post_rng == pre_rng
    } else {
        let s0 = pre_rng;
        let s1 = spec_lcg_step(s0);
        let s2 = spec_lcg_step(s1);
        let r1 = spec_lcg_unit(s0);
        let r2 = spec_lcg_unit(s1);
        let r3 = spec_lcg_unit(s2);
        let v = post_voices.last();
        &&& post_rng == spec_lcg_step(s2)
        &&& post_voices == pre_voices.push(v)
        &&& v.from_bells
        &&& v.sample < bells.len()
        &&& (forall|j: int|
            0 <= j < bells.len() ==> spec_pitch_dist(bells[v.sample as int].spec_base(), note)
                <= spec_pitch_dist((#[trigger] bells[j]).spec_base(), note))
        &&& v.position == 0
        &&& v.pitch_ratio == spec_clamp(
            spec_mul_fx(
                spec_div_fx(note, bells[v.sample as int].spec_base()),
                SCALE as int + div_trunc(r1 - 500_000, 125),
            ),
            10_000,
            100_000_000,
        )
        &&& v.decay_rate == 999_900 + r2 / 10_000
        &&& v.amplitude == spec_mul_fx(
            spec_mul_fx(
                spec_clamp(velocity, 0, SCALE as int),
                500_000 + spec_mul_fx(r3, 400_000),
            ),
            600_000,
        )
    }
}

/// Procedurally rendered lute and bell buffers with a bounded voice pool.
pub struct MedievalSampleBank {
    lute_samples: Vec<SampleData>,
    bell_samples: Vec<SampleData>,
    current_voices: Vec<PlayingVoice>,
    rng: Lcg,
    sample_rate: i64,
    last_output: i64,
}

impl MedievalSampleBank {
    /// The lute buffers.
    pub closed spec fn spec_lutes(&self) -> Seq<SampleData> {
        self.lute_samples@
    }

    /// The bell buffers.
    pub closed spec fn spec_bells(&self) -> Seq<SampleData> {
        self.bell_samples@
    }

    /// The live voices.
    pub closed spec fn spec_voices(&self) -> Seq<PlayingVoice> {
        self.current_voices@
    }

    /// The generator state driving the micro-variations.
    pub closed spec fn spec_rng(&self) -> u64 {
        self.rng.spec_state()
    }

    /// The sample the last processing step produced (zero before the
    /// first); the orchestrator's output contract is anchored on it.
    pub closed spec fn spec_last_output(&self) -> int {
        self.last_output as int
    }

    /// Well-formed bank: four buffers per bank, all valid, and never more
    /// than [`MAX_VOICES`] voices.
    pub open spec fn wf(&self) -> bool {
        &&& self.spec_lutes().len() == 4
        &&& self.spec_bells().len() == 4
        &&& forall|k: int| 0 <= k < 4 ==> (#[trigger] self.spec_lutes()[k]).wf()
        &&& forall|k: int| 0 <= k < 4 ==> (#[trigger] self.spec_bells()[k]).wf()
        &&& self.spec_voices().len() <= MAX_VOICES
        &&& forall|k: int|
            0 <= k < self.spec_voices().len() ==> (#[trigger] self.spec_voices()[k]).wf(4, 4)
    }

    /// Number of live voices; never exceeds [`MAX_VOICES`].
    pub fn voice_count(&self) -> (r: usize)
        requires
            self.wf(),
        ensures
            r == self.spec_voices().len(),
            r <= MAX_VOICES,
    {
        self.current_voices.len()
    }

    /// A bank rendered at `sample_rate` with its micro-variation generator
    /// seeded by `seed`: four lute and four bell buffers, no live voices.
    pub fn new(sample_rate: i64, seed: u64) -> (r: Self)
        requires
            1_000 <= sample_rate <= 200_000,
        ensures
            r.wf(),
            r.spec_voices().len() == 0,
            r.spec_rng() == seed,
            r.spec_last_output() == 0,
            forall|k: int| 0 <= k < 4 ==> (#[trigger] r.spec_lutes()[k]).spec_base() == spec_lute_base(k),
            forall|k: int| 0 <= k < 4 ==> (#[trigger] r.spec_bells()[k]).spec_base() == spec_bell_base(k),
    {
        let mut lute_samples: Vec<SampleData> = Vec::new();
        lute_samples.push(generate_lute_sample(220_000_000, 2, sample_rate));
        lute_samples.push(generate_lute_sample(293_660_000, 2, sample_rate));
        lute_samples.push(generate_lute_sample(369_990_000, 2, sample_rate));
        lute_samples.push(generate_lute_sample(440_000_000, 2, sample_rate));
        let mut bell_samples: Vec<SampleData> = Vec::new();
        bell_samples.push(generate_bell_sample(130_810_000, 4, sample_rate));
        bell_samples.push(generate_bell_sample(164_810_000, 4, sample_rate));
        bell_samples.push(generate_bell_sample(196_000_000, 4, sample_rate));
        bell_samples.push(generate_bell_sample(220_000_000, 4, sample_rate));
        MedievalSampleBank {
            lute_samples,
            bell_samples,
            current_voices: Vec::new(),
            rng: Lcg::new(seed),
            sample_rate,
            last_output: 0,
        }
    }

    /// Start a lute voice at `note` unless the voice pool is full.
    ///
    /// Admission control: with [`MAX_VOICES`] voices already live the call
    /// changes nothing; otherwise exactly one voice is added, playing the
    /// buffer whose rendered pitch is closest to `note`, with seeded random
    /// micro-variation of pitch, decay and velocity.
    pub fn trigger_lute(&mut self, note: i64, velocity: i64)
        requires
            old(self).wf(),
            0 < note <= 20_000_000_000,
        ensures
            final(self).wf(),
            final(self).spec_lutes() == old(self).spec_lutes(),
            final(self).spec_bells() == old(self).spec_bells(),
            final(self).spec_last_output() == old(self).spec_last_output(),
            final(self).spec_voices().len() <= MAX_VOICES,
            old(self).spec_voices().len() >= MAX_VOICES ==> *final(self) == *old(self),
            spec_lute_trigger(
                old(self).spec_lutes(),
                old(self).spec_voices(),
                old(self).spec_rng(),
                final(self).spec_voices(),
                final(self).spec_rng(),
                note as int,
                velocity as int,
            ),
    {
        if self.current_voices.len() >= MAX_VOICES {
            return ;
        }
        let idx = find_closest(&self.lute_samples, note);
        let r1 = self.rng.next_unit();
        let r2 = self.rng.next_unit();
        let r3 = self.rng.next_unit();
        let pitch_variation = SCALE + (r1 - 500_000) / 100;
        let decay_variation = 998_000 + r2 / 500;
        let vel = clamp_fx(velocity, 0, SCALE);
        proof {
            lemma_mul_fx_bound(r3 as int, 300_000, SCALE as int, 300_000);
            lemma_mul_fx_nonneg(r3 as int, 300_000);
            lemma_mul_fx_bound(vel as int, 600_000 + spec_mul_fx(r3 as int, 300_000), SCALE as int, 900_000);
            lemma_mul_fx_nonneg(vel as int, 600_000 + spec_mul_fx(r3 as int, 300_000));
        }
        let velocity_factor = 600_000 + mul_fx(r3, 300_000);
        let velocity_variation = mul_fx(vel, velocity_factor);
        let base = self.lute_samples[idx].base_frequency;
        let raw_ratio = div_fx(note, base);
        proof {
            lemma_div_fx_pos_bound(note as int, base as int);
            lemma_div_trunc_bound(r1 as int - 500_000, 100, 500_000);
            lemma_mul_fx_bound(spec_div_fx(note as int, base as int), pitch_variation as int, 200_000_000, 1_005_000);
            lemma_mul_fx_bound(velocity_variation as int, 700_000, 900_000, 700_000);
            lemma_mul_fx_nonneg(velocity_variation as int, 700_000);
        }
        let pitch_ratio = clamp_fx(mul_fx(raw_ratio, pitch_variation), 10_000, 100_000_000);
        let amplitude = mul_fx(velocity_variation, 700_000);
        let voice = PlayingVoice {
            sample: idx,
            from_bells: false,
            position: 0,
            pitch_ratio,
            amplitude,
            decay_rate: decay_variation,
        };
        self.current_voices.push(voice);
    }

    /// Start a bell voice at `note` unless the voice pool is full.
    ///
    /// Same admission control as [`Self::trigger_lute`], with the bell
    /// bank's gentler pitch variation and slower decay.
    pub fn trigger_bell(&mut self, note: i64, velocity: i64)
        requires
            old(self).wf(),
            0 < note <= 20_000_000_000,
        ensures
            final(self).wf(),
            final(self).spec_lutes() == old(self).spec_lutes(),
            final(self).spec_bells() == old(self).spec_bells(),
            final(self).spec_last_output() == old(self).spec_last_output(),
            final(self).spec_voices().len() <= MAX_VOICES,
            old(self).spec_voices().len() >= MAX_VOICES ==> *final(self) == *old(self),
            spec_bell_trigger(
                old(self).spec_bells(),
                old(self).spec_voices(),
                old(self).spec_rng(),
                final(self).spec_voices(),
                final(self).spec_rng(),
                note as int,
                velocity as int,
            ),
    {
        if self.current_voices.len() >= MAX_VOICES {
            return ;
        }
        let idx = find_closest(&self.bell_samples, note);
        let r1 = self.rng.next_unit();
        let r2 = self.rng.next_unit();
        let r3 = self.rng.next_unit();
        let pitch_variation = SCALE + (r1 - 500_000) / 125;
        let decay_variation = 999_900 + r2 / 10_000;
        let vel = clamp_fx(velocity, 0, SCALE);
        proof {
            lemma_mul_fx_bound(r3 as int, 400_000, SCALE as int, 400_000);
            lemma_mul_fx_nonneg(r3 as int, 400_000);
            lemma_mul_fx_bound(vel as int, 500_000 + spec_mul_fx(r3 as int, 400_000), SCALE as int, 900_000);
            lemma_mul_fx_nonneg(vel as int, 500_000 + spec_mul_fx(r3 as int, 400_000));
        }
        let velocity_factor = 500_000 + mul_fx(r3, 400_000);
        let velocity_variation = mul_fx(vel, velocity_factor);
        let base = self.bell_samples[idx].base_frequency;
        let raw_ratio = div_fx(note, base);
        proof {
            lemma_div_fx_pos_bound(note as int, base as int);
            lemma_div_trunc_bound(r1 as int - 500_000, 125, 500_000);
            lemma_mul_fx_bound(spec_div_fx(note as int, base as int), pitch_variation as int, 200_000_000, 1_005_000);
            lemma_mul_fx_bound(velocity_variation as int, 600_000, 900_000, 600_000);
            lemma_mul_fx_nonneg(velocity_variation as int, 600_000);
        }
        let pitch_ratio = clamp_fx(mul_fx(raw_ratio, pitch_variation), 10_000, 100_000_000);
        let amplitude = mul_fx(velocity_variation, 600_000);
        let voice = PlayingVoice {
            sample: idx,
            from_bells: true,
            position: 0,
            pitch_ratio,
            amplitude,
            decay_rate: decay_variation,
        };
        self.current_voices.push(voice);
    }

    /// Mix one output sample from all live voices, advance and decay them,
    /// and drop the ones that fell silent or ran off their buffer.
    pub fn process(&mut self) -> (r: i64)
        requires
            old(self).wf(),
        ensures
            final(self).wf(),
            final(self).spec_lutes() == old(self).spec_lutes(),
            final(self).spec_bells() == old(self).spec_bells(),
            final(self).spec_rng() == old(self).spec_rng(),
            final(self).spec_last_output() == r,
            final(self).spec_voices() == spec_voices_retained(
                old(self).spec_lutes(),
                old(self).spec_bells(),
                old(self).spec_voices(),
                old(self).spec_voices().len() as int,
            ),
            final(self).spec_voices().len() <= old(self).spec_voices().len(),
            r == spec_soft_limit(
                spec_mul_fx(
                    spec_voices_out(
                        old(self).spec_lutes(),
                        old(self).spec_bells(),
                        old(self).spec_voices(),
                        old(self).spec_voices().len() as int,
                        spec_polyphony_gain(old(self).spec_voices().len() as int),
                    ),
                    250_000,
                ),
                800_000,
                200_000,
                950_000,
            ),
            -950_000 <= r <= 950_000,
    {
        let ghost lutes = self.lute_samples@;
        let ghost bells = self.bell_samples@;
        let ghost vs = self.current_voices@;
        let n = self.current_voices.len();
        let gain = if n > 0 {
            div_fx(SCALE, SCALE + (n as i64) * 150_000)
        } else {
            SCALE
        };
        proof {
            if n > 0 {
                crate::audio::fixed::lemma_div_range(
                    (SCALE as int) * (SCALE as int),
                    SCALE as int + (n as int) * 150_000,
                    1_000_000_000_000,
                    1_000_000_000_000,
                    1_000_000,
                    1_900_000,
                );
            }
        }
        let mut output: i64 = 0;
        let mut kept: Vec<PlayingVoice> = Vec::new();
        let mut i: usize = 0;
        while i < n
            invariant
                self.wf(),
                lutes == self.lute_samples@,
                bells == self.bell_samples@,
                vs == self.current_voices@,
                n == vs.len(),
                0 <= gain <= SCALE,
                gain == spec_polyphony_gain(n as int),
                i <= n,
                kept@ == spec_voices_retained(lutes, bells, vs, i as int),
                kept@.len() <= i,
                forall|k: int| 0 <= k < kept@.len() ==> (#[trigger] kept@[k]).wf(4, 4),
                output == spec_voices_out(lutes, bells, vs, i as int, gain as int),
                -(i as i64) * SCALE <= output <= (i as i64) * SCALE,
            decreases n - i,
        {
            let mut v = self.current_voices[i];
            let pos_idx_i64 = v.position / SCALE;
            let d_len = if v.from_bells {
                self.bell_samples[v.sample].data.len()
            } else {
                self.lute_samples[v.sample].data.len()
            };
            if pos_idx_i64 >= 0 && (pos_idx_i64 as usize) < d_len {
                let pos_idx = pos_idx_i64 as usize;
                let s = if v.from_bells {
                    self.bell_samples[v.sample].data[pos_idx]
                } else {
                    self.lute_samples[v.sample].data[pos_idx]
                };
                proof {
                    lemma_mul_fx_bound(s as int, v.amplitude as int, SCALE as int, SCALE as int);
                    lemma_mul_fx_bound(
                        spec_mul_fx(s as int, v.amplitude as int),
                        gain as int,
                        SCALE as int,
                        SCALE as int,
                    );
                }
                output = output + mul_fx(mul_fx(s, v.amplitude), gain);
                proof {
                    lemma_mul_fx_bound(v.amplitude as int, v.decay_rate as int, SCALE as int, SCALE as int);
                    lemma_mul_fx_nonneg(v.amplitude as int, v.decay_rate as int);
                    vstd::arithmetic::div_mod::lemma_fundamental_div_mod(
                        v.position as int,
                        SCALE as int,
                    );
                    vstd::arithmetic::div_mod::lemma_mod_pos_bound(v.position as int, SCALE as int);
                    assert(v.position as int <= (d_len as int) * (SCALE as int))
                        by (nonlinear_arith)
                        requires
                            v.position as int == (SCALE as int) * (v.position as int
                                / (SCALE as int)) + (v.position as int) % (SCALE as int),
                            (v.position as int) / (SCALE as int) <= d_len as int - 1,
                            ((v.position as int) % (SCALE as int)) < (SCALE as int),
                            d_len >= 1,
                    ;
                    assert((d_len as int) * (SCALE as int) <= 1_000_000_000_000_000)
                        by (nonlinear_arith)
                        requires
                            d_len as int <= 1_000_000_000,
                    ;
                }
                v.position = v.position + v.pitch_ratio;
                v.amplitude = mul_fx(v.amplitude, v.decay_rate);
                if v.amplitude > 1_000 {
                    kept.push(v);
                }
            }
            i += 1;
        }
        self.current_voices = kept;
        proof {
            lemma_mul_fx_bound(output as int, 250_000, 6_000_000, 250_000);
        }
        let scaled = mul_fx(output, 250_000);
        let out = soft_limit(scaled, 800_000, 200_000, 950_000);
        self.last_output = out;
        out
    }
}

/// Rendered pitches of the lute bank.
pub open spec fn spec_lute_base(k: int) -> int {
    if k <= 0 {
        220_000_000
    } else if k == 1 {
        293_660_000
    } else if k == 2 {
        369_990_000
    } else {
        440_000_000
    }
}

/// Rendered pitches of the bell bank.
pub open spec fn spec_bell_base(k: int) -> int {
    if k <= 0 {
        130_810_000
    } else if k == 1 {
        164_810_000
    } else if k == 2 {
        196_000_000
    } else {
        220_000_000
    }
}

/// Distance between a rendered pitch and a requested note.
pub open spec fn spec_pitch_dist(base: int, note: int) -> int {
    if base >= note {
        base - note
    } else {
        note - base
    }
}

/// A nonnegative numerator over a positive denominator gives a bounded,
/// nonnegative fixed-point quotient.
proof fn lemma_div_fx_pos_bound(a: int, b: int)
    requires
        0 <= a <= 20_000_000_000,
        100_000_000 <= b,
    ensures
        0 <= spec_div_fx(a, b) <= 200_000_000,
{
    assert(a * SCALE as int <= 20_000_000_000_000_000) by (nonlinear_arith)
        requires
            0 <= a <= 20_000_000_000,
    ;
    crate::audio::fixed::lemma_div_range(
        a * SCALE as int,
        b,
        0,
        20_000_000_000_000_000,
        100_000_000,
        b,
    );
}

/// A fixed-point product of nonnegative factors is nonnegative.
proof fn lemma_mul_fx_nonneg(a: int, b: int)
    requires
        a >= 0,
        b >= 0,
    ensures
        spec_mul_fx(a, b) >= 0,
{
    assert(a * b >= 0) by (nonlinear_arith)
        requires
            a >= 0,
            b >= 0,
    ;
    vstd::arithmetic::div_mod::lemma_div_pos_is_pos(a * b, SCALE as int);
}

/// Index of the buffer whose rendered pitch is closest to `note`; ties keep
/// the earliest buffer.
fn find_closest(samples: &Vec<SampleData>, note: i64) -> (r: usize)
    requires
        samples@.len() >= 1,
        forall|k: int| 0 <= k < samples@.len() ==> (#[trigger] samples@[k]).wf(),
        0 < note <= 20_000_000_000,
    ensures
        r < samples@.len(),
        forall|j: int|
            0 <= j < samples@.len() ==> spec_pitch_dist(samples@[r as int].spec_base(), note as int)
                <= spec_pitch_dist((#[trigger] samples@[j]).spec_base(), note as int),
{
    let mut best: usize = 0;
    let mut best_dist = pitch_dist(samples[0].base_frequency, note);
    let mut j: usize = 1;
    while j < samples.len()
        invariant
            samples@.len() >= 1,
            forall|k: int| 0 <= k < samples@.len() ==> (#[trigger] samples@[k]).wf(),
            0 < note <= 20_000_000_000,
            best < j,
            1 <= j <= samples@.len(),
            best_dist == spec_pitch_dist(samples@[best as int].spec_base(), note as int),
            forall|k: int|
                0 <= k < j ==> best_dist <= spec_pitch_dist(
                    (#[trigger] samples@[k]).spec_base(),
                    note as int,
                ),
        decreases samples@.len() - j,
    {
        let d = pitch_dist(samples[j].base_frequency, note);
        if d < best_dist {
            best = j;
            best_dist = d;
        }
        j += 1;
    }
    best
}

/// Absolute difference of two pitches.
fn pitch_dist(base: i64, note: i64) -> (r: i64)
    requires
        0 < base <= 20_000_000_000,
        0 < note <= 20_000_000_000,
    ensures
        r == spec_pitch_dist(base as int, note as int),
{
    if base >= note {
        base - note
    } else {
        note - base
    }
}

} // verus!
