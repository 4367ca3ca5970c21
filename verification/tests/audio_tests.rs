//! Tests of the fixed-point synthesis engine: stability, admission
//! control, scale building, the evolution clock and the limiter.

use gameofdeath::audio::cell_matrix::CellMatrix;
use gameofdeath::audio::engine::{FeatureVector, HybridDungeonSynthEngine};
use gameofdeath::audio::fixed::{soft_limit, SCALE};
use gameofdeath::audio::limiter::AdaptiveLimiter;
use gameofdeath::audio::neural::SimpleNeuralModulator;
use gameofdeath::audio::samples::{MedievalSampleBank, MAX_VOICES};
use gameofdeath::audio::saturation::TapeSaturation;

fn features(
    population: i64,
    density: i64,
    activity: i64,
    cluster_count: i64,
    avg_cluster_size: i64,
    symmetry: i64,
    chaos: i64,
    generation: i64,
) -> FeatureVector {
    let mut f = FeatureVector::new();
    f.population = population;
    f.density = density;
    f.activity = activity;
    f.cluster_count = cluster_count;
    f.avg_cluster_size = avg_cluster_size;
    f.symmetry = symmetry;
    f.chaos = chaos;
    f.generation = generation;
    f
}

#[test]
fn output_stays_in_unit_range_for_ten_thousand_samples() {
    let mut engine = HybridDungeonSynthEngine::new(44_100, 7);
    engine.update_features(features(
        800_000, 700_000, 300_000, 200_000, 100_000, 900_000, 100_000, 100_000,
    ));
    for _ in 0..10_000 {
        let (l, r) = engine.generate_stereo_sample();
        assert!(-SCALE < l && l < SCALE);
        assert!(-SCALE < r && r < SCALE);
    }
}

#[test]
fn voice_count_never_exceeds_cap_under_burst() {
    let mut bank = MedievalSampleBank::new(8_000, 99);
    for _ in 0..100 {
        bank.trigger_lute(440_000_000, SCALE);
        assert!(bank.voice_count() <= MAX_VOICES);
    }
    assert_eq!(bank.voice_count(), MAX_VOICES);
    for _ in 0..50 {
        bank.trigger_bell(196_000_000, SCALE);
        assert!(bank.voice_count() <= MAX_VOICES);
    }
}

#[test]
fn voices_decay_and_mix_is_bounded() {
    let mut bank = MedievalSampleBank::new(8_000, 5);
    bank.trigger_lute(220_000_000, SCALE);
    bank.trigger_bell(130_810_000, SCALE);
    assert_eq!(bank.voice_count(), 2);
    for _ in 0..60_000 {
        let s = bank.process();
        assert!(-950_000 <= s && s <= 950_000);
    }
    // After far more samples than any buffer holds, all voices are gone.
    assert_eq!(bank.voice_count(), 0);
}

#[test]
fn build_scale_is_idempotent_and_anchored() {
    let first = HybridDungeonSynthEngine::build_scale(72_589_330, 0);
    let second = HybridDungeonSynthEngine::build_scale(72_589_330, 0);
    assert_eq!(first, second);
    assert_eq!(first[0], 72_589_330);
    for i in 0..6 {
        assert!(first[i] <= first[i + 1]);
    }
    // Mode rotations stay anchored at the root as well.
    for mode in 0..7 {
        let scale = HybridDungeonSynthEngine::build_scale(55_000_000, mode);
        let again = HybridDungeonSynthEngine::build_scale(55_000_000, mode);
        assert_eq!(scale, again);
        assert_eq!(scale[0], 55_000_000);
    }
    // Exact expected notes of the major mode on a one-unit root: the
    // equal-tempered ratio table itself.
    let major = HybridDungeonSynthEngine::build_scale(1_000_000, 0);
    assert_eq!(major, [1_000_000, 1_122_462, 1_259_921, 1_334_840, 1_498_307, 1_681_793, 1_887_749]);
}

#[test]
fn evolution_clock_advances_at_audio_rate() {
    // At the nominal 44.1 kHz the slow phase must still move every sample:
    // its nano-unit increment is 1e9 / (30 * 44_100) = 755.
    let mut engine = HybridDungeonSynthEngine::new(44_100, 3);
    assert_eq!(engine.evolution_phase, 0);
    let _ = engine.generate_stereo_sample();
    assert_eq!(engine.evolution_phase, 755);
    assert_eq!(engine.micro_variation_timer, 11_337);
    for _ in 0..99 {
        let _ = engine.generate_stereo_sample();
    }
    assert_eq!(engine.evolution_phase, 755 * 100);
}

#[test]
fn frozen_features_still_produce_sound() {
    let mut engine = HybridDungeonSynthEngine::new(1_000, 42);
    engine.update_features(FeatureVector::new());
    // Thirty simulated seconds; every two-second window must contain
    // nonzero output (the evolution clock keeps the drone breathing).
    for _window in 0..15 {
        let mut any_nonzero = false;
        for _ in 0..2_000 {
            let (l, r) = engine.generate_stereo_sample();
            if l != 0 || r != 0 {
                any_nonzero = true;
            }
        }
        assert!(any_nonzero);
    }
}

#[test]
fn region_sampling_is_bounded_above_two_hundred_cells() {
    let mut matrix = CellMatrix::new();
    // 1000 cells in a tight block, all inside the shifted viewport.
    let mut cells: Vec<(i32, i32)> = Vec::new();
    for x in 0..40 {
        for y in 0..25 {
            cells.push((x, y));
        }
    }
    assert!(cells.len() > 200);
    matrix.update_from_cells(&cells, 220_000_000, 220_000_000, 100_000_000);
    assert_eq!(matrix.total_cells, 1000);
    let mut sampled_total = 0;
    for k in 0..16 {
        assert!(matrix.sampled_counts[k] <= 50);
        sampled_total += matrix.sampled_counts[k];
        let (d, a, c) = matrix.regions[k];
        assert_eq!(d, matrix.sampled_counts[k] as i64 * 20_000);
        assert!((0..=SCALE).contains(&a));
        assert!((0..=SCALE).contains(&c));
    }
    assert!(sampled_total > 0);
}

#[test]
fn small_population_is_aggregated_directly() {
    let mut matrix = CellMatrix::new();
    let cells = vec![(0, 0), (1, 0), (0, 1), (1, 1)];
    matrix.update_from_cells(&cells, 0, 0, 8_000_000);
    assert_eq!(matrix.total_cells, 4);
    for k in 0..16 {
        assert_eq!(matrix.sampled_counts[k], 0);
        let (d, a, c) = matrix.regions[k];
        assert!((0..=SCALE).contains(&d));
        assert!((0..=SCALE).contains(&a));
        assert!((0..=SCALE).contains(&c));
    }
}

#[test]
fn limiter_more_compression_never_raises_output() {
    // Same state except the first-stage compression ratio: the limiter
    // with the stronger compression (smaller pass-through ratio) never
    // produces the larger magnitude.
    let input = 900_000;
    let mut strong = AdaptiveLimiter::new();
    strong.compression_ratio = 300_000;
    let mut weak = AdaptiveLimiter::new();
    weak.compression_ratio = 1_000_000;
    let out_strong = strong.process(input);
    let out_weak = weak.process(input);
    assert!(out_strong.abs() <= out_weak.abs());
    assert!(out_strong.abs() <= 950_000);
    assert!(out_weak.abs() <= 950_000);
}

#[test]
fn limiter_output_respects_ceiling() {
    let mut limiter = AdaptiveLimiter::new();
    for v in [-2_000_000i64, -1_000_000, -750_000, 0, 500_000, 1_500_000, 2_000_000] {
        let out = limiter.process(v);
        assert!(-950_000 <= out && out <= 950_000);
    }
}

#[test]
fn soft_limit_shape_is_exact() {
    // Below the threshold the signal passes unchanged.
    assert_eq!(soft_limit(500_000, 700_000, 200_000, 850_000), 500_000);
    assert_eq!(soft_limit(-500_000, 700_000, 200_000, 850_000), -500_000);
    // Above it, the excess is compressed by the ratio.
    assert_eq!(soft_limit(800_000, 700_000, 200_000, 850_000), 720_000);
    assert_eq!(soft_limit(-800_000, 700_000, 200_000, 850_000), -720_000);
    // Far above, the ceiling holds.
    assert_eq!(soft_limit(5_000_000, 700_000, 200_000, 850_000), 850_000);
}

#[test]
fn saturator_stays_inside_one_unit() {
    let sat = TapeSaturation::new();
    for v in [-6_000_000i64, -1_000_000, 0, 123_456, 6_000_000] {
        let out = sat.process(v);
        assert!(-SCALE <= out && out <= SCALE);
    }
    // Zero in, zero out for an odd waveshaper.
    assert_eq!(sat.process(0), 0);
}

#[test]
fn modulator_outputs_are_normalized_and_deterministic() {
    let modulator = SimpleNeuralModulator::new();
    let f = [800_000i64, 700_000, 300_000, 200_000, 100_000, 900_000, 100_000, 100_000];
    let a = modulator.get_modulation_values(&f);
    let b = modulator.get_modulation_values(&f);
    assert_eq!(a, b);
    for v in a {
        assert!((0..=SCALE).contains(&v));
    }
    let zero = modulator.get_modulation_values(&[0i64; 8]);
    for v in zero {
        assert!((0..=SCALE).contains(&v));
    }
}

#[test]
fn scenario_symmetric_world_picks_mode_zero_and_milestone_bell() {
    let mut engine = HybridDungeonSynthEngine::new(8_000, 11);
    engine.update_features(features(
        800_000, 700_000, 300_000, 200_000, 100_000, 900_000, 100_000, 100_000,
    ));
    assert_eq!(engine.last_milestone_generation, 0);
    // The first generated sample recomputes the slow parameters.
    let _ = engine.generate_stereo_sample();
    // Mode (0.9 + 0.1) * 4 mod 4 = 0; root 55 * 2^0.4 in fixed point.
    assert_eq!(engine.get_scale_root(), 72_589_330);
    let scale = engine.scale_notes;
    for i in 0..6 {
        assert!(scale[i] <= scale[i + 1]);
    }
    // The generation feature 100/1000 crosses the first multiple of 100:
    // the milestone bell fires exactly once.
    assert_eq!(engine.last_milestone_generation, 100);
    assert!(engine.medieval_samples.voice_count() >= 1);
    for _ in 0..64 {
        let _ = engine.generate_stereo_sample();
    }
    // Another recompute with the same generation: no second milestone.
    assert_eq!(engine.last_milestone_generation, 100);
}

#[test]
fn master_volume_and_mix_are_clamped() {
    let mut engine = HybridDungeonSynthEngine::new(8_000, 1);
    engine.set_master_volume(5_000_000);
    assert_eq!(engine.get_master_volume(), 2_000_000);
    engine.set_master_volume(-5);
    assert_eq!(engine.get_master_volume(), 0);
    engine.set_synthesis_mix(3_000_000);
    assert_eq!(engine.synthesis_mix, SCALE);
    engine.set_synthesis_mix(-1);
    assert_eq!(engine.synthesis_mix, 0);
}

#[test]
fn update_features_saturates_components() {
    let mut engine = HybridDungeonSynthEngine::new(8_000, 1);
    engine.update_features(features(
        5_000_000, -5, 500_000, 0, 0, 2_000_000, -1, 1_500_000,
    ));
    assert_eq!(engine.current_features.population, SCALE);
    assert_eq!(engine.current_features.density, 0);
    assert_eq!(engine.current_features.activity, 500_000);
    assert_eq!(engine.current_features.symmetry, SCALE);
    assert_eq!(engine.current_features.chaos, 0);
    assert_eq!(engine.current_features.generation, SCALE);
}

#[test]
fn cell_data_feeds_the_region_matrix() {
    let mut engine = HybridDungeonSynthEngine::new(8_000, 1);
    let cells = vec![(0, 0), (1, 0), (2, 0)];
    engine.update_cell_data(&cells, 0, 0, 8_000_000);
    assert_eq!(engine.cell_matrix.total_cells, 3);
}
