//! In-game settings and the selectable rule set.

use vstd::prelude::*;

use crate::config::{AudioEngine, Config};

verus! {

/// Rule choices offered in the settings menu.
#[derive(Clone, Copy, Debug, PartialEq, Eq, Structural)]
pub enum RuleChoice {
    /// Conway's Game of Life.
    Conway,
    /// HighLife.
    HighLife,
    /// Seeds.
    Seeds,
    /// Immigration.
    Immigration,
    /// QuadLife.
    QuadLife,
    /// Brian's Brain.
    BriansBrain,
    /// Generational rules.
    Generations,
}

impl RuleChoice {
    /// Cycle to the next variant, wrapping at the end.
    pub fn next(self) -> (r: Self)
        ensures
            r == match self {
                RuleChoice::Conway => RuleChoice::HighLife,
                RuleChoice::HighLife => RuleChoice::Seeds,
                RuleChoice::Seeds => RuleChoice::Immigration,
                RuleChoice::Immigration => RuleChoice::QuadLife,
                RuleChoice::QuadLife => RuleChoice::BriansBrain,
                RuleChoice::BriansBrain => RuleChoice::Generations,
                RuleChoice::Generations => RuleChoice::Conway,
            },
    {
        match self {
            RuleChoice::Conway => RuleChoice::HighLife,
            RuleChoice::HighLife => RuleChoice::Seeds,
            RuleChoice::Seeds => RuleChoice::Immigration,
            RuleChoice::Immigration => RuleChoice::QuadLife,
            RuleChoice::QuadLife => RuleChoice::BriansBrain,
            RuleChoice::BriansBrain => RuleChoice::Generations,
            RuleChoice::Generations => RuleChoice::Conway,
        }
    }

    /// Display name of the rule.
    pub fn name(&self) -> (r: &'static str)
    {
        match self {
            RuleChoice::Conway => "Conway",
            RuleChoice::HighLife => "HighLife",
            RuleChoice::Seeds => "Seeds",
            RuleChoice::Immigration => "Immigration",
            RuleChoice::QuadLife => "QuadLife",
            RuleChoice::BriansBrain => "BriansBrain",
            RuleChoice::Generations => "Generations",
        }
    }

    /// One-line description of the rule.
    pub fn description(&self) -> (r: &'static str)
    {
        match self {
            RuleChoice::Conway => "B3/S23 - Classic Game of Life",
            RuleChoice::HighLife => "B36/S23 - Conway + birth on 6",
            RuleChoice::Seeds => "B2/S0 - No survival, birth on 2",
            RuleChoice::Immigration => "B3/S23 with Immigration",
            RuleChoice::QuadLife => "QuadLife variant",
            RuleChoice::BriansBrain => "Brian's Brain (3 states)",
            RuleChoice::Generations => "Generational rules",
        }
    }
}

impl Default for RuleChoice {
    fn default() -> (r: Self)
        ensures
            r == RuleChoice::Conway,
    {
        RuleChoice::Conway
    }
}

/// Settings state for the in-game UI. Sizes are in cells; the cell size,
/// update interval and volume are micro-unit fixed point.
#[derive(Debug, Clone)]
pub struct GameSettings {
    /// Grid width in cells.
    pub grid_cols: usize,
    /// Grid height in cells.
    pub grid_rows: usize,
    /// The selected rule.
    pub rule_choice: RuleChoice,
    /// Rendered cell size in micro-pixels.
    pub cell_size: i64,
    /// Simulation update interval in micro-seconds-per-step units.
    pub update_interval: i64,
    /// Whether audio is on.
    pub audio_enabled: bool,
    /// Master audio volume in micro-units.
    pub audio_volume: i64,
}

impl Default for GameSettings {
    fn default() -> (r: Self)
        ensures
            r.grid_cols == 100,
            r.grid_rows == 100,
            r.rule_choice == RuleChoice::Conway,
            r.cell_size == 8_000_000,
            r.update_interval == 100_000,
            r.audio_enabled,
            r.audio_volume == 500_000,
    {
        GameSettings {
            grid_cols: 100,
            grid_rows: 100,
            rule_choice: RuleChoice::Conway,
            cell_size: 8_000_000,
            update_interval: 100_000,
            audio_enabled: true,
            audio_volume: 500_000,
        }
    }
}

impl GameSettings {
    /// Settings taken from a configuration, with UI defaults elsewhere.
    pub fn from_config(config: &Config) -> (r: Self)
        ensures
            r.grid_cols == config.cols,
            r.grid_rows == config.rows,
            r.audio_volume == config.audio_volume,
            r.rule_choice == RuleChoice::Conway,
            r.cell_size == 8_000_000,
            r.update_interval == 100_000,
            r.audio_enabled,
    {
        GameSettings {
            grid_cols: config.cols,
            grid_rows: config.rows,
            rule_choice: RuleChoice::Conway,
            cell_size: 8_000_000,
            update_interval: 100_000,
            audio_enabled: true,
            audio_volume: config.audio_volume,
        }
    }

    /// The configuration equivalent of these settings.
    pub fn to_config(&self) -> (r: Config)
        ensures
            r.fps == 60,
            r.cols == self.grid_cols,
            r.rows == self.grid_rows,
            r.seed is None,
            r.audio_engine == AudioEngine::Spatial,
            r.audio_volume == self.audio_volume,
    {
        Config {
            fps: 60,
            cols: self.grid_cols,
            rows: self.grid_rows,
            seed: None,
            audio_engine: AudioEngine::Spatial,
            audio_volume: self.audio_volume,
        }
    }
}

} // verus!
