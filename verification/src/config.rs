//! Configuration values for the game and its audio engine.
//!
//! Reading the configuration file and decoding its syntax belong to the
//! surrounding application; this module holds the validated values and the
//! engine-selection logic.

use vstd::prelude::*;
use vstd::string::StringSliceAdditionalSpecFns;

verus! {

/// Audio engine options.
#[derive(Debug, Clone, Copy, PartialEq, Eq, Structural)]
pub enum AudioEngine {
    /// The spatial audio system.
    Spatial,
    /// The differentiable-synthesis engine.
    DDSP,
    /// The dungeon-synth engine.
    DungeonSynth,
    /// The hybrid engine combining synthesis, samples and modulation.
    Hybrid,
}

impl Default for AudioEngine {
    fn default() -> (r: Self)
        ensures
            r == AudioEngine::Spatial,
    {
        AudioEngine::Spatial
    }
}

/// Whether two ASCII strings are equal ignoring letter case.
pub open spec fn ascii_eq_ignore_case(a: Seq<u8>, b: Seq<u8>) -> bool {
    a.len() == b.len() && forall|i: int|
        0 <= i < a.len() ==> lower_byte(#[trigger] a[i]) == lower_byte(b[i])
}

/// An ASCII byte folded to lower case.
pub open spec fn lower_byte(c: u8) -> u8 {
    if 65 <= c <= 90 {
        (c + 32) as u8
    } else {
        c
    }
}

impl AudioEngine {
    /// The engine a (case-insensitive) name selects; unknown names fall
    /// back to the spatial engine.
    pub open spec fn spec_from_string(s: Seq<u8>) -> AudioEngine {
        if ascii_eq_ignore_case(s, "spatial".spec_bytes()) {
            AudioEngine::Spatial
        } else if ascii_eq_ignore_case(s, "ddsp".spec_bytes()) {
            AudioEngine::DDSP
        } else if ascii_eq_ignore_case(s, "dungeonsynth".spec_bytes())
            || ascii_eq_ignore_case(s, "dungeon_synth".spec_bytes())
            || ascii_eq_ignore_case(s, "dungeon-synth".spec_bytes()) {
            AudioEngine::DungeonSynth
        } else if ascii_eq_ignore_case(s, "hybrid".spec_bytes()) {
            AudioEngine::Hybrid
        } else {
            AudioEngine::Spatial
        }
    }

    /// Select an engine by name, ignoring letter case; unknown names fall
    /// back to the spatial engine.
    pub fn from_string(s: &str) -> (r: Self)
        ensures
            r == Self::spec_from_string(s.spec_bytes()),
    {
        let bytes = s.as_bytes();
        if eq_ignore_case(bytes, "spatial") {
            AudioEngine::Spatial
        } else if eq_ignore_case(bytes, "ddsp") {
            AudioEngine::DDSP
        } else if eq_ignore_case(bytes, "dungeonsynth") || eq_ignore_case(bytes, "dungeon_synth")
            || eq_ignore_case(bytes, "dungeon-synth") {
            AudioEngine::DungeonSynth
        } else if eq_ignore_case(bytes, "hybrid") {
            AudioEngine::Hybrid
        } else {
            AudioEngine::Spatial
        }
    }
}

/// Case-insensitive comparison of a byte slice against an ASCII literal.
fn eq_ignore_case(a: &[u8], b: &str) -> (r: bool)
    ensures
        r == ascii_eq_ignore_case(a@, b.spec_bytes()),
{
    let bb = b.as_bytes();
    if a.len() != bb.len() {
        return false;
    }
    let n = a.len();
    let mut i: usize = 0;
    while i < n
        invariant
            n == a@.len(),
            n == bb@.len(),
            bb@ == b.spec_bytes(),
            i <= n,
            forall|j: int| 0 <= j < i ==> lower_byte(#[trigger] a@[j]) == lower_byte(bb@[j]),
        decreases n - i,
    {
        let ca = a[i];
        let cb = bb[i];
        let la = if 65 <= ca && ca <= 90 {
            ca + 32
        } else {
            ca
        };
        let lb = if 65 <= cb && cb <= 90 {
            cb + 32
        } else {
            cb
        };
        if la != lb {
            return false;
        }
        i += 1;
    }
    true
}

/// Validated configuration values. The volume is micro-unit fixed point.
#[derive(Debug, Clone)]
pub struct Config {
    /// Desired frame-rate cap.
    pub fps: u32,
    /// Grid width in cells.
    pub cols: usize,
    /// Grid height in cells.
    pub rows: usize,
    /// Initial random seed, if fixed.
    pub seed: Option<u64>,
    /// Audio engine selection.
    pub audio_engine: AudioEngine,
    /// Master audio volume in micro-units.
    pub audio_volume: i64,
}

impl Default for Config {
    fn default() -> (r: Self)
        ensures
            r.fps == 60,
            r.cols == 100,
            r.rows == 100,
            r.seed is None,
            r.audio_engine == AudioEngine::Spatial,
            r.audio_volume == 700_000,
    {
        Config {
            fps: 60,
            cols: 100,
            rows: 100,
            seed: None,
            audio_engine: AudioEngine::Spatial,
            audio_volume: 700_000,
        }
    }
}

} // verus!
