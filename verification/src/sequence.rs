//! Settings shared by the whole sequencer.

use vstd::prelude::*;

verus! {

/// The pitch range that note positions are mapped into: a note at the bottom
/// of the field sounds `pitch_min`, one at the top `pitch_max`.
#[derive(Clone, Copy, Debug, PartialEq, Eq, Structural)]
pub struct GlobalSequencerSettings {
    pub pitch_min: u8,
    pub pitch_max: u8,
}

/// The lower pitch bound of the default range.
pub const DEFAULT_PITCH_MIN: u8 = 40;

/// The upper pitch bound of the default range.
pub const DEFAULT_PITCH_MAX: u8 = 110;

impl Default for GlobalSequencerSettings {
    fn default() -> (settings: Self)
        ensures
            settings.pitch_min == DEFAULT_PITCH_MIN,
            settings.pitch_max == DEFAULT_PITCH_MAX,
    {
        GlobalSequencerSettings { pitch_min: DEFAULT_PITCH_MIN, pitch_max: DEFAULT_PITCH_MAX }
    }
}

/// A configuration that no sequencer can run with. Such values are turned
/// away where they enter, so that motion and collision never meet them.
#[derive(Clone, Copy, Debug, PartialEq, Eq, Structural)]
pub enum ConfigError {
    /// A playhead speed that is zero or negative.
    NonPositiveSpeed,
    /// A field of height zero, which leaves no domain to map pitches from.
    ZeroHeight,
    /// A field whose width or height is negative.
    NegativeExtent,
}

impl ConfigError {
    /// The words that describe the error.
    pub open spec fn description(self) -> Seq<char> {
        match self {
            ConfigError::NonPositiveSpeed => "playhead speed must be positive"@,
            ConfigError::ZeroHeight => "field height must not be zero"@,
            ConfigError::NegativeExtent => "field extents must not be negative"@,
        }
    }

    /// A short description of the error.
    pub fn describe(&self) -> (text: &'static str)
        ensures
            text@ == self.description(),
    {
        match self {
            ConfigError::NonPositiveSpeed => {
                proof {
                    reveal_strlit("playhead speed must be positive");
                }
                "playhead speed must be positive"
            },
            ConfigError::ZeroHeight => {
                proof {
                    reveal_strlit("field height must not be zero");
                }
                "field height must not be zero"
            },
            ConfigError::NegativeExtent => {
                proof {
                    reveal_strlit("field extents must not be negative");
                }
                "field extents must not be negative"
            },
        }
    }
}

} // verus!
