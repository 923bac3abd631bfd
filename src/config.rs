//! Word-count thresholds that govern chunking.

use vstd::prelude::*;

verus! {

/// The three thresholds: a soft minimum, a soft maximum and a hard ceiling,
/// all counted in words.
pub struct ChunkConfig {
    pub min_words: usize,
    pub max_words: usize,
    pub hard_limit: usize,
}

/// Why a configuration was refused.
#[derive(Debug, Clone, Copy, PartialEq, Eq)]
pub enum ConfigError {
    /// One of the thresholds is zero.
    ZeroThreshold,
    /// `min_words` is above `max_words`.
    MinAboveMax,
    /// `max_words` is above `hard_limit`.
    MaxAboveHardLimit,
}

impl ChunkConfig {
    /// All thresholds are positive and `min_words <= max_words <= hard_limit`.
    pub open spec fn is_valid(&self) -> bool {
        0 < self.min_words && self.min_words <= self.max_words && self.max_words <= self.hard_limit
    }

    /// The outcome of checking the thresholds: a zero threshold is reported
    /// before an ordering fault, and `min_words > max_words` before
    /// `max_words > hard_limit`.
    pub open spec fn check(&self) -> Result<(), ConfigError> {
        if self.min_words == 0 || self.max_words == 0 || self.hard_limit == 0 {
            Err(ConfigError::ZeroThreshold)
        } else if self.min_words > self.max_words {
            Err(ConfigError::MinAboveMax)
        } else if self.max_words > self.hard_limit {
            Err(ConfigError::MaxAboveHardLimit)
        } else {
            Ok(())
        }
    }

    /// Checks the thresholds.
    pub fn validate(&self) -> (r: Result<(), ConfigError>)
        ensures
            r == self.check(),
            r is Ok <==> self.is_valid(),
    {
        if self.min_words == 0 || self.max_words == 0 || self.hard_limit == 0 {
            Err(ConfigError::ZeroThreshold)
        } else if self.min_words > self.max_words {
            Err(ConfigError::MinAboveMax)
        } else if self.max_words > self.hard_limit {
            Err(ConfigError::MaxAboveHardLimit)
        } else {
            Ok(())
        }
    }
}

impl Default for ChunkConfig {
    /// The default thresholds: 250, 500 and 7400 words.
    fn default() -> (r: Self)
        ensures
            r.min_words == 250,
            r.max_words == 500,
            r.hard_limit == 7400,
    {
        ChunkConfig { min_words: 250, max_words: 500, hard_limit: 7400 }
    }
}

/// The default configuration.
pub fn get_config() -> (r: ChunkConfig)
    ensures
        r.min_words == 250,
        r.max_words == 500,
        r.hard_limit == 7400,
        r.is_valid(),
{
    ChunkConfig::default()
}

} // verus!
