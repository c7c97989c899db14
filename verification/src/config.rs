use vstd::prelude::*;

verus! {

/// Why a stream cannot be set up.
#[derive(Debug, PartialEq, Eq, Structural, Clone, Copy)]
pub enum ConfigError {
    /// A sample rate of zero, or a target rate under 1000 Hz.
    UnsupportedRate,
    /// No channel, or more channels than a window can be counted for.
    UnsupportedChannels,
}

} // verus!
