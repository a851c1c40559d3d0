//! Constants used in the codec.

use vstd::prelude::*;

verus! {

/// Audio samples per second.
pub const SAMPLE_RATE: usize = 8000;

/// Samples per voiced/unvoiced frame.
pub const SAMPLES_PER_FRAME: usize = 160;

/// Number of harmonics L when the fundamental frequency is maximum.
pub const MIN_HARMONICS: usize = 9;

/// Number of harmonics L when the fundamental frequency is minimum.
pub const MAX_HARMONICS: usize = 56;

/// Number of discrete values that exist for the harmonics parameter.
pub const NUM_HARMONICS: usize = 48;

/// Maximum number of quantized amplitudes b<sub>m</sub>, 3 ≤ m ≤ L + 1.
pub const MAX_QUANTIZED_AMPS: usize = 55;

} // verus!
