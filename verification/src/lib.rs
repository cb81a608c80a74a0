//! A compositional audio signal-processing library in fixed-point arithmetic.
//!
//! Signals are streams of Q15 fixed-point samples: an `i64` whose full scale
//! is `FULL_SCALE` (+/-32767), so that intermediate values may exceed full
//! scale without overflowing. Generators produce one sample per pull, filters
//! transform one sample per call, and combinators compose them into a graph
//! that is configured for a sample rate and reset as a whole.

pub mod automation;
pub mod data;
pub mod delay;
pub mod distortion;
pub mod filter;
pub mod filtered;
pub mod inspection;
pub mod knob;
pub mod limiter;
pub mod lowpass;
pub mod module;
pub mod noise;
pub mod oscillator;
pub mod sample;
pub mod signal;
pub mod types;
pub mod waveform;

use vstd::prelude::*;

verus! {

/// Number of fixed-point fractional steps representing 1.0 exactly.
pub const Q15_ONE: i64 = 32768;

/// Largest sample magnitude considered full scale (0 dB).
pub const FULL_SCALE: i64 = 32767;

} // verus!
