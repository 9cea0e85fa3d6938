//! A four-operator FM synthesis engine in fixed-point arithmetic.
//!
//! Phases are 32-bit accumulators (one period is `2^32`), samples are signed
//! integers where `SAMPLE_ONE` stands for full scale, and gains are unsigned
//! integers where `GAIN_ONE` stands for unity.
use vstd::prelude::*;

pub mod tables;
pub mod waveform;
pub mod envelope;
pub mod operator;
pub mod algorithm;
pub mod patch;
pub mod mixer;
pub mod sequencer;

verus! {

/// Number of operators in a patch.
pub const OPERATOR_COUNT: usize = 4;

/// Full-scale sample value.
pub const SAMPLE_ONE: i32 = 32768;

/// Unity gain.
pub const GAIN_ONE: u32 = 16777216;

/// Largest envelope attenuation: the envelope is silent there.
pub const ATTENUATION_MAX: u16 = 1024;

/// Gain between operator stages, undone on the final sum.
pub const AMPLIFICATION: i64 = 25;

/// Lowest sample rate the engine accepts.
pub const MIN_SAMPLE_RATE: u32 = 8000;

/// A configuration value out of its domain.
#[derive(Clone, Copy, Debug, PartialEq, Eq, Structural)]
pub enum ConfigError {
    /// A frequency multiplier index above 20.
    FrequencyMultiplier,
    /// A detune outside `-100..=100` cents.
    Detune,
    /// An unknown waveform tag, or a pulse with a zero duty cycle.
    Waveform,
    /// A feedback level above 15.
    FeedbackLevel,
    /// An algorithm number above 7.
    Algorithm,
    /// A sample rate below `MIN_SAMPLE_RATE`.
    SampleRate,
    /// A tempo of zero, one too fast for a step to last one sample, or one so
    /// slow that a step's samples do not fit a `u32`.
    Tempo,
    /// A sequence whose patterns, patches or notes do not fit together.
    Sequence,
}

} // verus!
