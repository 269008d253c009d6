//! A monophonic wavetable synthesizer voice in fixed-point arithmetic.
//!
//! Amplitudes, envelope levels, gains and oscillator phases are plain
//! integers scaled by the constants of each module, so that every step of
//! the voice engine has an exact mathematical meaning.
mod arith;
pub mod envelope;
pub mod event;
pub mod math;
pub mod midi;
pub mod tuner;
pub mod voice;
pub mod wavetable;
