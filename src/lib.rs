//! Band-limited periodic waveforms and additive harmonic synthesis on
//! fixed-point numbers.
//!
//! Every real quantity (a level, an amplitude, a frequency in Hz, a phase)
//! is an `i64` with `fixed::FRAC_BITS` fractional bits, so that `fixed::ONE`
//! stands for 1.0. Phases are measured in turns (one turn is a full cycle),
//! except the harmonic bias of the series waveforms, which is in radians.

pub mod fixed;
pub mod trig;
pub mod phasor;
pub mod error;
pub mod config;
pub mod envelope;
pub mod freq_forms;
pub mod waveforms;
pub mod gen;
pub mod render;
pub mod composer;
pub mod demo;
