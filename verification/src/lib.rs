//! A monophonic sound-synthesis core in exact fixed-point arithmetic.
//!
//! The engine turns note-on/note-off events and a small set of timbre
//! parameters into a stream of audio samples: a phase-accumulator
//! oscillator with four waveform shapes, a four-stage (ADSR) envelope
//! generator, and a synthesizer that composes two oscillators and the
//! envelope under a selectable modulation scheme (none, AM, FM).
//!
//! All quantities are integers in fixed scales, so every sample is an
//! exact function of the control history:
//! - amplitudes and envelope levels are scaled by [`AMP_ONE`] (1.0);
//! - oscillator phase runs over one cycle of [`PHASE_ONE`] units (2π);
//! - frequencies are in milli-hertz.
//!
//! A host-facing adapter converts to and from floating point at the
//! boundary; the core itself never leaves the integers.

use vstd::prelude::*;

pub mod adsr;
pub mod fixed;
pub mod notes;
pub mod synth;
pub mod wave;

verus! {

/// Fixed-point scale of amplitudes and envelope levels: this value means 1.0.
pub const AMP_ONE: i64 = 1048576;

/// Phase units in one full oscillator cycle: this value means 2π.
pub const PHASE_ONE: u64 = 1048576;

/// Half a cycle, in phase units: this value means π.
pub const PHASE_HALF: u64 = 524288;

/// Largest accepted modulation index, in amplitude units (AM depth) or
/// milli-hertz (FM deviation); keeps every product inside `i64`.
pub const MOD_INDEX_MAX: i64 = 1000000000000;

} // verus!
