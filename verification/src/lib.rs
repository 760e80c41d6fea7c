//! Playback of pre-authored haptic clips.
//!
//! A clip is a time-indexed description of vibration intensity and frequency.
//! Times and amplitudes are held as fixed-point integers: one time unit is
//! 10 microseconds, and one amplitude or frequency unit is 1/100000 of the
//! normalized range `[0, 1]`.

use vstd::prelude::*;

pub mod ahap;
pub mod android;
pub mod controller;
pub mod emphasis;
pub mod error;
pub mod fixed;
pub mod gamepad;
pub mod interpolation;
pub mod laws;
pub mod loader;
pub mod model;
pub mod null;
pub mod provider;
pub mod streaming;
pub mod v0;
pub mod waveform;
pub mod version;

verus! {

} // verus!
