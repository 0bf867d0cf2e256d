//! Verified core of a raw-audio playback pipeline.
//!
//! A headerless stream of fixed-width numeric samples is decoded in either
//! byte order, normalized to a fixed-point amplitude, scaled by a resolved
//! gain, optionally teed out for diagnostics, and written into an output
//! buffer one sample per slot.  Everything here is executable Rust verified
//! against the contracts on each item; the audio device, the command line
//! and all file handles live outside this crate.

pub mod bit_io;
pub mod bridge;
pub mod bytes;
pub mod config;
pub mod format;
pub mod transform;
