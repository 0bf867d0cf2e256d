//! The per-sample transform: normalization, gain and hard limiting.
//!
//! Amplitudes are exact fixed-point values: 1.0 is `AMP_ONE` = 2^63, so a
//! normalized sample occupies [-AMP_ONE, AMP_ONE) and the extreme negative
//! raw value of every integer format lands on -1.0 exactly.  Gain is a
//! multiplier in parts per million.  Gains above one (available only behind
//! the dangerous override) can push a value past full scale; the hard
//! limiter clamps it back to [-1.0, 1.0].

use vstd::prelude::*;

use crate::bit_io::SizedNumber;

verus! {

/// Full scale: the fixed-point amplitude representing 1.0.
pub const AMP_ONE: i128 = 0x8000_0000_0000_0000;

/// A gain of 1.0, in parts per million.
pub const GAIN_UNIT: u32 = 1_000_000;

/// The default attenuation multiplier: output reduced to 0.33 of full scale.
pub const ATTENUATION_PPM: u32 = 330_000;

/// The signed reading of an unsigned `w`-bit representation `r` in two's
/// complement, with `half` = 2^(w-1).
pub open spec fn centered(r: int, half: int) -> int {
    if r < half {
        r
    } else {
        r - 2 * half
    }
}

/// A raw sample normalized to a fixed-point amplitude nominally in
/// [-1.0, 1.0): signed values scale by 2^(64-w); unsigned values are first
/// shifted so that the unsigned midpoint, not zero, is silence.
pub trait Amplitude: SizedNumber {
    /// Amplitude of the sample whose wire representation is `r`.
    spec fn amp_of(r: int) -> int;

    /// Normalize this sample.
    fn to_amp(self) -> (a: i64)
        ensures
            a as int == Self::amp_of(self.repr()),
    ;
}

impl Amplitude for i8 {
    open spec fn amp_of(r: int) -> int {
        centered(r, 0x80) * 0x100_0000_0000_0000
    }

    fn to_amp(self) -> (a: i64) {
        (self as i64) * 0x100_0000_0000_0000
    }
}

impl Amplitude for u8 {
    open spec fn amp_of(r: int) -> int {
        (r - 0x80) * 0x100_0000_0000_0000
    }

    fn to_amp(self) -> (a: i64) {
        ((self as i64) - 0x80) * 0x100_0000_0000_0000
    }
}

impl Amplitude for i16 {
    open spec fn amp_of(r: int) -> int {
        centered(r, 0x8000) * 0x1_0000_0000_0000
    }

    fn to_amp(self) -> (a: i64) {
        (self as i64) * 0x1_0000_0000_0000
    }
}

impl Amplitude for u16 {
    open spec fn amp_of(r: int) -> int {
        (r - 0x8000) * 0x1_0000_0000_0000
    }

    fn to_amp(self) -> (a: i64) {
        ((self as i64) - 0x8000) * 0x1_0000_0000_0000
    }
}

impl Amplitude for i32 {
    open spec fn amp_of(r: int) -> int {
        centered(r, 0x8000_0000) * 0x1_0000_0000
    }

    fn to_amp(self) -> (a: i64) {
        (self as i64) * 0x1_0000_0000
    }
}

impl Amplitude for u32 {
    open spec fn amp_of(r: int) -> int {
        (r - 0x8000_0000) * 0x1_0000_0000
    }

    fn to_amp(self) -> (a: i64) {
        ((self as i64) - 0x8000_0000) * 0x1_0000_0000
    }
}

impl Amplitude for i64 {
    open spec fn amp_of(r: int) -> int {
        centered(r, 0x8000_0000_0000_0000)
    }

    fn to_amp(self) -> (a: i64) {
        self
    }
}

impl Amplitude for u64 {
    open spec fn amp_of(r: int) -> int {
        r - 0x8000_0000_0000_0000
    }

    fn to_amp(self) -> (a: i64) {
        ((self as i128) - AMP_ONE) as i64
    }
}

/// The exact post-gain value: the amplitude times the gain in parts per
/// million, truncated toward zero.
pub open spec fn gain_scaled(amp: int, gain_ppm: int) -> int {
    if amp >= 0 {
        (amp * gain_ppm) / (GAIN_UNIT as int)
    } else {
        -((-amp * gain_ppm) / (GAIN_UNIT as int))
    }
}

/// Scale a normalized amplitude by the session's resolved gain.
pub fn apply_gain(amp: i64, gain_ppm: u32) -> (v: i128)
    ensures
        v as int == gain_scaled(amp as int, gain_ppm as int),
{
    if amp >= 0 {
        proof {
            assert((amp as int) * (gain_ppm as int) < 0x80000000000000000000000000000000)
                by (nonlinear_arith)
                requires
                    0 <= (amp as int) && (amp as int) < 0x8000_0000_0000_0000,
                    0 <= (gain_ppm as int) && (gain_ppm as int) < 0x1_0000_0000,
            ;
        }
        let p = (amp as u128) * (gain_ppm as u128);
        let q = p / (GAIN_UNIT as u128);
        proof {
            assert(q <= p) by (nonlinear_arith)
                requires
                    q == p / 1000000u128,
            ;
        }
        q as i128
    } else {
        let m = (-(amp as i128)) as u128;
        proof {
            assert((m as int) * (gain_ppm as int) <= 0x80000000000000000000000000000000)
                by (nonlinear_arith)
                requires
                    0 <= (m as int) && (m as int) <= 0x8000_0000_0000_0000,
                    0 <= (gain_ppm as int) && (gain_ppm as int) < 0x1_0000_0000,
            ;
        }
        let p = m * (gain_ppm as u128);
        let q = p / (GAIN_UNIT as u128);
        proof {
            assert(q <= p) by (nonlinear_arith)
                requires
                    q == p / 1000000u128,
            ;
        }
        -(q as i128)
    }
}

/// Hard limiting: the post-gain value clamped to [-1.0, 1.0].
pub open spec fn limited(v: int) -> int {
    if v < -(AMP_ONE as int) {
        -(AMP_ONE as int)
    } else if v > AMP_ONE as int {
        AMP_ONE as int
    } else {
        v
    }
}

/// Clamp the post-gain value to [-1.0, 1.0].
pub fn hard_limit(v: i128) -> (r: i128)
    ensures
        r as int == limited(v as int),
{
    if v < -AMP_ONE {
        -AMP_ONE
    } else if v > AMP_ONE {
        AMP_ONE
    } else {
        v
    }
}

/// Law: a hard-limited value never exceeds full scale in magnitude,
/// whatever the gain produced.
pub proof fn lemma_limited_bounded(v: int)
    ensures
        -(AMP_ONE as int) <= limited(v) <= AMP_ONE as int,
{
}

/// The whole per-sample transform after decoding: normalized amplitude,
/// then gain, then the hard limiter if the session has it enabled.
pub open spec fn transformed(amp: int, gain_ppm: int, limit: bool) -> int {
    if limit {
        limited(gain_scaled(amp, gain_ppm))
    } else {
        gain_scaled(amp, gain_ppm)
    }
}

} // verus!
