//! Session configuration: validation and one-time resolution.
//!
//! The configuration surface arrives as plain, already-parsed values.
//! Before any session starts it is checked — unsupported format
//! combinations, conflicting tee flags and unacknowledged dangerous
//! features are rejected with a configuration error — and resolved into an
//! immutable `SessionConfig`: the format tag, the byte order, the final
//! gain multiplier and the tee mode never change during a session.

use vstd::prelude::*;

use crate::format::ByteOrder;
use crate::format::ConfigError;
use crate::format::SampleFormat;
use crate::format::format_table;
use crate::format::resolve_format;
use crate::transform::ATTENUATION_PPM;
use crate::transform::GAIN_UNIT;

verus! {

/// The configuration surface the core consumes: selectors for the sample
/// encoding, the gain with its safety overrides, the tee mode and the
/// stream geometry.  Gain is in parts per million of full amplitude.
#[derive(Clone, Copy, PartialEq, Eq, Structural, Debug)]
pub struct SessionOptions {
    /// Playback sample rate, in Hz.
    pub sample_rate: u32,
    /// Size of samples in bits; the table supports 8, 16, 32 and 64.
    pub sample_size: u32,
    /// Number of channels in the audio stream.
    pub channels: u16,
    /// Loudness from 0 to one `GAIN_UNIT`, in parts per million;
    /// `dangerous` lifts the upper bound.
    pub gain_ppm: u32,
    /// Input samples are unsigned, incompatible with `float`.
    pub unsigned: bool,
    /// Input samples are floating point, incompatible with sizes below 32.
    pub float: bool,
    /// Input samples are big-endian, irrelevant with 8-bit samples.
    pub be: bool,
    /// Echo post-gain values to the byte sink, incompatible with `pre_out`.
    pub post_out: bool,
    /// Echo raw input values to the byte sink, incompatible with `post_out`.
    pub pre_out: bool,
    /// Disable the default output attenuation.
    pub loud: bool,
    /// Remove the bounds on gain.
    pub dangerous: bool,
    /// Disable the hard limiter on output amplitude.
    pub unlimited: bool,
    /// Acknowledgement that the dangerous, unbounded features may damage
    /// hearing and equipment.
    pub i_understand: bool,
}

/// Where, if anywhere, the transform echoes each sample for diagnostics.
/// Mutually exclusive by construction: never both stages.
#[derive(Clone, Copy, PartialEq, Eq, Structural, Debug)]
pub enum TeeMode {
    Off,
    PreGain,
    PostGain,
}

/// Non-fatal advisories: surfaced as warnings by the caller, they never
/// alter control flow.
#[derive(Clone, Copy, PartialEq, Eq, Structural, Debug)]
pub struct Advisories {
    /// A byte-order flag was given but 8-bit samples have no byte order.
    pub endianness_ignored: bool,
    /// Sample rates below 8 kHz may sound very distorted.
    pub low_sample_rate: bool,
    /// The configured gain lies outside [0, 1] and will be clamped.
    pub gain_clamped: bool,
    /// All bounds on gain are removed; output may be very loud.
    pub gain_unbounded: bool,
}

/// Everything a session needs, resolved once before streaming starts and
/// immutable for the session's lifetime.
#[derive(Clone, Copy, PartialEq, Eq, Structural, Debug)]
pub struct SessionConfig {
    pub format: SampleFormat,
    pub order: ByteOrder,
    /// Playback sample rate, in Hz.
    pub sample_rate: u32,
    /// The final gain multiplier in parts per million: clamping and the
    /// default attenuation are already applied.
    pub gain_ppm: u32,
    pub tee: TeeMode,
    pub channels: u16,
    /// Whether output amplitude is hard-limited to [-1.0, 1.0].
    pub limit: bool,
    pub advisories: Advisories,
}

/// The resolved gain multiplier: the configured gain clamped to [0, 1]
/// unless the dangerous override removes the bounds, then reduced by the
/// default attenuation unless loud disables that step.
pub open spec fn resolved_gain(gain_ppm: int, loud: bool, dangerous: bool) -> int {
    let g = if dangerous {
        gain_ppm
    } else if gain_ppm > GAIN_UNIT as int {
        GAIN_UNIT as int
    } else {
        gain_ppm
    };
    if loud {
        g
    } else {
        (g * ATTENUATION_PPM as int) / (GAIN_UNIT as int)
    }
}

/// Resolve the final gain multiplier, exactly per `resolved_gain`.
pub fn resolve_gain(gain_ppm: u32, loud: bool, dangerous: bool) -> (r: u32)
    ensures
        r as int == resolved_gain(gain_ppm as int, loud, dangerous),
{
    let g: u32 = if dangerous {
        gain_ppm
    } else if gain_ppm > GAIN_UNIT {
        GAIN_UNIT
    } else {
        gain_ppm
    };
    if loud {
        g
    } else {
        proof {
            assert((g as int) * (ATTENUATION_PPM as int) < 0x1_0000_0000_0000_0000
                && ((g as int) * (ATTENUATION_PPM as int)) / (GAIN_UNIT as int) < 0x1_0000_0000)
                by (nonlinear_arith)
                requires
                    0 <= (g as int) && (g as int) < 0x1_0000_0000,
            ;
        }
        (((g as u64) * (ATTENUATION_PPM as u64)) / (GAIN_UNIT as u64)) as u32
    }
}

/// The advisory warnings a configuration provokes.
pub open spec fn advisories_spec(opt: SessionOptions) -> Advisories {
    Advisories {
        endianness_ignored: opt.be && opt.sample_size == 8,
        low_sample_rate: opt.sample_rate < 8000,
        gain_clamped: !opt.dangerous && opt.gain_ppm > GAIN_UNIT,
        gain_unbounded: opt.dangerous,
    }
}

/// Validation and resolution of a whole configuration: the format table
/// first, then tee exclusivity, then the acknowledgement that the
/// dangerous features demand, and finally gain resolution.
pub open spec fn sanity_spec(opt: SessionOptions) -> Result<SessionConfig, ConfigError> {
    match format_table(opt.float, opt.unsigned, opt.sample_size) {
        Err(e) => Err(e),
        Ok(format) => {
            if opt.pre_out && opt.post_out {
                Err(ConfigError::ConflictingTee)
            } else if (opt.dangerous || opt.loud || opt.unlimited) && !opt.i_understand {
                Err(ConfigError::MissingAcknowledgement)
            } else {
                Ok(
                    SessionConfig {
                        format,
                        order: if opt.be {
                            ByteOrder::Big
                        } else {
                            ByteOrder::Little
                        },
                        sample_rate: opt.sample_rate,
                        gain_ppm: resolved_gain(
                            opt.gain_ppm as int,
                            opt.loud,
                            opt.dangerous,
                        ) as u32,
                        tee: if opt.pre_out {
                            TeeMode::PreGain
                        } else if opt.post_out {
                            TeeMode::PostGain
                        } else {
                            TeeMode::Off
                        },
                        channels: opt.channels,
                        limit: !opt.unlimited,
                        advisories: advisories_spec(opt),
                    },
                )
            }
        },
    }
}

/// Sanity-check the configuration and resolve it for a session.
///
/// Succeeds exactly on the configurations `sanity_spec` accepts; in
/// particular a configuration asking to echo both the pre-gain and the
/// post-gain stage is always rejected before any streaming starts.
pub fn config_sanity_check(opt: &SessionOptions) -> (r: Result<SessionConfig, ConfigError>)
    ensures
        r == sanity_spec(*opt),
        opt.pre_out && opt.post_out ==> r is Err,
{
    let format = match resolve_format(opt.float, opt.unsigned, opt.sample_size) {
        Ok(format) => format,
        Err(e) => {
            return Err(e);
        },
    };
    if opt.pre_out && opt.post_out {
        return Err(ConfigError::ConflictingTee);
    }
    let is_using_dangerous_features = opt.dangerous || opt.loud || opt.unlimited;
    if is_using_dangerous_features && !opt.i_understand {
        return Err(ConfigError::MissingAcknowledgement);
    }
    let gain_ppm = resolve_gain(opt.gain_ppm, opt.loud, opt.dangerous);
    let order = if opt.be {
        ByteOrder::Big
    } else {
        ByteOrder::Little
    };
    let tee = if opt.pre_out {
        TeeMode::PreGain
    } else if opt.post_out {
        TeeMode::PostGain
    } else {
        TeeMode::Off
    };
    let advisories = Advisories {
        endianness_ignored: opt.be && opt.sample_size == 8,
        low_sample_rate: opt.sample_rate < 8000,
        gain_clamped: !opt.dangerous && opt.gain_ppm > GAIN_UNIT,
        gain_unbounded: opt.dangerous,
    };
    Ok(
        SessionConfig {
            format,
            order,
            sample_rate: opt.sample_rate,
            gain_ppm,
            tee,
            channels: opt.channels,
            limit: !opt.unlimited,
            advisories,
        },
    )
}

} // verus!
