//! Sample formats, byte order, and the fixed format-resolution table.
//!
//! A session's format is derived once from three independent selectors —
//! is-float, is-unsigned and bit width — through a fixed table; every
//! combination outside the table is a configuration error, reported before
//! any session starts.

use vstd::prelude::*;

verus! {

/// The sample encodings a session can be configured with.
#[derive(Clone, Copy, PartialEq, Eq, Structural, Debug)]
pub enum SampleFormat {
    I8,
    U8,
    I16,
    U16,
    I32,
    U32,
    I64,
    U64,
    F32,
    F64,
}

/// Byte order, applied uniformly to every decode and encode of a session.
#[derive(Clone, Copy, PartialEq, Eq, Structural, Debug)]
pub enum ByteOrder {
    Little,
    Big,
}

/// Why a configuration was rejected before any session started.
#[derive(Clone, Copy, PartialEq, Eq, Structural, Debug)]
pub enum ConfigError {
    /// Floating point values can not be represented as unsigned.
    UnsignedFloat,
    /// Floating point samples exist only at 32 and 64 bits.
    UnsupportedFloatSize(u32),
    /// Integer samples exist only at 8, 16, 32 and 64 bits.
    UnsupportedSampleSize(u32),
    /// Pre-gain and post-gain echo can not both be active.
    ConflictingTee,
    /// Dangerous, unbounded features need an explicit acknowledgement.
    MissingAcknowledgement,
}

impl SampleFormat {
    /// Width in bytes of one encoded sample of this format.
    pub open spec fn width_spec(self) -> int {
        match self {
            SampleFormat::I8 => 1,
            SampleFormat::U8 => 1,
            SampleFormat::I16 => 2,
            SampleFormat::U16 => 2,
            SampleFormat::I32 => 4,
            SampleFormat::U32 => 4,
            SampleFormat::I64 => 8,
            SampleFormat::U64 => 8,
            SampleFormat::F32 => 4,
            SampleFormat::F64 => 8,
        }
    }

    /// Width in bytes of one encoded sample of this format.
    pub fn width(self) -> (n: usize)
        ensures
            n as int == self.width_spec(),
    {
        match self {
            SampleFormat::I8 => 1,
            SampleFormat::U8 => 1,
            SampleFormat::I16 => 2,
            SampleFormat::U16 => 2,
            SampleFormat::I32 => 4,
            SampleFormat::U32 => 4,
            SampleFormat::I64 => 8,
            SampleFormat::U64 => 8,
            SampleFormat::F32 => 4,
            SampleFormat::F64 => 8,
        }
    }
}

/// The fixed resolution table from the three independent selectors to the
/// format tag: integers of width 8, 16, 32 or 64, signed or unsigned, and
/// floats of width 32 or 64; everything else is a configuration error.
pub open spec fn format_table(float: bool, unsigned: bool, size: u32) -> Result<
    SampleFormat,
    ConfigError,
> {
    if float && unsigned {
        Err(ConfigError::UnsignedFloat)
    } else if float {
        if size == 32 {
            Ok(SampleFormat::F32)
        } else if size == 64 {
            Ok(SampleFormat::F64)
        } else {
            Err(ConfigError::UnsupportedFloatSize(size))
        }
    } else {
        if size == 8 {
            Ok(if unsigned { SampleFormat::U8 } else { SampleFormat::I8 })
        } else if size == 16 {
            Ok(if unsigned { SampleFormat::U16 } else { SampleFormat::I16 })
        } else if size == 32 {
            Ok(if unsigned { SampleFormat::U32 } else { SampleFormat::I32 })
        } else if size == 64 {
            Ok(if unsigned { SampleFormat::U64 } else { SampleFormat::I64 })
        } else {
            Err(ConfigError::UnsupportedSampleSize(size))
        }
    }
}

/// Resolve the format tag from the three selectors, exactly per the table.
pub fn resolve_format(float: bool, unsigned: bool, size: u32) -> (r: Result<
    SampleFormat,
    ConfigError,
>)
    ensures
        r == format_table(float, unsigned, size),
{
    match (float, unsigned, size) {
        (false, false, 8) => Ok(SampleFormat::I8),
        (false, true, 8) => Ok(SampleFormat::U8),
        (false, false, 16) => Ok(SampleFormat::I16),
        (false, true, 16) => Ok(SampleFormat::U16),
        (false, false, 32) => Ok(SampleFormat::I32),
        (false, true, 32) => Ok(SampleFormat::U32),
        (false, false, 64) => Ok(SampleFormat::I64),
        (false, true, 64) => Ok(SampleFormat::U64),
        (true, false, 32) => Ok(SampleFormat::F32),
        (true, false, 64) => Ok(SampleFormat::F64),
        (true, true, _) => Err(ConfigError::UnsignedFloat),
        (true, false, invalid_size) => Err(ConfigError::UnsupportedFloatSize(invalid_size)),
        (false, _, invalid_size) => Err(ConfigError::UnsupportedSampleSize(invalid_size)),
    }
}

} // verus!
