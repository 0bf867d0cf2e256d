//! Configuration tests: the format table, tee exclusivity, the dangerous
//! acknowledgement, gain resolution inside the whole check, and advisories.

use rawplay::bit_io::SizedNumber;
use rawplay::config::{config_sanity_check, SessionOptions, TeeMode};
use rawplay::format::{resolve_format, ByteOrder, ConfigError, SampleFormat};
use rawplay::transform::{ATTENUATION_PPM, GAIN_UNIT};

fn base_options() -> SessionOptions {
    SessionOptions {
        sample_rate: 44_100,
        sample_size: 32,
        channels: 2,
        gain_ppm: GAIN_UNIT,
        unsigned: false,
        float: false,
        be: false,
        post_out: false,
        pre_out: false,
        loud: false,
        dangerous: false,
        unlimited: false,
        i_understand: false,
    }
}

#[test]
fn format_table_supported_rows() {
    assert_eq!(resolve_format(false, false, 8), Ok(SampleFormat::I8));
    assert_eq!(resolve_format(false, true, 8), Ok(SampleFormat::U8));
    assert_eq!(resolve_format(false, false, 16), Ok(SampleFormat::I16));
    assert_eq!(resolve_format(false, true, 16), Ok(SampleFormat::U16));
    assert_eq!(resolve_format(false, false, 32), Ok(SampleFormat::I32));
    assert_eq!(resolve_format(false, true, 32), Ok(SampleFormat::U32));
    assert_eq!(resolve_format(false, false, 64), Ok(SampleFormat::I64));
    assert_eq!(resolve_format(false, true, 64), Ok(SampleFormat::U64));
    assert_eq!(resolve_format(true, false, 32), Ok(SampleFormat::F32));
    assert_eq!(resolve_format(true, false, 64), Ok(SampleFormat::F64));
}

#[test]
fn format_table_rejected_rows() {
    assert_eq!(resolve_format(true, true, 32), Err(ConfigError::UnsignedFloat));
    assert_eq!(resolve_format(true, true, 24), Err(ConfigError::UnsignedFloat));
    assert_eq!(
        resolve_format(true, false, 16),
        Err(ConfigError::UnsupportedFloatSize(16))
    );
    assert_eq!(
        resolve_format(false, false, 24),
        Err(ConfigError::UnsupportedSampleSize(24))
    );
    assert_eq!(
        resolve_format(false, true, 0),
        Err(ConfigError::UnsupportedSampleSize(0))
    );
}

#[test]
fn format_widths() {
    assert_eq!(SampleFormat::I8.width(), 1);
    assert_eq!(SampleFormat::U16.width(), 2);
    assert_eq!(SampleFormat::I32.width(), 4);
    assert_eq!(SampleFormat::F32.width(), 4);
    assert_eq!(SampleFormat::U64.width(), 8);
    assert_eq!(SampleFormat::F64.width(), 8);
}

#[test]
fn format_widths_match_codec_sizes() {
    assert_eq!(SampleFormat::I8.width(), <i8 as SizedNumber>::size());
    assert_eq!(SampleFormat::U8.width(), <u8 as SizedNumber>::size());
    assert_eq!(SampleFormat::I16.width(), <i16 as SizedNumber>::size());
    assert_eq!(SampleFormat::U16.width(), <u16 as SizedNumber>::size());
    assert_eq!(SampleFormat::I32.width(), <i32 as SizedNumber>::size());
    assert_eq!(SampleFormat::U32.width(), <u32 as SizedNumber>::size());
    assert_eq!(SampleFormat::I64.width(), <i64 as SizedNumber>::size());
    assert_eq!(SampleFormat::U64.width(), <u64 as SizedNumber>::size());
}

#[test]
fn tee_modes_are_exclusive() {
    // both echo stages at once is rejected before any streaming starts
    let mut opt = base_options();
    opt.pre_out = true;
    opt.post_out = true;
    assert_eq!(config_sanity_check(&opt), Err(ConfigError::ConflictingTee));
    // each alone is fine
    opt.post_out = false;
    assert_eq!(config_sanity_check(&opt).unwrap().tee, TeeMode::PreGain);
    opt.pre_out = false;
    opt.post_out = true;
    assert_eq!(config_sanity_check(&opt).unwrap().tee, TeeMode::PostGain);
    opt.post_out = false;
    assert_eq!(config_sanity_check(&opt).unwrap().tee, TeeMode::Off);
}

#[test]
fn dangerous_features_need_acknowledgement() {
    let mut opt = base_options();
    opt.loud = true;
    assert_eq!(
        config_sanity_check(&opt),
        Err(ConfigError::MissingAcknowledgement)
    );
    opt.i_understand = true;
    assert!(config_sanity_check(&opt).is_ok());

    let mut opt = base_options();
    opt.dangerous = true;
    assert_eq!(
        config_sanity_check(&opt),
        Err(ConfigError::MissingAcknowledgement)
    );

    let mut opt = base_options();
    opt.unlimited = true;
    assert_eq!(
        config_sanity_check(&opt),
        Err(ConfigError::MissingAcknowledgement)
    );
}

#[test]
fn format_errors_come_before_tee_errors() {
    let mut opt = base_options();
    opt.float = true;
    opt.unsigned = true;
    opt.pre_out = true;
    opt.post_out = true;
    assert_eq!(config_sanity_check(&opt), Err(ConfigError::UnsignedFloat));
}

#[test]
fn resolved_session_fields() {
    let mut opt = base_options();
    opt.be = true;
    opt.sample_size = 16;
    opt.unsigned = true;
    let cfg = config_sanity_check(&opt).unwrap();
    assert_eq!(cfg.format, SampleFormat::U16);
    assert_eq!(cfg.order, ByteOrder::Big);
    assert_eq!(cfg.gain_ppm, ATTENUATION_PPM);
    assert_eq!(cfg.channels, 2);
    assert!(cfg.limit);
    assert_eq!(cfg.tee, TeeMode::Off);
}

#[test]
fn gain_is_clamped_then_attenuated() {
    let mut opt = base_options();
    opt.gain_ppm = 2_000_000;
    let cfg = config_sanity_check(&opt).unwrap();
    assert_eq!(cfg.gain_ppm, ATTENUATION_PPM);

    let mut opt = base_options();
    opt.gain_ppm = 2_000_000;
    opt.dangerous = true;
    opt.loud = true;
    opt.i_understand = true;
    let cfg = config_sanity_check(&opt).unwrap();
    assert_eq!(cfg.gain_ppm, 2_000_000);
}

#[test]
fn advisories_are_reported() {
    let mut opt = base_options();
    opt.sample_size = 8;
    opt.be = true;
    opt.sample_rate = 4_000;
    opt.gain_ppm = 3_000_000;
    let cfg = config_sanity_check(&opt).unwrap();
    assert!(cfg.advisories.endianness_ignored);
    assert!(cfg.advisories.low_sample_rate);
    assert!(cfg.advisories.gain_clamped);
    assert!(!cfg.advisories.gain_unbounded);

    let cfg = config_sanity_check(&base_options()).unwrap();
    assert!(!cfg.advisories.endianness_ignored);
    assert!(!cfg.advisories.low_sample_rate);
    assert!(!cfg.advisories.gain_clamped);
}
