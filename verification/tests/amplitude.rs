//! Transform tests: normalization anchors, gain resolution and scaling,
//! and the hard limiter.

use rawplay::config::resolve_gain;
use rawplay::transform::{apply_gain, hard_limit, Amplitude, AMP_ONE, ATTENUATION_PPM, GAIN_UNIT};

#[test]
fn normalize_signed16_extremes() {
    // full-scale negative lands exactly on -1.0
    assert_eq!((-32768i16).to_amp(), i64::MIN);
    // full-scale positive is just below 1.0 (about 0.99997)
    assert_eq!(32767i16.to_amp(), 32767i64 * (1i64 << 48));
    let approx = 32767i16.to_amp() as f64 / AMP_ONE as f64;
    assert!((approx - 0.99997).abs() < 1e-4);
    assert_eq!(0i16.to_amp(), 0);
}

#[test]
fn normalize_unsigned8_midpoint() {
    // the unsigned midpoint, not zero, is silence
    assert_eq!(128u8.to_amp(), 0);
    assert_eq!(0u8.to_amp(), i64::MIN);
    assert_eq!(255u8.to_amp(), 127i64 << 56);
    let approx = 255u8.to_amp() as f64 / AMP_ONE as f64;
    assert!((approx - 0.992).abs() < 1e-3);
}

#[test]
fn normalize_remaining_widths() {
    assert_eq!((-128i8).to_amp(), i64::MIN);
    assert_eq!(127i8.to_amp(), 127i64 << 56);
    assert_eq!(0x8000u16.to_amp(), 0);
    assert_eq!(0u16.to_amp(), i64::MIN);
    assert_eq!(i32::MIN.to_amp(), i64::MIN);
    assert_eq!(1i32.to_amp(), 1i64 << 32);
    assert_eq!(0x8000_0000u32.to_amp(), 0);
    assert_eq!(i64::MIN.to_amp(), i64::MIN);
    assert_eq!(i64::MAX.to_amp(), i64::MAX);
    assert_eq!(0x8000_0000_0000_0000u64.to_amp(), 0);
    assert_eq!(0u64.to_amp(), i64::MIN);
    assert_eq!(u64::MAX.to_amp(), i64::MAX);
}

#[test]
fn gain_resolution_formula() {
    // clamp(gain, 0, 1) times the default attenuation
    assert_eq!(resolve_gain(GAIN_UNIT, false, false), ATTENUATION_PPM);
    assert_eq!(resolve_gain(1_500_000, false, false), ATTENUATION_PPM);
    assert_eq!(resolve_gain(500_000, false, false), 165_000);
    // loud disables the attenuation step
    assert_eq!(resolve_gain(GAIN_UNIT, true, false), GAIN_UNIT);
    assert_eq!(resolve_gain(1_500_000, true, false), GAIN_UNIT);
    // dangerous removes the clamp
    assert_eq!(resolve_gain(1_500_000, true, true), 1_500_000);
    assert_eq!(resolve_gain(1_500_000, false, true), 495_000);
    assert_eq!(resolve_gain(0, false, false), 0);
}

#[test]
fn gain_scaling_exact() {
    assert_eq!(apply_gain(0, GAIN_UNIT), 0);
    assert_eq!(apply_gain(i64::MIN, GAIN_UNIT), -(AMP_ONE));
    assert_eq!(apply_gain(i64::MIN, 330_000), -((1i128 << 63) * 330_000 / 1_000_000));
    assert_eq!(apply_gain(1_000_000, 500_000), 500_000);
    // truncation toward zero on both signs
    assert_eq!(apply_gain(3, 500_000), 1);
    assert_eq!(apply_gain(-3, 500_000), -1);
}

#[test]
fn hard_limit_clamps_to_full_scale() {
    assert_eq!(hard_limit(AMP_ONE + 12345), AMP_ONE);
    assert_eq!(hard_limit(-AMP_ONE - 12345), -AMP_ONE);
    assert_eq!(hard_limit(AMP_ONE), AMP_ONE);
    assert_eq!(hard_limit(-AMP_ONE), -AMP_ONE);
    assert_eq!(hard_limit(7), 7);
    // a dangerous gain far above one still cannot push a limited sample
    // past full scale
    let post = apply_gain(i64::MAX, 4_000_000);
    assert!(post > AMP_ONE);
    assert_eq!(hard_limit(post), AMP_ONE);
}
