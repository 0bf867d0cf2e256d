//! End-to-end bridge scenarios: whole-buffer fills through codec, stream
//! and transform, tee echoes, and fatal truncation.

use rawplay::bit_io::{BitReader, BitWriter, StreamError, ToBytes};
use rawplay::bridge::write_data;
use rawplay::config::resolve_gain;
use rawplay::transform::{AMP_ONE, GAIN_UNIT};

#[test]
fn unsigned8_with_default_attenuation() {
    // gain 1.0 with the default attenuation: resolved multiplier 0.33
    let gain = resolve_gain(GAIN_UNIT, false, false);
    let mut reader = BitReader::new(vec![0u8, 128, 255], false);
    let mut output = vec![0i128; 3];
    let mut sink: Option<BitWriter> = None;
    let r = write_data::<u8>(&mut output, 1, gain, &mut reader, false, false, &mut sink, true);
    assert_eq!(r, Ok(()));
    let expected_low = -((1i128 << 63) * 330_000 / 1_000_000);
    let expected_high = ((127i128 << 56) * 330_000) / 1_000_000;
    assert_eq!(output, vec![expected_low, 0, expected_high]);
    // approximately [-0.33, 0.0, 0.33]
    let as_float: Vec<f64> = output.iter().map(|&v| v as f64 / AMP_ONE as f64).collect();
    assert!((as_float[0] + 0.33).abs() < 1e-3);
    assert_eq!(as_float[1], 0.0);
    assert!((as_float[2] - 0.33).abs() < 3e-3);
    assert!(sink.is_none());
}

#[test]
fn signed16_full_scale_negative_is_exact() {
    // bytes [0x00, 0x80] little-endian = -32768; gain 1.0 with the
    // attenuation disabled maps it to -1.0 exactly, already at the limit
    let gain = resolve_gain(GAIN_UNIT, true, false);
    assert_eq!(gain, GAIN_UNIT);
    let mut reader = BitReader::new(vec![0x00, 0x80], false);
    let mut output = vec![0i128; 1];
    let mut sink: Option<BitWriter> = None;
    let r = write_data::<i16>(&mut output, 1, gain, &mut reader, false, false, &mut sink, true);
    assert_eq!(r, Ok(()));
    assert_eq!(output[0], -AMP_ONE);
    assert_eq!(output[0] as f64 / AMP_ONE as f64, -1.0);
}

#[test]
fn truncated_source_is_fatal_and_emits_nothing() {
    // a four-byte format with two bytes left: no slot is written, nothing
    // is consumed and nothing reaches the tee sink
    let mut reader = BitReader::new(vec![0xAA, 0xBB], false);
    let mut output = vec![7i128; 1];
    let mut sink = Some(BitWriter::new(Vec::new(), false));
    let r = write_data::<i32>(&mut output, 1, GAIN_UNIT, &mut reader, true, false, &mut sink, true);
    assert_eq!(r, Err(StreamError::Truncated));
    assert_eq!(output, vec![7i128]);
    assert_eq!(reader.remaining_len(), 2);
    assert_eq!(sink.unwrap().into_inner(), Vec::<u8>::new());
}

#[test]
fn multi_channel_fill_is_one_sample_per_slot() {
    // two channels, two frames: four slots, four consecutive samples
    let mut reader = BitReader::new(vec![1i8 as u8, 2, 3, 4], false);
    let mut output = vec![0i128; 4];
    let mut sink: Option<BitWriter> = None;
    let gain = resolve_gain(GAIN_UNIT, true, false);
    let r = write_data::<i8>(&mut output, 2, gain, &mut reader, false, false, &mut sink, true);
    assert_eq!(r, Ok(()));
    for (i, &v) in output.iter().enumerate() {
        assert_eq!(v, ((i as i128) + 1) << 56);
    }
}

#[test]
fn pre_tee_echoes_the_source_bytes() {
    // the pre-gain tee re-encodes each raw value in the sink's byte order:
    // with matching orders that is exactly the consumed input
    let input = vec![0x01u8, 0x80, 0xFF, 0x7F];
    let mut reader = BitReader::new(input.clone(), true);
    let mut output = vec![0i128; 2];
    let mut sink = Some(BitWriter::new(Vec::new(), true));
    let gain = resolve_gain(GAIN_UNIT, false, false);
    let r = write_data::<u16>(&mut output, 1, gain, &mut reader, true, false, &mut sink, true);
    assert_eq!(r, Ok(()));
    assert_eq!(sink.unwrap().into_inner(), input);
}

#[test]
fn post_tee_emits_post_gain_values() {
    // the post-gain tee emits each post-gain value, before limiting,
    // as 16 little-endian bytes
    let mut reader = BitReader::new(vec![0x00, 0x80, 0xFF, 0x7F], false);
    let mut output = vec![0i128; 2];
    let mut sink = Some(BitWriter::new(Vec::new(), false));
    let gain = resolve_gain(GAIN_UNIT, true, false);
    let r = write_data::<i16>(&mut output, 1, gain, &mut reader, false, true, &mut sink, true);
    assert_eq!(r, Ok(()));
    let v0: i128 = -AMP_ONE;
    let v1: i128 = 32767i128 << 48;
    let mut expected = <i128 as ToBytes>::to_le_bytes(v0);
    expected.extend(<i128 as ToBytes>::to_le_bytes(v1));
    assert_eq!(sink.unwrap().into_inner(), expected);
    assert_eq!(output, vec![v0, v1]);
}

#[test]
fn limiter_caps_dangerous_gain() {
    // gain 4.0 with limiting: full-scale stays within [-1.0, 1.0]
    let gain = resolve_gain(4_000_000, true, true);
    assert_eq!(gain, 4_000_000);
    let mut reader = BitReader::new(vec![0xFF, 0x7F, 0x00, 0x80], false);
    let mut output = vec![0i128; 2];
    let mut sink: Option<BitWriter> = None;
    let r = write_data::<i16>(&mut output, 1, gain, &mut reader, false, false, &mut sink, true);
    assert_eq!(r, Ok(()));
    assert_eq!(output[0], AMP_ONE);
    assert_eq!(output[1], -AMP_ONE);
}

#[test]
fn unlimited_session_passes_overdrive_through() {
    // the same gain without the limiter: values beyond full scale survive
    let gain = 4_000_000u32;
    let mut reader = BitReader::new(vec![0xFF, 0x7F], false);
    let mut output = vec![0i128; 1];
    let mut sink: Option<BitWriter> = None;
    let r = write_data::<i16>(&mut output, 1, gain, &mut reader, false, false, &mut sink, false);
    assert_eq!(r, Ok(()));
    assert_eq!(output[0], (32767i128 << 48) * 4);
    assert!(output[0] > AMP_ONE);
}

#[test]
fn big_endian_session_end_to_end() {
    let gain = resolve_gain(GAIN_UNIT, true, false);
    let mut reader = BitReader::new(vec![0x80, 0x00, 0x7F, 0xFF], true);
    let mut output = vec![0i128; 2];
    let mut sink: Option<BitWriter> = None;
    let r = write_data::<i16>(&mut output, 2, gain, &mut reader, false, false, &mut sink, true);
    assert_eq!(r, Ok(()));
    assert_eq!(output[0], -AMP_ONE);
    assert_eq!(output[1], 32767i128 << 48);
}
