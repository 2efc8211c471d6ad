use rustic_audio_tool::opus_encoder::{OpusEncoder, OpusEncodingMode};

#[test]
fn new_encoder_has_documented_defaults() {
    let encoder = OpusEncoder::new();
    assert_eq!(encoder.get_bitrate(), 12000);
    assert!(encoder.get_mode() == OpusEncodingMode::Cbr);
    assert_eq!(encoder.get_vbr_quality(), 5);
    assert_eq!(encoder.mode_name(), "CBR");
}

#[test]
fn setters_change_one_setting_each() {
    let mut encoder = OpusEncoder::new();
    encoder.set_bitrate(64000);
    assert_eq!(encoder.get_bitrate(), 64000);
    assert!(encoder.get_mode() == OpusEncodingMode::Cbr);
    encoder.set_mode(OpusEncodingMode::Vbr);
    assert!(encoder.get_mode() == OpusEncodingMode::Vbr);
    assert_eq!(encoder.mode_name(), "VBR");
    assert_eq!(encoder.get_bitrate(), 64000);
    encoder.set_vbr_quality(8);
    assert_eq!(encoder.get_vbr_quality(), 8);
    assert_eq!(encoder.get_bitrate(), 64000);
}

#[test]
fn vbr_quality_is_clamped() {
    let mut encoder = OpusEncoder::new();
    encoder.set_vbr_quality(-3);
    assert_eq!(encoder.get_vbr_quality(), 0);
    encoder.set_vbr_quality(42);
    assert_eq!(encoder.get_vbr_quality(), 10);
    encoder.set_vbr_quality(10);
    assert_eq!(encoder.get_vbr_quality(), 10);
}

#[test]
fn codec_settings_follow_encoder_settings() {
    let mut encoder = OpusEncoder::new();
    let settings = encoder.codec_settings();
    assert_eq!(settings.bitrate_bps, 12000);
    assert!(settings.use_cbr);
    assert_eq!(settings.complexity, 5);
    encoder.set_mode(OpusEncodingMode::Vbr);
    encoder.set_vbr_quality(9);
    encoder.set_bitrate(16000);
    let settings = encoder.codec_settings();
    assert_eq!(settings.bitrate_bps, 16000);
    assert!(!settings.use_cbr);
    assert_eq!(settings.complexity, 9);
}

#[test]
fn cloned_encoder_keeps_settings() {
    let mut encoder = OpusEncoder::new();
    encoder.set_bitrate(24000);
    let copy = encoder.clone();
    assert_eq!(copy.get_bitrate(), 24000);
}
