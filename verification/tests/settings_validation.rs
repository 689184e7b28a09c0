use macrdp::capture::{
    parse_major_version, require_supported_macos, validate_dimensions as validate_capture_dimensions,
    validate_frame_rate, CaptureDimensionError, FrameRateOutOfRange, UnsupportedMacos, VersionError,
};
use macrdp::settings::{validate_dimensions, validate_resolution, DimensionError, SettingsError, VideoSettings};

fn settings<'a>() -> VideoSettings<'a> {
    VideoSettings {
        encoder: Some("auto"),
        chroma_mode: Some("avc420"),
        quality: Some("balanced"),
        width: 0,
        height: 0,
        frame_rate: 30,
        bitrate_mbps: Some(20),
        resolution: Some("1920x1080"),
    }
}

#[test]
fn dimensions_are_bounded() {
    assert_eq!(validate_dimensions(1920, 1080), Ok(()));
    assert_eq!(validate_dimensions(0, 1080), Err(DimensionError::Zero));
    assert_eq!(validate_dimensions(8193, 100), Err(DimensionError::TooLarge));
    assert_eq!(validate_dimensions(8192, 4050), Ok(()));
    assert_eq!(validate_dimensions(8192, 4051), Err(DimensionError::TooManyPixels));
    assert_eq!(validate_dimensions(7680, 4320), Ok(()));
}

#[test]
fn typical_settings_are_accepted() {
    assert!(settings().validate().is_ok());
    let s = VideoSettings { encoder: None, chroma_mode: None, quality: None, bitrate_mbps: None, resolution: None, ..settings() };
    assert!(s.validate().is_ok());
}

#[test]
fn unknown_encoder_is_rejected() {
    let s = VideoSettings { encoder: Some("hevc"), ..settings() };
    assert!(matches!(s.validate(), Err(SettingsError::Encoder(_))));
}

#[test]
fn chroma_mode_and_quality_are_checked() {
    let s = VideoSettings { chroma_mode: Some("avc422"), ..settings() };
    assert!(matches!(s.validate(), Err(SettingsError::ChromaMode)));
    let s = VideoSettings { quality: Some("best"), ..settings() };
    assert!(matches!(s.validate(), Err(SettingsError::Quality)));
}

#[test]
fn frame_rate_and_bitrate_ranges() {
    for fps in [0, 121] {
        let s = VideoSettings { frame_rate: fps, ..settings() };
        assert!(matches!(s.validate(), Err(SettingsError::FrameRate)));
    }
    for fps in [1, 120] {
        let s = VideoSettings { frame_rate: fps, ..settings() };
        assert!(s.validate().is_ok());
    }
    for mbps in [0, 1001] {
        let s = VideoSettings { bitrate_mbps: Some(mbps), ..settings() };
        assert!(matches!(s.validate(), Err(SettingsError::Bitrate)));
    }
}

#[test]
fn legacy_dimensions_both_zero_or_both_positive() {
    let s = VideoSettings { width: 1920, height: 0, ..settings() };
    assert!(matches!(s.validate(), Err(SettingsError::Dimensions(DimensionError::Zero))));
    let s = VideoSettings { width: 1920, height: 1080, ..settings() };
    assert!(s.validate().is_ok());
}

#[test]
fn resolution_forms() {
    assert!(validate_resolution(None).is_ok());
    assert!(validate_resolution(Some("auto")).is_ok());
    assert!(validate_resolution(Some("3840x2160")).is_ok());
    assert!(validate_resolution(Some("2")).is_ok());
    assert!(matches!(validate_resolution(Some("5")), Err(SettingsError::ResolutionScale)));
    assert!(matches!(validate_resolution(Some("0")), Err(SettingsError::ResolutionScale)));
    assert!(matches!(validate_resolution(Some("big")), Err(SettingsError::Resolution)));
    assert!(matches!(validate_resolution(Some("axb")), Err(SettingsError::InvalidNumber(_))));
    assert!(matches!(
        validate_resolution(Some("9000x100")),
        Err(SettingsError::Dimensions(DimensionError::TooLarge))
    ));
    assert!(matches!(
        validate_resolution(Some("0x100")),
        Err(SettingsError::Dimensions(DimensionError::Zero))
    ));
}

#[test]
fn capture_dimensions_are_bounded() {
    assert_eq!(validate_capture_dimensions(1, 1), Ok(()));
    assert_eq!(validate_capture_dimensions(0, 1), Err(CaptureDimensionError::OutOfRange));
    assert_eq!(validate_capture_dimensions(8193, 1), Err(CaptureDimensionError::OutOfRange));
    assert_eq!(validate_capture_dimensions(8192, 8192), Err(CaptureDimensionError::TooManyPixels));
    assert_eq!(validate_capture_dimensions(7680, 4320), Ok(()));
}

#[test]
fn capture_frame_rate_range() {
    assert_eq!(validate_frame_rate(0), Err(FrameRateOutOfRange));
    assert_eq!(validate_frame_rate(1), Ok(()));
    assert_eq!(validate_frame_rate(120), Ok(()));
    assert_eq!(validate_frame_rate(121), Err(FrameRateOutOfRange));
}

#[test]
fn macos_major_version_parsing() {
    assert_eq!(parse_major_version("14.5.1").unwrap(), 14);
    assert_eq!(parse_major_version("13").unwrap(), 13);
    assert!(matches!(parse_major_version(""), Err(VersionError::InvalidMajor)));
    assert!(matches!(parse_major_version(".1"), Err(VersionError::InvalidMajor)));
    assert!(matches!(parse_major_version("1a.2"), Err(VersionError::InvalidMajor)));
    assert!(matches!(parse_major_version("99999999999.0"), Err(VersionError::Parse(_))));
}

#[test]
fn macos_floor_is_13() {
    assert_eq!(require_supported_macos(12), Err(UnsupportedMacos));
    assert_eq!(require_supported_macos(13), Ok(13));
    assert_eq!(require_supported_macos(15), Ok(15));
}
