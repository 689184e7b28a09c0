use macrdp::config::{config_dir, AudioConfig, Cli, ClipboardConfig, ConfigError, ServerConfig};
use macrdp::settings::SettingsError;
use macrdp::ui_config::{FieldError, FieldValue, UiConfig};

fn cli(port: u16, frame_rate: Option<u32>, log_level: Option<&str>) -> Cli {
    Cli { port, config: None, frame_rate, log_level: log_level.map(String::from), perf: false }
}

#[test]
fn server_defaults() {
    let c = ServerConfig::default();
    assert_eq!(c.port, 3389);
    assert_eq!(c.frame_rate, 60);
    assert_eq!((c.width, c.height), (0, 0));
    assert_eq!(c.idle_timeout_secs, 1800);
    assert!(c.username.is_none() && c.password.is_none());
    assert!(c.validate().is_ok());
    let a = AudioConfig::default();
    assert!(a.enabled && a.sample_rate == 48000 && a.channels == 2);
    let k = ClipboardConfig::default();
    assert!(k.enabled && k.file_transfer && k.max_file_size_mb == 100);
}

#[test]
fn zero_port_is_rejected() {
    let c = ServerConfig { port: 0, ..ServerConfig::default() };
    assert!(matches!(c.validate(), Err(ConfigError::Port)));
}

#[test]
fn invalid_video_option_is_rejected() {
    let c = ServerConfig { chroma_mode: Some("avc422".to_string()), ..ServerConfig::default() };
    assert!(matches!(c.validate(), Err(ConfigError::Settings(SettingsError::ChromaMode))));
}

#[test]
fn cli_overrides_apply() {
    let c = ServerConfig::default().apply_cli(&cli(4000, Some(30), Some("debug"))).unwrap();
    assert_eq!(c.port, 4000);
    assert_eq!(c.frame_rate, 30);
    assert_eq!(c.log_level.as_deref(), Some("debug"));
}

#[test]
fn default_cli_port_keeps_configured_port() {
    let file = ServerConfig { port: 5000, ..ServerConfig::default() };
    let c = file.apply_cli(&cli(3389, None, None)).unwrap();
    assert_eq!(c.port, 5000);
    assert_eq!(c.frame_rate, 60);
    assert_eq!(c.log_level, None);
}

#[test]
fn cli_frame_rate_is_validated() {
    let res = ServerConfig::default().apply_cli(&cli(3389, Some(0), None));
    assert!(matches!(res, Err(ConfigError::Settings(SettingsError::FrameRate))));
}

#[test]
fn config_dir_prefers_directory_with_config() {
    let candidates = vec!["/work".to_string(), "/home/u/.macrdp".to_string()];
    assert_eq!(config_dir(&candidates, &vec![false, true], &vec![true, true]), "/home/u/.macrdp");
    assert_eq!(config_dir(&candidates, &vec![true, true], &vec![false, true]), "/work");
    assert_eq!(config_dir(&candidates, &vec![false, false], &vec![true, true]), "/work");
    assert_eq!(config_dir(&Vec::new(), &Vec::new(), &Vec::new()), ".");
}

#[test]
fn config_dir_writes_to_first_writable_candidate() {
    let candidates = vec!["/work".to_string(), "/home/u/.macrdp".to_string()];
    assert_eq!(config_dir(&candidates, &vec![false, false], &vec![false, true]), "/home/u/.macrdp");
    assert_eq!(config_dir(&candidates, &vec![false, false], &vec![false, false]), "/work");
}

#[test]
fn ui_defaults() {
    let c = UiConfig::default();
    assert_eq!(c.port, 3389);
    assert_eq!(c.frame_rate, 60);
    assert_eq!(c.bitrate_mbps, 50);
    assert_eq!(c.encoder, "auto");
    assert_eq!(c.chroma_mode, "avc420");
    assert_eq!(c.bind_address, "0.0.0.0");
    assert_eq!(c.max_connections, 3);
    assert_eq!(c.username, "macrdp");
    assert_eq!(c.password, "");
    assert_eq!(c.resolution, "auto");
    assert_eq!(c.log_level, "warn");
    assert_eq!(c.theme, "system");
    assert!(!c.show_cursor && !c.autostart);
}

#[test]
fn ui_config_converts_to_valid_server_config() {
    let mut ui = UiConfig::default();
    let s = ui.to_server_config();
    assert_eq!(s.port, 3389);
    assert_eq!(s.password, None);
    assert_eq!(s.username.as_deref(), Some("macrdp"));
    assert_eq!(s.encoder.as_deref(), Some("auto"));
    assert_eq!(s.bitrate_mbps, Some(50));
    assert_eq!((s.width, s.height), (0, 0));
    assert!(s.validate().is_ok());
    ui.password = "secret".to_string();
    assert_eq!(ui.to_server_config().password.as_deref(), Some("secret"));
}

#[test]
fn set_port_needs_no_restart() {
    let mut c = UiConfig::default();
    assert_eq!(c.set_field("port", &FieldValue::Unsigned(4000)).unwrap(), false);
    assert_eq!(c.port, 4000);
}

#[test]
fn invalid_updates_leave_config_unchanged() {
    let mut c = UiConfig::default();
    assert!(matches!(c.set_field("port", &FieldValue::Unsigned(70000)), Err(FieldError::OutOfRange("port"))));
    assert!(matches!(c.set_field("port", &FieldValue::Str("80".to_string())), Err(FieldError::NotNumber("port"))));
    assert!(matches!(c.set_field("port", &FieldValue::Unsigned(0)), Err(FieldError::Invalid(ConfigError::Port))));
    assert!(matches!(
        c.set_field("frame_rate", &FieldValue::Unsigned(0)),
        Err(FieldError::Invalid(ConfigError::Settings(SettingsError::FrameRate)))
    ));
    assert!(matches!(
        c.set_field("chroma_mode", &FieldValue::Str("avc422".to_string())),
        Err(FieldError::Invalid(_))
    ));
    assert_eq!(c.port, 3389);
    assert_eq!(c.frame_rate, 60);
    assert_eq!(c.chroma_mode, "avc420");
}

#[test]
fn encoder_updates_are_normalized() {
    let mut c = UiConfig::default();
    assert_eq!(c.set_field("encoder", &FieldValue::Str(" VT ".to_string())).unwrap(), true);
    assert_eq!(c.encoder, "hardware");
    assert!(matches!(c.set_field("encoder", &FieldValue::Str("hevc".to_string())), Err(FieldError::Encoder(_))));
    assert!(matches!(c.set_field("encoder", &FieldValue::Bool(true)), Err(FieldError::NotString("encoder"))));
    assert_eq!(c.encoder, "hardware");
}

#[test]
fn resolution_accepts_legacy_scale_numbers() {
    let mut c = UiConfig::default();
    assert_eq!(c.set_field("resolution", &FieldValue::Unsigned(2)).unwrap(), true);
    assert_eq!(c.resolution, "2");
    assert_eq!(c.set_field("hidpi_scale", &FieldValue::Unsigned(3)).unwrap(), true);
    assert_eq!(c.resolution, "3");
    assert!(c.set_field("resolution", &FieldValue::Unsigned(9)).is_err());
    assert_eq!(c.resolution, "3");
    assert_eq!(c.set_field("resolution", &FieldValue::Str("1920x1080".to_string())).unwrap(), true);
    assert_eq!(c.resolution, "1920x1080");
}

#[test]
fn boolean_and_text_fields() {
    let mut c = UiConfig::default();
    assert_eq!(c.set_field("show_cursor", &FieldValue::Bool(true)).unwrap(), true);
    assert!(c.show_cursor);
    assert_eq!(c.set_field("theme", &FieldValue::Str("dark".to_string())).unwrap(), false);
    assert_eq!(c.theme, "dark");
    assert!(matches!(c.set_field("autostart", &FieldValue::Str("yes".to_string())), Err(FieldError::NotBoolean("autostart"))));
    assert_eq!(c.set_field("idle_timeout_secs", &FieldValue::Unsigned(u64::MAX)).unwrap(), false);
    assert_eq!(c.idle_timeout_secs, u64::MAX);
    assert!(matches!(c.set_field("log_level", &FieldValue::Other), Err(FieldError::NotString("log_level"))));
}

#[test]
fn unknown_key_is_reported() {
    let mut c = UiConfig::default();
    match c.set_field("volume", &FieldValue::Unsigned(3)) {
        Err(FieldError::UnknownKey(k)) => assert_eq!(k, "volume"),
        other => panic!("unexpected: {other:?}"),
    }
}

#[test]
fn empty_resolution_is_refused_without_change() {
    let mut c = UiConfig::default();
    match c.set_field("resolution", &FieldValue::Str(String::new())) {
        Err(e) => assert_eq!(e.message(), "resolution must be auto, WIDTHxHEIGHT or a scale from 1 to 4"),
        Ok(_) => panic!("empty resolution accepted"),
    }
    assert_eq!(c.resolution, "auto");
}

#[test]
fn field_errors_carry_their_messages() {
    let mut c = UiConfig::default();
    assert_eq!(c.set_field("port", &FieldValue::Unsigned(70000)).unwrap_err().message(), "port is out of range");
    assert_eq!(c.set_field("nope", &FieldValue::Unsigned(1)).unwrap_err().message(), "unknown config key: nope");
    assert_eq!(c.set_field("hidpi_scale", &FieldValue::Bool(true)).unwrap_err().message(), "resolution must be a string");
    assert_eq!(c.set_field("frame_rate", &FieldValue::Other).unwrap_err().message(), "frame_rate must be a number");
    assert_eq!(c.set_field("autostart", &FieldValue::Unsigned(1)).unwrap_err().message(), "autostart must be a boolean");
    assert_eq!(c.set_field("port", &FieldValue::Unsigned(0)).unwrap_err().message(), "port must be between 1 and 65535");
    assert_eq!(
        c.set_field("encoder", &FieldValue::Str("av1".to_string())).unwrap_err().message(),
        "encoder must be auto, hardware or software; HEVC and AV1 are not RDP output modes"
    );
    assert_eq!(
        c.set_field("resolution", &FieldValue::Str("99999x2".to_string())).unwrap_err().message(),
        "Display dimensions must not exceed 8192 pixels per side"
    );
}
