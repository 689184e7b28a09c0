use macrdp::encoder::{
    align16, capture_uses_nv12, create_with_fallback, try_hardware_modes, try_profiles, CMTime, EncoderPreference,
    NoHardwareSession, UnknownEncoder,
};
use std::cell::RefCell;

#[test]
fn align16_rounds_up_to_macroblocks() {
    assert_eq!(align16(0), 0);
    assert_eq!(align16(1), 16);
    assert_eq!(align16(16), 16);
    assert_eq!(align16(1080), 1088);
    assert_eq!(align16(1920), 1920);
}

#[test]
fn preference_canonical_names() {
    assert_eq!(EncoderPreference::try_from_str_opt(Some("hardware")), Ok(EncoderPreference::Hardware));
    assert_eq!(EncoderPreference::try_from_str_opt(Some("software")), Ok(EncoderPreference::Software));
    assert_eq!(EncoderPreference::try_from_str_opt(Some("auto")), Ok(EncoderPreference::Auto));
    assert_eq!(EncoderPreference::try_from_str_opt(None), Ok(EncoderPreference::Auto));
}

#[test]
fn preference_legacy_aliases() {
    for alias in ["vt", "videotoolbox", "gpu"] {
        assert_eq!(EncoderPreference::try_from_str_opt(Some(alias)), Ok(EncoderPreference::Hardware));
    }
    for alias in ["openh264", "oh264", "cpu"] {
        assert_eq!(EncoderPreference::try_from_str_opt(Some(alias)), Ok(EncoderPreference::Software));
    }
}

#[test]
fn preference_ignores_case_and_surrounding_whitespace() {
    assert_eq!(EncoderPreference::try_from_str_opt(Some("  HardWare\t")), Ok(EncoderPreference::Hardware));
    assert_eq!(EncoderPreference::try_from_str_opt(Some(" CPU ")), Ok(EncoderPreference::Software));
}

#[test]
fn preference_rejects_other_codecs() {
    assert_eq!(EncoderPreference::try_from_str_opt(Some("hevc")), Err(UnknownEncoder));
    assert_eq!(EncoderPreference::try_from_str_opt(Some("av1")), Err(UnknownEncoder));
    assert_eq!(EncoderPreference::try_from_str_opt(Some("")), Err(UnknownEncoder));
    assert_eq!(
        UnknownEncoder.message(),
        "encoder must be auto, hardware or software; HEVC and AV1 are not RDP output modes"
    );
}

#[test]
fn from_str_opt_falls_back_to_auto() {
    assert_eq!(EncoderPreference::from_str_opt(Some("hevc")), EncoderPreference::Auto);
    assert_eq!(EncoderPreference::from_str_opt(Some("vt")), EncoderPreference::Hardware);
}

#[test]
fn preference_name_round_trip() {
    for p in [EncoderPreference::Auto, EncoderPreference::Hardware, EncoderPreference::Software] {
        assert_eq!(EncoderPreference::try_from_str_opt(Some(p.as_str())), Ok(p));
    }
    assert_eq!(EncoderPreference::Hardware.as_str(), "hardware");
}

#[test]
fn capture_format_follows_initialized_encoder() {
    assert!(capture_uses_nv12(Some(true), false));
    assert!(!capture_uses_nv12(Some(true), true));
    assert!(!capture_uses_nv12(Some(false), false));
    assert!(!capture_uses_nv12(None, false));
}

#[test]
fn software_preference_skips_hardware() {
    let tried = RefCell::new(Vec::new());
    let res: Result<&str, &str> = create_with_fallback(
        EncoderPreference::Software,
        || {
            tried.borrow_mut().push("hardware");
            Ok("vt")
        },
        || {
            tried.borrow_mut().push("software");
            Ok("openh264")
        },
    );
    assert_eq!(res, Ok("openh264"));
    assert_eq!(*tried.borrow(), vec!["software"]);
}

#[test]
fn hardware_failure_falls_back_to_software() {
    let res: Result<&str, &str> = create_with_fallback(EncoderPreference::Auto, || Err("no vt"), || Ok("openh264"));
    assert_eq!(res, Ok("openh264"));
    let res: Result<&str, &str> = create_with_fallback(EncoderPreference::Hardware, || Ok("vt"), || Ok("openh264"));
    assert_eq!(res, Ok("vt"));
}

#[test]
fn hardware_modes_try_low_latency_first() {
    let res: Result<&str, NoHardwareSession<&str>> =
        try_hardware_modes(|low_latency| if low_latency { Err("busy") } else { Ok("ordinary") });
    assert_eq!(res, Ok("ordinary"));
    let res: Result<&str, NoHardwareSession<&str>> =
        try_hardware_modes(|low_latency| if low_latency { Ok("low") } else { Ok("ordinary") });
    assert_eq!(res, Ok("low"));
}

#[test]
fn hardware_modes_report_both_failures() {
    let res: Result<&str, NoHardwareSession<&str>> =
        try_hardware_modes(|low_latency| if low_latency { Err("a") } else { Err("b") });
    assert_eq!(res, Err(NoHardwareSession { low_latency: "a", ordinary: "b" }));
}

#[test]
fn profiles_are_tried_in_order() {
    let res: Result<&str, Vec<(&str, &str)>> =
        try_profiles(|p| if p == "H264_Main_AutoLevel" { Ok(p) } else { Err("unsupported") });
    assert_eq!(res, Ok("H264_Main_AutoLevel"));
}

#[test]
fn profile_failures_are_all_reported() {
    let res: Result<&str, Vec<(&str, &str)>> = try_profiles(|_| Err("no"));
    assert_eq!(
        res,
        Err(vec![
            ("H264_ConstrainedBaseline_AutoLevel", "no"),
            ("H264_Baseline_AutoLevel", "no"),
            ("H264_Main_AutoLevel", "no"),
            ("H264_High_AutoLevel", "no"),
        ])
    );
}

#[test]
fn cmtime_constructors() {
    assert_eq!(CMTime::make(20, 600), CMTime { value: 20, timescale: 600, flags: 1, epoch: 0 });
    assert_eq!(CMTime::invalid(), CMTime { value: 0, timescale: 0, flags: 0, epoch: 0 });
}

#[test]
fn upper_case_names_round_trip() {
    for p in [EncoderPreference::Auto, EncoderPreference::Hardware, EncoderPreference::Software] {
        let upper = p.as_str().to_ascii_uppercase();
        assert_eq!(EncoderPreference::try_from_str_opt(Some(&upper)), Ok(p));
        assert_eq!(EncoderPreference::try_from_str_opt(Some(p.as_str())), Ok(p));
    }
}
