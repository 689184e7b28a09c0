use macrdp::h264::{avcc_to_annex_b, take_frame, AccessUnitError, TakeFrameError};

fn parameter_sets() -> Vec<Vec<u8>> {
    vec![vec![0x67, 1], vec![0x68, 2]]
}

#[test]
fn keyframe_gets_parameter_sets_and_loses_sei() {
    let data = vec![0, 0, 0, 2, 0x65, 0xAA, 0, 0, 0, 1, 0x06];
    let (unit, key) = avcc_to_annex_b(&data, 4, &parameter_sets()).unwrap();
    assert!(key);
    assert_eq!(
        unit,
        vec![0, 0, 0, 1, 0x67, 1, 0, 0, 0, 1, 0x68, 2, 0, 0, 0, 1, 0x65, 0xAA]
    );
}

#[test]
fn delta_frame_has_no_parameter_sets() {
    let data = vec![0, 0, 0, 1, 0x06, 0, 0, 0, 2, 0x41, 0xBB];
    let (unit, key) = avcc_to_annex_b(&data, 4, &parameter_sets()).unwrap();
    assert!(!key);
    assert_eq!(unit, vec![0, 0, 0, 1, 0x41, 0xBB]);
}

#[test]
fn sample_of_only_stripped_units_is_empty() {
    let data = vec![0, 0, 0, 1, 0x06, 0, 0, 0, 1, 0x09];
    assert_eq!(avcc_to_annex_b(&data, 4, &parameter_sets()), Err(AccessUnitError::EmptyAccessUnit));
}

#[test]
fn unsupported_length_field_is_refused() {
    let data = vec![0, 0, 2, 0x41, 0xBB];
    assert_eq!(
        avcc_to_annex_b(&data, 3, &parameter_sets()),
        Err(AccessUnitError::UnsupportedLengthField(3))
    );
}

#[test]
fn unknown_length_field_defaults_to_four_bytes() {
    let data = vec![0, 0, 0, 1, 0x41];
    let (unit, key) = avcc_to_annex_b(&data, 0, &parameter_sets()).unwrap();
    assert!(!key);
    assert_eq!(unit, vec![0, 0, 0, 1, 0x41]);
}

#[test]
fn two_byte_length_fields() {
    let data = vec![0, 2, 0x65, 0x11];
    let (unit, key) = avcc_to_annex_b(&data, 2, &Vec::new()).unwrap();
    assert!(key);
    assert_eq!(unit, vec![0, 0, 0, 1, 0x65, 0x11]);
}

#[test]
fn truncated_unit_ends_the_sample() {
    let data = vec![0, 0, 0, 1, 0x41, 0, 0, 0, 9, 0x65];
    let (unit, key) = avcc_to_annex_b(&data, 4, &parameter_sets()).unwrap();
    assert!(!key);
    assert_eq!(unit, vec![0, 0, 0, 1, 0x41]);
}

#[test]
fn zero_length_unit_is_skipped() {
    let data = vec![0, 0, 0, 0, 0, 0, 0, 1, 0x41];
    let (unit, _) = avcc_to_annex_b(&data, 4, &parameter_sets()).unwrap();
    assert_eq!(unit, vec![0, 0, 0, 1, 0x41]);
}

#[test]
fn take_frame_reports_missing_output() {
    let out: Option<Result<(Vec<u8>, bool), i32>> = None;
    assert_eq!(take_frame(out), Err(TakeFrameError::NoOutput));
}

#[test]
fn take_frame_passes_callback_failure_on() {
    assert_eq!(take_frame(Some(Err::<(Vec<u8>, bool), i32>(7))), Err(TakeFrameError::Callback(7)));
}

#[test]
fn take_frame_refuses_empty_access_unit() {
    assert_eq!(
        take_frame(Some(Ok::<(Vec<u8>, bool), i32>((Vec::new(), true)))),
        Err(TakeFrameError::EmptyAccessUnit)
    );
}

#[test]
fn take_frame_returns_frame() {
    assert_eq!(take_frame(Some(Ok::<(Vec<u8>, bool), i32>((vec![1, 2], false)))), Ok((vec![1, 2], false)));
}

#[test]
fn sei_then_idr_gives_parameter_sets_and_slice() {
    let data = vec![0, 0, 0, 1, 0x06, 0, 0, 0, 2, 0x65, 0x88];
    let sets = vec![vec![0x67, 0x42], vec![0x68, 0xCE]];
    assert_eq!(
        avcc_to_annex_b(&data, 4, &sets),
        Ok((vec![0, 0, 0, 1, 0x67, 0x42, 0, 0, 0, 1, 0x68, 0xCE, 0, 0, 0, 1, 0x65, 0x88], true))
    );
}
