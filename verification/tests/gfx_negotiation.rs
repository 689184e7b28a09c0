use macrdp::gfx_caps::{
    capability_key, decode_advertisement, decode_capability, is_advertisement, select_capability, GfxCapability,
    GfxDecodeError,
};

fn entry(version: u32, data: &[u8]) -> Vec<u8> {
    let mut out = Vec::new();
    out.extend_from_slice(&version.to_le_bytes());
    out.extend_from_slice(&(data.len() as u32).to_le_bytes());
    out.extend_from_slice(data);
    out
}

fn advertisement(entries: &[Vec<u8>]) -> Vec<u8> {
    let body: Vec<u8> = entries.iter().flatten().copied().collect();
    let total = (10 + body.len()) as u32;
    let mut out = Vec::new();
    out.extend_from_slice(&0x12u16.to_le_bytes());
    out.extend_from_slice(&0u16.to_le_bytes());
    out.extend_from_slice(&total.to_le_bytes());
    out.extend_from_slice(&(entries.len() as u16).to_le_bytes());
    out.extend_from_slice(&body);
    out
}

#[test]
fn advertisement_is_recognized_by_command() {
    assert!(is_advertisement(&[0x12, 0x00, 0x05]));
    assert!(!is_advertisement(&[0x13, 0x00]));
    assert!(!is_advertisement(&[0x12]));
    assert!(!is_advertisement(&[]));
}

#[test]
fn known_capabilities_decode_with_truncated_flags() {
    let pdu = advertisement(&[
        entry(0x0008_0105, &0x13u32.to_le_bytes()),
        entry(0x000a_0701, &0x120u32.to_le_bytes()),
        entry(0x000a_0100, &[0u8; 16]),
    ]);
    let caps = decode_advertisement(&pdu).unwrap();
    assert_eq!(caps.len(), 3);
    assert!(matches!(caps[0], GfxCapability::V8_1 { flags: 0x13 }));
    assert!(matches!(caps[1], GfxCapability::V10_7 { flags: 0x20 }));
    assert!(matches!(caps[2], GfxCapability::V10_1));
}

#[test]
fn unknown_versions_are_skipped() {
    let pdu = advertisement(&[
        entry(0x000a_0702, &[1, 2, 3, 4, 5, 6, 7]),
        entry(0x000a_0400, &0x62u32.to_le_bytes()),
        entry(0x0010_0000, &[]),
    ]);
    let caps = decode_advertisement(&pdu).unwrap();
    assert_eq!(caps.len(), 1);
    assert!(matches!(caps[0], GfxCapability::V10_4 { flags: 0x62 }));
}

#[test]
fn short_pdu_is_refused() {
    assert_eq!(
        decode_advertisement(&[0x12, 0, 0, 0]).err(),
        Some(GfxDecodeError::NotEnoughBytes { received: 4, expected: 10 })
    );
}

#[test]
fn other_command_is_refused() {
    let mut pdu = advertisement(&[entry(0x0008_0004, &[0, 0, 0, 0])]);
    pdu[0] = 0x13;
    assert_eq!(
        decode_advertisement(&pdu).err(),
        Some(GfxDecodeError::UnexpectedCommand));
}

#[test]
fn length_mismatch_is_refused() {
    let mut pdu = advertisement(&[entry(0x0008_0004, &[0, 0, 0, 0])]);
    pdu.push(0);
    assert_eq!(
        decode_advertisement(&pdu).err(),
        Some(GfxDecodeError::LengthMismatch));
}

#[test]
fn empty_advertisement_is_refused() {
    let pdu = advertisement(&[]);
    assert_eq!(
        decode_advertisement(&pdu).err(),
        Some(GfxDecodeError::EmptyAdvertisement));
}

#[test]
fn count_beyond_data_is_refused() {
    let mut pdu = advertisement(&[entry(0x0008_0004, &[0, 0, 0, 0])]);
    pdu[8] = 3;
    assert_eq!(
        decode_advertisement(&pdu).err(),
        Some(GfxDecodeError::NotEnoughBytes { received: 12, expected: 24 })
    );
}

#[test]
fn known_version_with_wrong_length_is_refused() {
    let pdu = advertisement(&[entry(0x000a_0002, &[0, 0, 0])]);
    assert_eq!(
        decode_advertisement(&pdu).err(),
        Some(GfxDecodeError::InvalidCapabilityLength));
}

#[test]
fn trailing_bytes_are_refused() {
    let mut entries = entry(0x0008_0004, &[0, 0, 0, 0]);
    entries.extend_from_slice(&[9, 9]);
    let pdu = advertisement(&[entries]);
    assert_eq!(
        decode_advertisement(&pdu).err(),
        Some(GfxDecodeError::UnconsumedData));
}

#[test]
fn declared_payload_past_end_is_refused() {
    let mut e = entry(0x000a_0702, &[1, 2]);
    e[4] = 9;
    let pdu = advertisement(&[e]);
    assert_eq!(
        decode_advertisement(&pdu).err(),
        Some(GfxDecodeError::NotEnoughBytes { received: 2, expected: 9 }));
}

#[test]
fn decode_capability_reports_next_position() {
    let data = entry(0x000a_0600, &0xffu32.to_le_bytes());
    match decode_capability(&data, 0) {
        Ok((12, Some(GfxCapability::V10_6 { flags: 0x62 }))) => {}
        other => panic!("unexpected: {other:?}"),
    }
}

#[test]
fn highest_version_wins() {
    let caps = vec![
        GfxCapability::V8 { flags: 0 },
        GfxCapability::V10_7 { flags: 0 },
        GfxCapability::V10_3 { flags: 0 },
    ];
    let sel = select_capability(&caps).unwrap();
    assert!(matches!(sel.capability, GfxCapability::V10_7 { flags: 0 }));
    assert!(sel.avc420 && sel.avc444);
}

#[test]
fn avc_disabled_wins_a_version_tie() {
    let caps = vec![GfxCapability::V10_7 { flags: 0x20 }, GfxCapability::V10_7 { flags: 0xc2 }];
    let sel = select_capability(&caps).unwrap();
    assert!(matches!(sel.capability, GfxCapability::V10_7 { flags: 0x20 }));
    assert!(!sel.avc420 && !sel.avc444);
}

#[test]
fn larger_flag_word_breaks_remaining_ties() {
    let caps = vec![GfxCapability::V10_4 { flags: 0x62 }, GfxCapability::V10_4 { flags: 0x22 }];
    let sel = select_capability(&caps).unwrap();
    assert!(matches!(sel.capability, GfxCapability::V10_4 { flags: 0x62 }));
}

#[test]
fn avc_modes_by_version() {
    let sel = select_capability(&[GfxCapability::V8_1 { flags: 0x10 }]).unwrap();
    assert!(sel.avc420 && !sel.avc444);
    let sel = select_capability(&[GfxCapability::V8_1 { flags: 0x03 }]).unwrap();
    assert!(!sel.avc420 && !sel.avc444);
    let sel = select_capability(&[GfxCapability::V10_1]).unwrap();
    assert!(sel.avc420 && sel.avc444);
    let sel = select_capability(&[GfxCapability::V8 { flags: 0 }]).unwrap();
    assert!(!sel.avc420 && !sel.avc444);
}

#[test]
fn unknown_capabilities_are_never_selected() {
    assert_eq!(
        select_capability(&[GfxCapability::Unknown(vec![1, 2])]).err(),
        Some(GfxDecodeError::NoSupportedCapability)
    );
    assert_eq!(select_capability(&[]).err(), Some(GfxDecodeError::NoSupportedCapability));
    let sel = select_capability(&[GfxCapability::Unknown(vec![]), GfxCapability::V8 { flags: 1 }]).unwrap();
    assert!(matches!(sel.capability, GfxCapability::V8 { flags: 1 }));
}

#[test]
fn capability_keys() {
    assert_eq!(capability_key(&GfxCapability::V10_6Err { flags: 0x62 }), (10, 0x62));
    assert_eq!(capability_key(&GfxCapability::V10_1), (4, 0));
    assert_eq!(capability_key(&GfxCapability::Unknown(vec![5])), (0, 0));
}
