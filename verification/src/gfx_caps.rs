//! Forward-compatible MS-RDPEGFX capability negotiation.
//!
//! A CapabilitiesAdvertise PDU carries `count` capability sets, each made of a
//! `version: u32`, a `dataLength: u32` and exactly `dataLength` payload bytes.
//! Unknown version codes are skipped by their declared length; known ones must
//! carry the payload size their version defines.
use vstd::prelude::*;
use vstd::slice::slice_subrange;
use ironrdp_pdu::rdp::vc::dvc::gfx::CapabilitySet;
use ironrdp_pdu::{Decode, Encode, ReadCursor, WriteCursor};

verus! {

pub const ADVERTISE_COMMAND: u16 = 0x12;

pub const GFX_HEADER_SIZE: usize = 8;

pub const CAPABILITY_HEADER_SIZE: usize = 8;

/// One graphics-pipeline capability set, with its flag word as plain bits.
#[allow(non_camel_case_types)]
#[derive(Debug)]
pub enum GfxCapability {
    V8 { flags: u32 },
    V8_1 { flags: u32 },
    V10 { flags: u32 },
    V10_1,
    V10_2 { flags: u32 },
    V10_3 { flags: u32 },
    V10_4 { flags: u32 },
    V10_5 { flags: u32 },
    V10_6 { flags: u32 },
    V10_6Err { flags: u32 },
    V10_7 { flags: u32 },
    Unknown(Vec<u8>),
}

/// Why an advertisement or a capability list was refused.
#[derive(Debug, PartialEq, Eq, Structural)]
pub enum GfxDecodeError {
    /// Fewer bytes remained than the next field needs.
    NotEnoughBytes { received: usize, expected: usize },
    /// The PDU is not a CapabilitiesAdvertise.
    UnexpectedCommand,
    /// The header's pduLength differs from the number of bytes received.
    LengthMismatch,
    /// The advertisement lists no capability set.
    EmptyAdvertisement,
    /// Bytes remain after the last declared capability set.
    UnconsumedData,
    /// A known version declares a payload of the wrong size.
    InvalidCapabilityLength,
    /// No capability set of a known version was offered.
    NoSupportedCapability,
}

/// The chosen capability set and the AVC modes it allows.
#[derive(Debug)]
pub struct SelectedCapability {
    pub capability: GfxCapability,
    pub avc420: bool,
    pub avc444: bool,
}

pub open spec fn le16(s: Seq<u8>, i: int) -> int {
    s[i] + s[i + 1] * 256
}

pub open spec fn le32(s: Seq<u8>, i: int) -> int {
    s[i] + s[i + 1] * 256 + s[i + 2] * 65536 + s[i + 3] * 16777216
}

/// The 32-bit little-endian word at `i`.
pub open spec fn word32(s: Seq<u8>, i: int) -> u32 {
    le32(s, i) as u32
}

/// Whether `data` starts with the CapabilitiesAdvertise command code.
pub open spec fn is_advertisement_spec(data: Seq<u8>) -> bool {
    data.len() >= 2 && data[0] == 0x12 && data[1] == 0
}

/// Payload size of each version this crate decodes; `None` for other codes.
pub open spec fn expected_length(version: u32) -> Option<int> {
    if version == 0x000a_0100 {
        Some(16)
    } else if version == 0x0008_0004 || version == 0x0008_0105 || version == 0x000a_0002
        || version == 0x000a_0200 || version == 0x000a_0301 || version == 0x000a_0400
        || version == 0x000a_0502 || version == 0x000a_0600 || version == 0x000a_0601
        || version == 0x000a_0701 {
        Some(4)
    } else {
        None
    }
}

/// The capability set of a known version whose payload starts with `word`,
/// keeping only the flag bits that version defines.
pub open spec fn known_capability(version: u32, word: u32) -> GfxCapability {
    if version == 0x0008_0004 {
        GfxCapability::V8 { flags: word & 0x3 }
    } else if version == 0x0008_0105 {
        GfxCapability::V8_1 { flags: word & 0x13 }
    } else if version == 0x000a_0002 {
        GfxCapability::V10 { flags: word & 0x22 }
    } else if version == 0x000a_0100 {
        GfxCapability::V10_1
    } else if version == 0x000a_0200 {
        GfxCapability::V10_2 { flags: word & 0x22 }
    } else if version == 0x000a_0301 {
        GfxCapability::V10_3 { flags: word & 0x60 }
    } else if version == 0x000a_0400 {
        GfxCapability::V10_4 { flags: word & 0x62 }
    } else if version == 0x000a_0502 {
        GfxCapability::V10_5 { flags: word & 0x62 }
    } else if version == 0x000a_0600 {
        GfxCapability::V10_6 { flags: word & 0x62 }
    } else if version == 0x000a_0601 {
        GfxCapability::V10_6Err { flags: word & 0x62 }
    } else {
        GfxCapability::V10_7 { flags: word & 0xe2 }
    }
}

/// The flag bits the flag type of a known version defines (V10.1 has none).
pub open spec fn flag_mask(version: u32) -> u32 {
    if version == 0x0008_0004 {
        0x3
    } else if version == 0x0008_0105 {
        0x13
    } else if version == 0x000a_0002 || version == 0x000a_0200 {
        0x22
    } else if version == 0x000a_0301 {
        0x60
    } else if version == 0x000a_0400 || version == 0x000a_0502 || version == 0x000a_0600
        || version == 0x000a_0601 {
        0x62
    } else if version == 0x000a_0701 {
        0xe2
    } else {
        0
    }
}

/// Decoding one capability set at `pos`: the position after it, and the set
/// when its version is known.
pub open spec fn entry_spec(data: Seq<u8>, pos: int) -> Result<(int, Option<GfxCapability>), GfxDecodeError> {
    if data.len() - pos < 8 {
        Err(GfxDecodeError::NotEnoughBytes { received: (data.len() - pos) as usize, expected: 8 })
    } else {
        let version = word32(data, pos);
        let dl = le32(data, pos + 4);
        let rest = data.len() - pos - 8;
        if rest < dl {
            Err(GfxDecodeError::NotEnoughBytes { received: rest as usize, expected: dl as usize })
        } else {
            match expected_length(version) {
                None => Ok((pos + 8 + dl, None)),
                Some(el) => if dl != el {
                    Err(GfxDecodeError::InvalidCapabilityLength)
                } else {
                    Ok((pos + 8 + dl, Some(known_capability(version, word32(data, pos + 8)))))
                },
            }
        }
    }
}

pub open spec fn prepend(known: Seq<GfxCapability>, r: Result<Seq<GfxCapability>, GfxDecodeError>) -> Result<Seq<GfxCapability>, GfxDecodeError> {
    match r {
        Ok(s) => Ok(known + s),
        Err(e) => Err(e),
    }
}

/// Decoding `n` capability sets from `pos`, which must then end the PDU.
pub open spec fn parse_entries(data: Seq<u8>, pos: int, n: nat) -> Result<Seq<GfxCapability>, GfxDecodeError>
    decreases n,
{
    if n == 0 {
        if pos == data.len() {
            Ok(Seq::empty())
        } else {
            Err(GfxDecodeError::UnconsumedData)
        }
    } else {
        match entry_spec(data, pos) {
            Err(e) => Err(e),
            Ok((next, None)) => parse_entries(data, next, (n - 1) as nat),
            Ok((next, Some(c))) => prepend(seq![c], parse_entries(data, next, (n - 1) as nat)),
        }
    }
}

/// The known capability sets of an advertisement PDU, in order.
pub open spec fn advertisement_spec(data: Seq<u8>) -> Result<Seq<GfxCapability>, GfxDecodeError> {
    if data.len() < 10 {
        Err(GfxDecodeError::NotEnoughBytes { received: data.len() as usize, expected: 10 })
    } else if le16(data, 0) != 0x12 {
        Err(GfxDecodeError::UnexpectedCommand)
    } else if le32(data, 4) != data.len() {
        Err(GfxDecodeError::LengthMismatch)
    } else if le16(data, 8) == 0 {
        Err(GfxDecodeError::EmptyAdvertisement)
    } else if data.len() - 10 < le16(data, 8) * 8 {
        Err(GfxDecodeError::NotEnoughBytes {
            received: (data.len() - 10) as usize,
            expected: (le16(data, 8) * 8) as usize,
        })
    } else {
        parse_entries(data, 10, le16(data, 8) as nat)
    }
}

/// `CapabilitySet::decode` of ironrdp-pdu on a `ReadCursor` over one
/// complete capability set (header and payload), and the decoded set written
/// back with its `Encode` impl into `size()` bytes on a `WriteCursor`. For a
/// known version whose payload has the length ironrdp expects, decoding
/// cannot fail: it keeps the flag bits the version's flag type defines
/// (`from_bits_truncate`) and, for V10.1, skips the 16 reserved bytes.
/// Encoding writes the version, the payload length and the flag word (or 16
/// zero bytes for V10.1), so the set comes back as long as it was, with the
/// same version and its flag word reduced to the defined bits.
#[verifier::external_body]
fn reencode_capability(entry: &[u8]) -> (r: Option<Vec<u8>>)
    requires
        entry@.len() >= 8,
        expected_length(word32(entry@, 0)) == Some(entry@.len() - 8),
        le32(entry@, 4) == entry@.len() - 8,
    ensures
        r is Some,
        r matches Some(b) ==> b@.len() == entry@.len(),
        r matches Some(b) ==> word32(b@, 0) == word32(entry@, 0),
        r matches Some(b) ==> (word32(entry@, 0) != 0x000a_0100 ==> word32(b@, 8) == word32(entry@, 8)
            & flag_mask(word32(entry@, 0))),
{
    let set = CapabilitySet::decode(&mut ReadCursor::new(entry)).ok()?;
    let mut out = vec![0u8; set.size()];
    set.encode(&mut WriteCursor::new(&mut out)).ok()?;
    Some(out)
}

fn read_u16_le(data: &[u8], pos: usize) -> (r: u16)
    requires
        pos + 2 <= data@.len(),
    ensures
        r as int == le16(data@, pos as int),
{
    data[pos] as u16 + (data[pos + 1] as u16) * 256
}

fn read_u32_le(data: &[u8], pos: usize) -> (r: u32)
    requires
        pos + 4 <= data@.len(),
    ensures
        r as int == le32(data@, pos as int),
        r == word32(data@, pos as int),
{
    data[pos] as u32 + (data[pos + 1] as u32) * 256 + (data[pos + 2] as u32) * 65536
        + (data[pos + 3] as u32) * 16777216
}

/// Whether a GFX PDU is a CapabilitiesAdvertise, by its first two bytes.
pub fn is_advertisement(data: &[u8]) -> (r: bool)
    ensures
        r == is_advertisement_spec(data@),
{
    data.len() >= 2 && data[0] == 0x12 && data[1] == 0
}

/// The capability set of a known `version` with the defined flag bits
/// `flags` of its payload word `word`.
fn build_capability(version: u32, flags: u32, Ghost(word): Ghost<u32>) -> (c: GfxCapability)
    requires
        expected_length(version) is Some,
        version != 0x000a_0100 ==> flags == word & flag_mask(version),
    ensures
        c == known_capability(version, word),
{
    if version == 0x0008_0004 {
        GfxCapability::V8 { flags }
    } else if version == 0x0008_0105 {
        GfxCapability::V8_1 { flags }
    } else if version == 0x000a_0002 {
        GfxCapability::V10 { flags }
    } else if version == 0x000a_0100 {
        GfxCapability::V10_1
    } else if version == 0x000a_0200 {
        GfxCapability::V10_2 { flags }
    } else if version == 0x000a_0301 {
        GfxCapability::V10_3 { flags }
    } else if version == 0x000a_0400 {
        GfxCapability::V10_4 { flags }
    } else if version == 0x000a_0502 {
        GfxCapability::V10_5 { flags }
    } else if version == 0x000a_0600 {
        GfxCapability::V10_6 { flags }
    } else if version == 0x000a_0601 {
        GfxCapability::V10_6Err { flags }
    } else {
        GfxCapability::V10_7 { flags }
    }
}

/// Decodes the capability set at `pos`; unknown versions are skipped by their
/// declared length. Returns the position after the set.
pub fn decode_capability(data: &[u8], pos: usize) -> (res: Result<(usize, Option<GfxCapability>), GfxDecodeError>)
    requires
        pos <= data@.len(),
    ensures
        match entry_spec(data@, pos as int) {
            Ok((next, c)) => res matches Ok((n, d)) && n == next && d == c && next <= data@.len(),
            Err(e) => res == Err::<(usize, Option<GfxCapability>), GfxDecodeError>(e),
        },
{
    let remaining = data.len() - pos;
    if remaining < CAPABILITY_HEADER_SIZE {
        return Err(GfxDecodeError::NotEnoughBytes { received: remaining, expected: CAPABILITY_HEADER_SIZE });
    }
    let version = read_u32_le(data, pos);
    let data_length = read_u32_le(data, pos + 4) as usize;
    let rest = remaining - CAPABILITY_HEADER_SIZE;
    if rest < data_length {
        return Err(GfxDecodeError::NotEnoughBytes { received: rest, expected: data_length });
    }
    let next = pos + CAPABILITY_HEADER_SIZE + data_length;
    let expected: usize = if version == 0x000a_0100 {
        16
    } else if version == 0x0008_0004 || version == 0x0008_0105 || version == 0x000a_0002
        || version == 0x000a_0200 || version == 0x000a_0301 || version == 0x000a_0400
        || version == 0x000a_0502 || version == 0x000a_0600 || version == 0x000a_0601
        || version == 0x000a_0701 {
        4
    } else {
        return Ok((next, None));
    };
    if data_length != expected {
        return Err(GfxDecodeError::InvalidCapabilityLength);
    }
    let ghost word = word32(data@, pos + CAPABILITY_HEADER_SIZE);
    let entry = slice_subrange(data, pos, next);
    proof {
        assert(word32(entry@, 0) == version);
        assert(le32(entry@, 4) == data_length);
        assert(word32(entry@, 8) == word);
    }
    let canonical = match reencode_capability(entry) {
        Some(b) => b,
        None => return Err(GfxDecodeError::InvalidCapabilityLength),
    };
    let flags = if version == 0x000a_0100 {
        0
    } else {
        read_u32_le(canonical.as_slice(), CAPABILITY_HEADER_SIZE)
    };
    Ok((next, Some(build_capability(version, flags, Ghost(word)))))
}

/// Decodes a CapabilitiesAdvertise PDU into the capability sets of known
/// versions, in the order the client listed them.
pub fn decode_advertisement(data: &[u8]) -> (res: Result<Vec<GfxCapability>, GfxDecodeError>)
    ensures
        match advertisement_spec(data@) {
            Ok(caps) => res matches Ok(v) && v@ == caps,
            Err(e) => res == Err::<Vec<GfxCapability>, GfxDecodeError>(e),
        },
{
    let len = data.len();
    if len < GFX_HEADER_SIZE + 2 {
        return Err(GfxDecodeError::NotEnoughBytes { received: len, expected: GFX_HEADER_SIZE + 2 });
    }
    let command = read_u16_le(data, 0);
    if command != ADVERTISE_COMMAND {
        return Err(GfxDecodeError::UnexpectedCommand);
    }
    // The flags word at offset 2 is reserved and ignored.
    let length = read_u32_le(data, 4);
    if length as usize != len {
        return Err(GfxDecodeError::LengthMismatch);
    }
    let count = read_u16_le(data, 8) as usize;
    if count == 0 {
        return Err(GfxDecodeError::EmptyAdvertisement);
    }
    if len - 10 < count * CAPABILITY_HEADER_SIZE {
        return Err(GfxDecodeError::NotEnoughBytes { received: len - 10, expected: count * CAPABILITY_HEADER_SIZE });
    }
    let ghost whole = parse_entries(data@, 10, count as nat);
    assert(advertisement_spec(data@) == whole);
    let mut known: Vec<GfxCapability> = Vec::new();
    let mut pos: usize = 10;
    let mut i: usize = 0;
    while i < count
        invariant
            i <= count,
            pos <= data@.len(),
            len == data@.len(),
            whole == parse_entries(data@, 10, count as nat),
            advertisement_spec(data@) == whole,
            whole == prepend(known@, parse_entries(data@, pos as int, (count - i) as nat)),
        decreases count - i,
    {
        let ghost before = known@;
        match decode_capability(data, pos) {
            Err(e) => {
                assert(parse_entries(data@, pos as int, (count - i) as nat)
                    == Err::<Seq<GfxCapability>, GfxDecodeError>(e));
                return Err(e);
            },
            Ok((next, None)) => {
                pos = next;
            },
            Ok((next, Some(c))) => {
                let ghost rest = parse_entries(data@, next as int, (count - i - 1) as nat);
                known.push(c);
                proof {
                    match rest {
                        Ok(s) => {
                            assert(before + (seq![c] + s) =~= known@ + s);
                        },
                        Err(_) => {},
                    }
                }
                pos = next;
            },
        }
        i = i + 1;
    }
    if pos != len {
        return Err(GfxDecodeError::UnconsumedData);
    }
    proof {
        assert(known@ + Seq::<GfxCapability>::empty() =~= known@);
    }
    Ok(known)
}

/// Version rank and flag word of a capability set; 0 for unknown versions.
pub open spec fn capability_key_spec(c: GfxCapability) -> (u8, u32) {
    match c {
        GfxCapability::V8 { flags } => (1, flags),
        GfxCapability::V8_1 { flags } => (2, flags),
        GfxCapability::V10 { flags } => (3, flags),
        GfxCapability::V10_1 => (4, 0),
        GfxCapability::V10_2 { flags } => (5, flags),
        GfxCapability::V10_3 { flags } => (6, flags),
        GfxCapability::V10_4 { flags } => (7, flags),
        GfxCapability::V10_5 { flags } => (8, flags),
        GfxCapability::V10_6 { flags } => (9, flags),
        GfxCapability::V10_6Err { flags } => (10, flags),
        GfxCapability::V10_7 { flags } => (11, flags),
        GfxCapability::Unknown(_) => (0, 0),
    }
}

/// Preference order of capability sets: version first, then AVC_DISABLED
/// (0x20) set, then the whole flag word — the lexicographic order of
/// `(version, flags & 0x20 != 0, flags)` written as one integer.
pub open spec fn preference_rank(c: GfxCapability) -> int {
    let (v, f) = capability_key_spec(c);
    v * 0x2_0000_0000 + (if f & 0x20 != 0 { 0x1_0000_0000int } else { 0int }) + f
}

pub open spec fn is_known(c: GfxCapability) -> bool {
    !(c is Unknown)
}

/// The protocol version code a known capability set carries on the wire.
pub open spec fn protocol_version(c: GfxCapability) -> u32 {
    match c {
        GfxCapability::V8 { .. } => 0x0008_0004,
        GfxCapability::V8_1 { .. } => 0x0008_0105,
        GfxCapability::V10 { .. } => 0x000a_0002,
        GfxCapability::V10_1 => 0x000a_0100,
        GfxCapability::V10_2 { .. } => 0x000a_0200,
        GfxCapability::V10_3 { .. } => 0x000a_0301,
        GfxCapability::V10_4 { .. } => 0x000a_0400,
        GfxCapability::V10_5 { .. } => 0x000a_0502,
        GfxCapability::V10_6 { .. } => 0x000a_0600,
        GfxCapability::V10_6Err { .. } => 0x000a_0601,
        GfxCapability::V10_7 { .. } => 0x000a_0701,
        GfxCapability::Unknown(_) => 0,
    }
}

/// A capability set decoded from version code `v` carries that code.
pub proof fn law_decoded_capability_keeps_version(v: u32, word: u32)
    requires
        expected_length(v) is Some,
    ensures
        protocol_version(known_capability(v, word)) == v,
{
}

/// Later protocol versions rank higher: among known capability sets, a
/// larger version code always has a larger version rank.
pub proof fn law_version_rank_increases(a: GfxCapability, b: GfxCapability)
    requires
        is_known(a),
        is_known(b),
        protocol_version(a) < protocol_version(b),
    ensures
        capability_key_spec(a).0 < capability_key_spec(b).0,
{
}

/// `i` is the last of the most preferred known capability sets.
pub open spec fn is_selected_index(caps: Seq<GfxCapability>, i: int) -> bool {
    &&& 0 <= i < caps.len()
    &&& is_known(caps[i])
    &&& forall|j: int| 0 <= j < caps.len() && is_known(caps[j]) ==> preference_rank(caps[j]) <= preference_rank(caps[i])
    &&& forall|j: int| i < j < caps.len() && is_known(caps[j]) ==> preference_rank(caps[j]) < preference_rank(caps[i])
}

/// The highest protocol version wins: the selected capability set has a
/// version at least as high as every other known set offered.
pub proof fn law_selected_has_highest_version(caps: Seq<GfxCapability>, i: int, j: int)
    requires
        is_selected_index(caps, i),
        0 <= j < caps.len(),
        is_known(caps[j]),
    ensures
        protocol_version(caps[j]) <= protocol_version(caps[i]),
{
    if protocol_version(caps[i]) < protocol_version(caps[j]) {
        law_version_rank_increases(caps[i], caps[j]);
        let (vi, fi) = capability_key_spec(caps[i]);
        let (vj, fj) = capability_key_spec(caps[j]);
        assert(preference_rank(caps[j]) >= vj * 0x2_0000_0000);
        assert(preference_rank(caps[i]) < (vi + 1) * 0x2_0000_0000);
        assert(preference_rank(caps[j]) <= preference_rank(caps[i]));
    }
}

/// Which AVC streams (4:2:0, 4:4:4) a capability set lets the server send.
pub open spec fn avc_support(c: GfxCapability) -> (bool, bool) {
    match c {
        GfxCapability::V8_1 { flags } => (flags & 0x10 != 0, false),
        GfxCapability::V10 { flags } => (flags & 0x20 == 0, flags & 0x20 == 0),
        GfxCapability::V10_2 { flags } => (flags & 0x20 == 0, flags & 0x20 == 0),
        GfxCapability::V10_1 => (true, true),
        GfxCapability::V10_3 { flags } => (flags & 0x20 == 0, flags & 0x20 == 0),
        GfxCapability::V10_4 { flags } => (flags & 0x20 == 0, flags & 0x20 == 0),
        GfxCapability::V10_5 { flags } => (flags & 0x20 == 0, flags & 0x20 == 0),
        GfxCapability::V10_6 { flags } => (flags & 0x20 == 0, flags & 0x20 == 0),
        GfxCapability::V10_6Err { flags } => (flags & 0x20 == 0, flags & 0x20 == 0),
        GfxCapability::V10_7 { flags } => (flags & 0x20 == 0, flags & 0x20 == 0),
        _ => (false, false),
    }
}

/// Version rank and flag word of a capability set, as used to order them.
pub fn capability_key(cap: &GfxCapability) -> (r: (u8, u32))
    ensures
        r == capability_key_spec(*cap),
{
    match cap {
        GfxCapability::V8 { flags } => (1, *flags),
        GfxCapability::V8_1 { flags } => (2, *flags),
        GfxCapability::V10 { flags } => (3, *flags),
        GfxCapability::V10_1 => (4, 0),
        GfxCapability::V10_2 { flags } => (5, *flags),
        GfxCapability::V10_3 { flags } => (6, *flags),
        GfxCapability::V10_4 { flags } => (7, *flags),
        GfxCapability::V10_5 { flags } => (8, *flags),
        GfxCapability::V10_6 { flags } => (9, *flags),
        GfxCapability::V10_6Err { flags } => (10, *flags),
        GfxCapability::V10_7 { flags } => (11, *flags),
        GfxCapability::Unknown(_) => (0, 0),
    }
}

fn preference_rank_of(cap: &GfxCapability) -> (r: u64)
    ensures
        r as int == preference_rank(*cap),
{
    let (version, flags) = capability_key(cap);
    let disabled: u64 = if flags & 0x20 != 0 { 0x1_0000_0000 } else { 0 };
    version as u64 * 0x2_0000_0000 + disabled + flags as u64
}

/// A copy of a capability set of a known version.
fn copy_known(cap: &GfxCapability) -> (r: GfxCapability)
    requires
        is_known(*cap),
    ensures
        r == *cap,
{
    match cap {
        GfxCapability::V8 { flags } => GfxCapability::V8 { flags: *flags },
        GfxCapability::V8_1 { flags } => GfxCapability::V8_1 { flags: *flags },
        GfxCapability::V10 { flags } => GfxCapability::V10 { flags: *flags },
        GfxCapability::V10_1 => GfxCapability::V10_1,
        GfxCapability::V10_2 { flags } => GfxCapability::V10_2 { flags: *flags },
        GfxCapability::V10_3 { flags } => GfxCapability::V10_3 { flags: *flags },
        GfxCapability::V10_4 { flags } => GfxCapability::V10_4 { flags: *flags },
        GfxCapability::V10_5 { flags } => GfxCapability::V10_5 { flags: *flags },
        GfxCapability::V10_6 { flags } => GfxCapability::V10_6 { flags: *flags },
        GfxCapability::V10_6Err { flags } => GfxCapability::V10_6Err { flags: *flags },
        GfxCapability::V10_7 { flags } => GfxCapability::V10_7 { flags: *flags },
        GfxCapability::Unknown(_) => GfxCapability::V10_1,
    }
}

fn avc_modes(cap: &GfxCapability) -> (r: (bool, bool))
    ensures
        r == avc_support(*cap),
{
    match cap {
        GfxCapability::V8_1 { flags } => ((*flags & 0x10) != 0, false),
        GfxCapability::V10 { flags } | GfxCapability::V10_2 { flags } | GfxCapability::V10_3 { flags }
        | GfxCapability::V10_4 { flags } | GfxCapability::V10_5 { flags } | GfxCapability::V10_6 { flags }
        | GfxCapability::V10_6Err { flags } | GfxCapability::V10_7 { flags } => {
            let enabled = (*flags & 0x20) == 0;
            (enabled, enabled)
        },
        GfxCapability::V10_1 => (true, true),
        _ => (false, false),
    }
}

/// Picks the capability set to confirm: the highest known version; among
/// equal versions one with AVC disabled, then the larger flag word; among
/// equal keys the last one offered.
pub fn select_capability(caps: &[GfxCapability]) -> (res: Result<SelectedCapability, GfxDecodeError>)
    ensures
        match res {
            Ok(sel) => exists|i: int| #![trigger caps@[i]]
                is_selected_index(caps@, i) && sel.capability == caps@[i]
                && (sel.avc420, sel.avc444) == avc_support(caps@[i]),
            Err(e) => e == GfxDecodeError::NoSupportedCapability
                && forall|j: int| 0 <= j < caps@.len() ==> !is_known(#[trigger] caps@[j]),
        },
{
    let mut best: Option<usize> = None;
    let mut best_rank: u64 = 0;
    let mut j: usize = 0;
    while j < caps.len()
        invariant
            j <= caps@.len(),
            match best {
                None => forall|k: int| 0 <= k < j ==> !is_known(#[trigger] caps@[k]),
                Some(b) => {
                    &&& b < j
                    &&& is_known(caps@[b as int])
                    &&& best_rank as int == preference_rank(caps@[b as int])
                    &&& forall|k: int| 0 <= k < j && is_known(#[trigger] caps@[k]) ==> preference_rank(caps@[k]) <= best_rank
                    &&& forall|k: int| b < k < j && is_known(#[trigger] caps@[k]) ==> preference_rank(caps@[k]) < best_rank
                },
            },
        decreases caps@.len() - j,
    {
        let known = match &caps[j] {
            GfxCapability::Unknown(_) => false,
            _ => true,
        };
        if known {
            let rank = preference_rank_of(&caps[j]);
            let replace = match best {
                None => true,
                Some(_) => rank >= best_rank,
            };
            if replace {
                best = Some(j);
                best_rank = rank;
            }
        }
        j = j + 1;
    }
    match best {
        None => Err(GfxDecodeError::NoSupportedCapability),
        Some(b) => {
            let capability = copy_known(&caps[b]);
            let (avc420, avc444) = avc_modes(&caps[b]);
            proof {
                assert(is_selected_index(caps@, b as int));
            }
            Ok(SelectedCapability { capability, avc420, avc444 })
        },
    }
}

/// The choice is deterministic: at most one index of a capability list is
/// the selected one (highest version, then AVC disabled, then flag word, and
/// among equal sets the last).
pub proof fn law_selected_index_unique(caps: Seq<GfxCapability>, i: int, k: int)
    requires
        is_selected_index(caps, i),
        is_selected_index(caps, k),
    ensures
        i == k,
{
    if i < k {
        assert(preference_rank(caps[k]) < preference_rank(caps[i]));
    } else if k < i {
        assert(preference_rank(caps[i]) < preference_rank(caps[k]));
    }
}


proof fn lemma_parsed_entries_known(data: Seq<u8>, pos: int, n: nat)
    ensures
        parse_entries(data, pos, n) matches Ok(caps) ==> forall|i: int| 0 <= i < caps.len() ==> is_known(#[trigger] caps[i]),
    decreases n,
{
    if n > 0 {
        match entry_spec(data, pos) {
            Err(_) => {},
            Ok((next, None)) => {
                lemma_parsed_entries_known(data, next, (n - 1) as nat);
            },
            Ok((next, Some(c))) => {
                lemma_parsed_entries_known(data, next, (n - 1) as nat);
                match parse_entries(data, next, (n - 1) as nat) {
                    Ok(rest) => {
                        assert forall|i: int| 0 <= i < (seq![c] + rest).len() implies is_known(#[trigger] (seq![c] + rest)[i]) by {
                            if i > 0 {
                                assert((seq![c] + rest)[i] == rest[i - 1]);
                            }
                        }
                    },
                    Err(_) => {},
                }
            },
        }
    }
}

/// A decoded advertisement holds only capability sets of known versions:
/// unknown version codes are skipped, never passed on.
pub proof fn law_decoded_capabilities_are_known(data: Seq<u8>)
    ensures
        advertisement_spec(data) matches Ok(caps) ==> forall|i: int| 0 <= i < caps.len() ==> is_known(#[trigger] caps[i]),
{
    if data.len() >= 10 {
        lemma_parsed_entries_known(data, 10, le16(data, 8) as nat);
    }
}

} // verus!
