//! H.264 access-unit rewriting for the hardware encoder's output: the
//! length-prefixed (AVCC) NAL units of one encoded sample are rewritten as an
//! Annex B stream that keeps only slices and parameter sets, and keyframes are
//! prefixed with the session's parameter sets.
use vstd::prelude::*;

verus! {

/// The four-byte Annex B start code.
pub open spec fn start_code() -> Seq<u8> {
    seq![0u8, 0u8, 0u8, 1u8]
}

/// Big-endian value of a byte sequence.
pub open spec fn be_value(s: Seq<u8>) -> nat
    decreases s.len(),
{
    if s.len() == 0 {
        0
    } else {
        be_value(s.drop_last()) * 256 + s.last() as nat
    }
}

/// NAL unit type: the low five bits of the NAL header byte.
pub open spec fn nal_type(header: u8) -> u8 {
    header % 32
}

/// Whether a NAL unit of this type is kept in the rewritten stream:
/// non-IDR slices (1), IDR slices (5), SPS (7) and PPS (8).
pub open spec fn kept_nal_type(t: u8) -> bool {
    t == 1 || t == 5 || t == 7 || t == 8
}

/// Annex B form of the NAL units of `data` from `offset` on, each preceded by
/// an `n`-byte big-endian length: kept non-empty units, each after a start
/// code. Parsing stops at the first length field or unit that does not fit.
pub open spec fn annex_b_payload(data: Seq<u8>, offset: int, n: int) -> Seq<u8>
    decreases data.len() - offset,
{
    if n <= 0 || offset < 0 || offset + n > data.len() {
        Seq::empty()
    } else {
        let len = be_value(data.subrange(offset, offset + n)) as int;
        let start = offset + n;
        if len > data.len() - start {
            Seq::empty()
        } else {
            let unit = if len > 0 && kept_nal_type(nal_type(data[start])) {
                start_code() + data.subrange(start, start + len)
            } else {
                Seq::empty()
            };
            unit + annex_b_payload(data, start + len, n)
        }
    }
}

/// Whether an IDR slice (type 5) occurs among the complete non-empty NAL units
/// of `data` from `offset` on.
pub open spec fn has_idr(data: Seq<u8>, offset: int, n: int) -> bool
    decreases data.len() - offset,
{
    if n <= 0 || offset < 0 || offset + n > data.len() {
        false
    } else {
        let len = be_value(data.subrange(offset, offset + n)) as int;
        let start = offset + n;
        if len > data.len() - start {
            false
        } else {
            (len > 0 && nal_type(data[start]) == 5) || has_idr(data, start + len, n)
        }
    }
}

/// The parameter sets, each after a start code.
pub open spec fn prefixed_parameter_sets(sets: Seq<Seq<u8>>) -> Seq<u8>
    decreases sets.len(),
{
    if sets.len() == 0 {
        Seq::empty()
    } else {
        prefixed_parameter_sets(sets.drop_last()) + start_code() + sets.last()
    }
}

/// Size of the NAL length field: the reported header length, or 4 when none
/// is reported.
pub open spec fn length_field_size(nal_header_len: i32) -> int {
    if nal_header_len > 0 {
        nal_header_len as int
    } else {
        4
    }
}

/// Why an encoded sample could not be turned into an access unit.
#[derive(Debug, Clone, Copy, PartialEq, Eq, Structural)]
pub enum AccessUnitError {
    /// "Unsupported VT NAL length field: {size}"
    UnsupportedLengthField(usize),
    /// "VT callback returned an empty access unit"
    EmptyAccessUnit,
}

/// The access unit of one encoded sample: for a keyframe, the parameter sets
/// followed by the kept NAL units; otherwise the kept NAL units alone.
pub open spec fn access_unit(data: Seq<u8>, n: int, sets: Seq<Seq<u8>>) -> Seq<u8> {
    if has_idr(data, 0, n) {
        prefixed_parameter_sets(sets) + annex_b_payload(data, 0, n)
    } else {
        annex_b_payload(data, 0, n)
    }
}

/// Rewrite one AVCC sample as an Annex B access unit and report whether it is
/// a keyframe (contains an IDR slice).
///
/// Only NAL units of types 1, 5, 7 and 8 are kept; SEI, AUD, filler and other
/// units are stripped. Parameter sets are prepended only to keyframes.
/// `nal_header_len` is the length-field size the format description reports
/// (0 or less when unknown, meaning 4).
pub fn avcc_to_annex_b(data: &[u8], nal_header_len: i32, parameter_sets: &Vec<Vec<u8>>) -> (res: Result<
    (Vec<u8>, bool),
    AccessUnitError,
>)
    ensures
        !(length_field_size(nal_header_len) == 1 || length_field_size(nal_header_len) == 2
            || length_field_size(nal_header_len) == 4) <==> res == Err::<(Vec<u8>, bool), AccessUnitError>(
            AccessUnitError::UnsupportedLengthField(length_field_size(nal_header_len) as usize),
        ),
        (length_field_size(nal_header_len) == 1 || length_field_size(nal_header_len) == 2
            || length_field_size(nal_header_len) == 4) ==> {
            let unit = access_unit(
                data@,
                length_field_size(nal_header_len),
                parameter_sets@.map_values(|s: Vec<u8>| s@),
            );
            &&& (unit.len() == 0 <==> res == Err::<(Vec<u8>, bool), AccessUnitError>(
                AccessUnitError::EmptyAccessUnit,
            ))
            &&& unit.len() > 0 ==> (res matches Ok((bytes, key)) && bytes@ == unit && key == has_idr(
                data@,
                0,
                length_field_size(nal_header_len),
            ))
        },
{
    let nal_len_size: usize = if nal_header_len > 0 {
        nal_header_len as usize
    } else {
        4
    };
    if !(nal_len_size == 1 || nal_len_size == 2 || nal_len_size == 4) {
        return Err(AccessUnitError::UnsupportedLengthField(nal_len_size));
    }
    let ghost n = nal_len_size as int;

    let is_keyframe = scan_for_idr(data, nal_len_size);

    let mut annex_b: Vec<u8> = Vec::new();
    // SPS/PPS: only prepend for IDR frames (start of new coded video sequence).
    if is_keyframe {
        append_parameter_sets(&mut annex_b, parameter_sets);
    }
    let ghost prefix = annex_b@;
    append_kept_units(&mut annex_b, data, nal_len_size);
    assert(annex_b@ == access_unit(data@, n, parameter_sets@.map_values(|s: Vec<u8>| s@)));

    if annex_b.len() == 0 {
        Err(AccessUnitError::EmptyAccessUnit)
    } else {
        Ok((annex_b, is_keyframe))
    }
}

/// Read the `n`-byte big-endian NAL length at `offset`.
fn read_length(data: &[u8], offset: usize, n: usize) -> (len: usize)
    requires
        1 <= n <= 4,
        offset + n <= data@.len(),
    ensures
        len == be_value(data@.subrange(offset as int, offset + n)),
{
    let data_len = data.len();
    let mut value: usize = 0;
    let mut i: usize = 0;
    while i < n
        invariant
            data_len == data@.len(),
            1 <= n <= 4,
            offset + n <= data@.len(),
            i <= n,
            value == be_value(data@.subrange(offset as int, offset + i)),
            value < pow256(i as nat),
        decreases n - i,
    {
        let byte = data[offset + i];
        proof {
            let s = data@.subrange(offset as int, offset + i + 1);
            assert(s.drop_last() =~= data@.subrange(offset as int, offset + i));
            lemma_pow256_bound(i as nat);
        }
        value = value * 256 + byte as usize;
        i = i + 1;
    }
    value
}

/// `256^i`.
pub open spec fn pow256(i: nat) -> nat
    decreases i,
{
    if i == 0 {
        1
    } else {
        256 * pow256((i - 1) as nat)
    }
}

proof fn lemma_pow256_bound(i: nat)
    requires
        i < 4,
    ensures
        pow256(i + 1) <= 0x1_0000_0000,
        pow256(i + 1) == 256 * pow256(i),
{
    reveal_with_fuel(pow256, 5);
}

/// Whether the sample contains an IDR slice.
fn scan_for_idr(data: &[u8], n: usize) -> (key: bool)
    requires
        n == 1 || n == 2 || n == 4,
    ensures
        key == has_idr(data@, 0, n as int),
{
    let total_len = data.len();
    let mut scan_offset: usize = 0;
    while n <= total_len - scan_offset
        invariant
            n == 1 || n == 2 || n == 4,
            total_len == data@.len(),
            scan_offset <= total_len,
            has_idr(data@, 0, n as int) == has_idr(data@, scan_offset as int, n as int),
        decreases total_len - scan_offset,
    {
        let nal_len = read_length(data, scan_offset, n);
        let start = scan_offset + n;
        if nal_len > total_len - start {
            return false;
        }
        if nal_len > 0 {
            let header = data[start];
            let t = header & 0x1F;
            assert(header & 0x1F == header % 32) by (bit_vector);
            if t == 5 {
                return true;
            }
        }
        scan_offset = start + nal_len;
    }
    false
}

/// Append each parameter set after a start code.
fn append_parameter_sets(out: &mut Vec<u8>, sets: &Vec<Vec<u8>>)
    ensures
        final(out)@ == old(out)@ + prefixed_parameter_sets(sets@.map_values(|s: Vec<u8>| s@)),
{
    let mut i: usize = 0;
    while i < sets.len()
        invariant
            i <= sets@.len(),
            out@ == old(out)@ + prefixed_parameter_sets(sets@.subrange(0, i as int).map_values(|s: Vec<u8>| s@)),
        decreases sets@.len() - i,
    {
        let ghost before = out@;
        out.push(0);
        out.push(0);
        out.push(0);
        out.push(1);
        append_bytes(out, sets[i].as_slice(), 0, sets[i].len());
        proof {
            let next = sets@.subrange(0, i + 1).map_values(|s: Vec<u8>| s@);
            assert(next.drop_last() =~= sets@.subrange(0, i as int).map_values(|s: Vec<u8>| s@));
            assert(next.last() == sets@[i as int]@);
            assert(out@ =~= old(out)@ + prefixed_parameter_sets(next));
        }
        i = i + 1;
    }
    assert(sets@.subrange(0, sets@.len() as int) =~= sets@);
}

/// Append `src[start..start + count]`.
fn append_bytes(out: &mut Vec<u8>, src: &[u8], start: usize, count: usize)
    requires
        start + count <= src@.len(),
    ensures
        final(out)@ == old(out)@ + src@.subrange(start as int, start + count),
{
    let src_len = src.len();
    let mut i: usize = 0;
    while i < count
        invariant
            src_len == src@.len(),
            start + count <= src@.len(),
            i <= count,
            out@ == old(out)@ + src@.subrange(start as int, start + i),
        decreases count - i,
    {
        out.push(src[start + i]);
        assert(src@.subrange(start as int, start + i + 1) =~= src@.subrange(start as int, start + i).push(
            src@[start + i],
        ));
        i = i + 1;
    }
}

/// AVCC → Annex B: append the kept NAL units, each after a start code.
fn append_kept_units(out: &mut Vec<u8>, data: &[u8], n: usize)
    requires
        n == 1 || n == 2 || n == 4,
    ensures
        final(out)@ == old(out)@ + annex_b_payload(data@, 0, n as int),
{
    let total_len = data.len();
    let mut offset: usize = 0;
    while n <= total_len - offset
        invariant
            n == 1 || n == 2 || n == 4,
            total_len == data@.len(),
            offset <= total_len,
            old(out)@ + annex_b_payload(data@, 0, n as int) == out@ + annex_b_payload(
                data@,
                offset as int,
                n as int,
            ),
        ensures
            out@ == old(out)@ + annex_b_payload(data@, 0, n as int),
        decreases total_len - offset,
    {
        let nal_len = read_length(data, offset, n);
        let start = offset + n;
        if nal_len > total_len - start {
            assert(annex_b_payload(data@, offset as int, n as int) =~= Seq::<u8>::empty());
            assert(out@ + Seq::<u8>::empty() =~= out@);
            break;
        }
        let ghost before = out@;
        if nal_len > 0 {
            let header = data[start];
            let t = header & 0x1F;
            assert(header & 0x1F == header % 32) by (bit_vector);
            if t == 1 || t == 5 || t == 7 || t == 8 {
                out.push(0);
                out.push(0);
                out.push(0);
                out.push(1);
                append_bytes(out, data, start, nal_len);
            }
        }
        proof {
            assert(out@ + annex_b_payload(data@, (start + nal_len) as int, n as int) =~= before
                + annex_b_payload(data@, offset as int, n as int));
        }
        offset = start + nal_len;
    }
}

/// Why the callback's output could not be taken as a frame.
#[derive(Debug, Clone, PartialEq, Eq)]
pub enum TakeFrameError<E> {
    /// "VT callback returned no output after CompleteFrames"
    NoOutput,
    /// The callback reported this failure.
    Callback(E),
    /// "VT callback returned an empty access unit"
    EmptyAccessUnit,
}

/// Take the encoded frame the callback left behind: no output, a reported
/// failure and an empty access unit are errors.
pub fn take_frame<E>(output: Option<Result<(Vec<u8>, bool), E>>) -> (res: Result<(Vec<u8>, bool), TakeFrameError<E>>)
    ensures
        match output {
            None => res == Err::<(Vec<u8>, bool), TakeFrameError<E>>(TakeFrameError::NoOutput),
            Some(Err(e)) => res == Err::<(Vec<u8>, bool), TakeFrameError<E>>(TakeFrameError::Callback(e)),
            Some(Ok(frame)) => if frame.0@.len() == 0 {
                res == Err::<(Vec<u8>, bool), TakeFrameError<E>>(TakeFrameError::EmptyAccessUnit)
            } else {
                res == Ok::<(Vec<u8>, bool), TakeFrameError<E>>(frame)
            },
        },
{
    match output {
        None => Err(TakeFrameError::NoOutput),
        Some(Err(e)) => Err(TakeFrameError::Callback(e)),
        Some(Ok(frame)) => {
            if frame.0.len() == 0 {
                Err(TakeFrameError::EmptyAccessUnit)
            } else {
                Ok(frame)
            }
        },
    }
}

} // verus!
