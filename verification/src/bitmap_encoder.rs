//! RDP6 planar bitmap updates: a BGRA-like bitmap is split into chunks of
//! whole rows whose RDP6 stream fits a 64 KiB buffer; each chunk is sent
//! bottom row first, with every scanline padded to a multiple of four pixels
//! by repeating its last pixel, as one TS_BITMAP_DATA of a bitmap update.
use vstd::prelude::*;
use ironrdp_graphics::rdp6::{
    ABgrChannels, ARgbChannels, BgrAChannels, BitmapEncodeError, BitmapStreamEncoder, RgbAChannels,
};
use ironrdp_pdu::bitmap::{BitmapData, BitmapUpdateData, CompressedDataHeader, Compression};
use ironrdp_pdu::geometry::InclusiveRectangle;
use ironrdp_pdu::{Encode, EncodeErrorKind, WriteCursor};
use crate::arith::{lemma_mul_le, lemma_row_major_of, lemma_row_start_le};

verus! {

#[verifier::external_type_specification]
#[verifier::external_body]
pub struct ExBitmapEncodeError(BitmapEncodeError);

#[verifier::external_type_specification]
#[verifier::external_body]
pub struct ExEncodeErrorKind(EncodeErrorKind);

/// Size of the scratch buffer each chunk's RDP6 stream is written into.
pub const STREAM_CAPACITY: usize = 65535;

/// Bytes of a TS_BITMAP_DATA before its bitmap stream: the rectangle, width,
/// height, bits per pixel, flags, data length and the compressed-data header.
pub const BITMAP_DATA_OVERHEAD: usize = 26;

/// 32-bit pixel formats a bitmap update can carry.
#[derive(Debug, Clone, Copy, PartialEq, Eq, Structural)]
pub enum PixelFormat {
    ARgb32,
    XRgb32,
    ABgr32,
    XBgr32,
    BgrA32,
    BgrX32,
    RgbA32,
    RgbX32,
}

/// Where red, green and blue sit in a 4-byte pixel.
#[derive(Debug, Clone, Copy, PartialEq, Eq, Structural)]
pub enum ChannelOrder {
    /// Alpha, red, green, blue.
    Argb,
    /// Red, green, blue, alpha.
    RgbA,
    /// Alpha, blue, green, red.
    ABgr,
    /// Blue, green, red, alpha.
    BgrA,
}

pub open spec fn channel_order_of(f: PixelFormat) -> ChannelOrder {
    match f {
        PixelFormat::ARgb32 | PixelFormat::XRgb32 => ChannelOrder::Argb,
        PixelFormat::RgbA32 | PixelFormat::RgbX32 => ChannelOrder::RgbA,
        PixelFormat::ABgr32 | PixelFormat::XBgr32 => ChannelOrder::ABgr,
        PixelFormat::BgrA32 | PixelFormat::BgrX32 => ChannelOrder::BgrA,
    }
}

/// A colour channel of a pixel.
#[derive(Debug, Clone, Copy, PartialEq, Eq, Structural)]
pub enum ColorChannel {
    Red,
    Green,
    Blue,
}

/// The byte of a 4-byte pixel where a format stores a channel: the format's
/// name lists its bytes in memory order (`X`/`A` is the unused or alpha byte).
pub open spec fn stored_at(f: PixelFormat, ch: ColorChannel) -> int {
    match (f, ch) {
        (PixelFormat::ARgb32, ColorChannel::Red) | (PixelFormat::XRgb32, ColorChannel::Red) => 1,
        (PixelFormat::ARgb32, ColorChannel::Green) | (PixelFormat::XRgb32, ColorChannel::Green) => 2,
        (PixelFormat::ARgb32, ColorChannel::Blue) | (PixelFormat::XRgb32, ColorChannel::Blue) => 3,
        (PixelFormat::ABgr32, ColorChannel::Blue) | (PixelFormat::XBgr32, ColorChannel::Blue) => 1,
        (PixelFormat::ABgr32, ColorChannel::Green) | (PixelFormat::XBgr32, ColorChannel::Green) => 2,
        (PixelFormat::ABgr32, ColorChannel::Red) | (PixelFormat::XBgr32, ColorChannel::Red) => 3,
        (PixelFormat::BgrA32, ColorChannel::Blue) | (PixelFormat::BgrX32, ColorChannel::Blue) => 0,
        (PixelFormat::BgrA32, ColorChannel::Green) | (PixelFormat::BgrX32, ColorChannel::Green) => 1,
        (PixelFormat::BgrA32, ColorChannel::Red) | (PixelFormat::BgrX32, ColorChannel::Red) => 2,
        (PixelFormat::RgbA32, ColorChannel::Red) | (PixelFormat::RgbX32, ColorChannel::Red) => 0,
        (PixelFormat::RgbA32, ColorChannel::Green) | (PixelFormat::RgbX32, ColorChannel::Green) => 1,
        (_, _) => 2,
    }
}

/// The byte of a 4-byte pixel from which the RDP6 encoder reads a channel
/// under a channel order: the `R`, `G` and `B` constants of ironrdp-graphics'
/// `ARgbChannels`, `RgbAChannels`, `ABgrChannels` and `BgrAChannels`.
pub open spec fn read_at(o: ChannelOrder, ch: ColorChannel) -> int {
    match (o, ch) {
        (ChannelOrder::Argb, ColorChannel::Red) => 1,
        (ChannelOrder::Argb, ColorChannel::Green) => 2,
        (ChannelOrder::Argb, ColorChannel::Blue) => 3,
        (ChannelOrder::RgbA, ColorChannel::Red) => 0,
        (ChannelOrder::RgbA, ColorChannel::Green) => 1,
        (ChannelOrder::RgbA, ColorChannel::Blue) => 2,
        (ChannelOrder::ABgr, ColorChannel::Red) => 3,
        (ChannelOrder::ABgr, ColorChannel::Green) => 2,
        (ChannelOrder::ABgr, ColorChannel::Blue) => 1,
        (ChannelOrder::BgrA, ColorChannel::Red) => 2,
        (ChannelOrder::BgrA, ColorChannel::Green) => 1,
        (ChannelOrder::BgrA, ColorChannel::Blue) => 0,
    }
}

/// Colours survive encoding: for every pixel format, the channel order the
/// bitmap's pixels are encoded with reads red, green and blue from the bytes
/// where that format stores them.
pub proof fn law_channel_order_reads_stored_colors(f: PixelFormat, ch: ColorChannel)
    ensures
        read_at(channel_order_of(f), ch) == stored_at(f, ch),
{
}

fn channel_order(f: PixelFormat) -> (o: ChannelOrder)
    ensures
        o == channel_order_of(f),
{
    match f {
        PixelFormat::ARgb32 | PixelFormat::XRgb32 => ChannelOrder::Argb,
        PixelFormat::RgbA32 | PixelFormat::RgbX32 => ChannelOrder::RgbA,
        PixelFormat::ABgr32 | PixelFormat::XBgr32 => ChannelOrder::ABgr,
        PixelFormat::BgrA32 | PixelFormat::BgrX32 => ChannelOrder::BgrA,
    }
}

/// A bitmap to send: `width × height` pixels of `format` at `(x, y)` on the
/// screen, rows `stride` bytes apart in `data`.
#[derive(Debug)]
pub struct BitmapUpdate {
    pub x: u16,
    pub y: u16,
    pub width: u16,
    pub height: u16,
    pub format: PixelFormat,
    pub data: Vec<u8>,
    pub stride: usize,
}

/// Why a bitmap could not be encoded.
#[derive(Debug)]
pub enum BitmapError {
    /// The width rounded up to four pixels does not fit 16 bits.
    AlignedWidthTooLarge,
    /// "scanline is too wide": a padded scanline exceeds 65535 bytes.
    ScanlineTooWide,
    /// "invalid pixel buffer layout": the stride is shorter than a row, or the
    /// rows run past the end of the data.
    InvalidLayout,
    /// The RDP6 stream of a chunk did not fit its buffer.
    Stream(BitmapEncodeError),
    /// The update did not fit the output.
    Pdu(EncodeErrorKind),
}

/// The RDP6 planar stream (RLE) of a `width × height` image of 4-byte pixels
/// in `order`, when it fits `capacity` bytes.
pub uninterp spec fn rdp6_planar_stream(order: ChannelOrder, width: nat, height: nat, pixels: Seq<u8>, capacity: nat) -> Option<Seq<u8>>;

/// `BitmapStreamEncoder::encode_pixels_stream` of ironrdp-graphics with RLE on,
/// over the 4-byte pixels of `pixels` read in `order` (the channel types
/// ARgbChannels, RgbAChannels, ABgrChannels, BgrAChannels). The stream is
/// written at the start of `dst`; its length is returned. The result depends
/// only on the arguments and the length of `dst`; it is named, not stated.
#[verifier::external_body]
fn encode_rdp6_stream(order: ChannelOrder, width: usize, height: usize, pixels: &[u8], dst: &mut [u8]) -> (r: Result<usize, BitmapEncodeError>)
    requires
        pixels@.len() == width * height * 4,
    ensures
        final(dst)@.len() == old(dst)@.len(),
        match r {
            Ok(n) => n <= old(dst)@.len() && rdp6_planar_stream(order, width as nat, height as nat,
                pixels@, old(dst)@.len() as nat) == Some(final(dst)@.subrange(0, n as int)),
            Err(_) => rdp6_planar_stream(order, width as nat, height as nat, pixels@, old(dst)@.len() as nat) is None,
        },
{
    let mut encoder = BitmapStreamEncoder::new(width, height);
    let src = pixels.chunks_exact(4);
    match order {
        ChannelOrder::Argb => encoder.encode_pixels_stream::<_, ARgbChannels>(src, dst, true),
        ChannelOrder::RgbA => encoder.encode_pixels_stream::<_, RgbAChannels>(src, dst, true),
        ChannelOrder::ABgr => encoder.encode_pixels_stream::<_, ABgrChannels>(src, dst, true),
        ChannelOrder::BgrA => encoder.encode_pixels_stream::<_, BgrAChannels>(src, dst, true),
    }
}

/// Little-endian bytes of a 16-bit value.
pub open spec fn le16_bytes(v: int) -> Seq<u8> {
    seq![(v % 256) as u8, ((v / 256) % 256) as u8]
}

/// A bitmap update header announcing `count` rectangles: the
/// BITMAP_UPDATE_TYPE flag (1) and the count.
pub open spec fn update_header_bytes(count: int) -> Seq<u8> {
    le16_bytes(1) + le16_bytes(count)
}

/// `BitmapUpdateData::encode_header` of ironrdp-pdu on a `WriteCursor` over
/// `output`, with the error read back as its kind: writes the BITMAP_UPDATE_TYPE flag and the rectangle count (four
/// bytes) and returns the cursor position. It fails without writing when fewer
/// than two bytes are available; with two or three it would panic, so those
/// lengths are left out.
#[verifier::external_body]
fn encode_update_header(output: &mut [u8], count: u16) -> (r: Result<usize, EncodeErrorKind>)
    requires
        old(output)@.len() < 2 || old(output)@.len() >= 4,
    ensures
        final(output)@.len() == old(output)@.len(),
        match r {
            Ok(n) => n == 4 && old(output)@.len() >= 4 && final(output)@ == update_header_bytes(count as int)
                + old(output)@.subrange(4, old(output)@.len() as int),
            Err(_) => old(output)@.len() < 2 && final(output)@ == old(output)@,
        },
{
    let mut cursor = WriteCursor::new(output);
    BitmapUpdateData::encode_header(count, &mut cursor).map_err(|e| e.kind)?;
    Ok(cursor.pos())
}

/// The fields of one TS_BITMAP_DATA with an RDP6 compressed body.
pub struct RectangleFields {
    pub left: u16,
    pub top: u16,
    pub right: u16,
    pub bottom: u16,
    pub width: u16,
    pub height: u16,
    pub bits_per_pixel: u16,
    pub main_body_size: u16,
    pub scan_width: u16,
    pub uncompressed_size: u16,
}

/// A TS_BITMAP_DATA: rectangle, width, height, bits per pixel, the
/// BITMAP_COMPRESSION flag (1), the body length (stream plus its 8-byte
/// header), the compressed-data header (first row size 0, main body size,
/// scan width, uncompressed size) and the stream.
#[verifier::opaque]
pub open spec fn bitmap_data_bytes(f: RectangleFields, stream: Seq<u8>) -> Seq<u8> {
    le16_bytes(f.left as int) + le16_bytes(f.top as int) + le16_bytes(f.right as int)
        + le16_bytes(f.bottom as int) + le16_bytes(f.width as int) + le16_bytes(f.height as int)
        + le16_bytes(f.bits_per_pixel as int) + le16_bytes(1) + le16_bytes(stream.len() + 8int)
        + le16_bytes(0) + le16_bytes(f.main_body_size as int) + le16_bytes(f.scan_width as int)
        + le16_bytes(f.uncompressed_size as int) + stream
}

/// `BitmapData::encode` of ironrdp-pdu (with `Compression::BITMAP_COMPRESSION`
/// and a `CompressedDataHeader`) on a `WriteCursor` over `output[pos..]`;
/// returns the bytes written, or the kind of the error. It fails without writing when the output lacks
/// room or the body length does not fit 16 bits; a scan width that is not a
/// multiple of four would fail after a partial write, so it is left out.
#[verifier::external_body]
fn encode_bitmap_data(output: &mut [u8], pos: usize, f: &RectangleFields, stream: &[u8]) -> (r: Result<usize, EncodeErrorKind>)
    requires
        pos <= old(output)@.len(),
        f.scan_width % 4 == 0,
    ensures
        final(output)@.len() == old(output)@.len(),
        match r {
            Ok(n) => {
                &&& n == BITMAP_DATA_OVERHEAD + stream@.len()
                &&& pos + n <= old(output)@.len()
                &&& stream@.len() + 8 <= 65535
                &&& final(output)@ == old(output)@.subrange(0, pos as int) + bitmap_data_bytes(*f, stream@)
                    + old(output)@.subrange(pos + n, old(output)@.len() as int)
            },
            Err(_) => (old(output)@.len() - pos < BITMAP_DATA_OVERHEAD + stream@.len()
                || stream@.len() + 8 > 65535) && final(output)@ == old(output)@,
        },
{
    let rectangle = InclusiveRectangle { left: f.left, top: f.top, right: f.right, bottom: f.bottom };
    let header = CompressedDataHeader {
        main_body_size: f.main_body_size, scan_width: f.scan_width, uncompressed_size: f.uncompressed_size,
    };
    let data = BitmapData {
        rectangle, width: f.width, height: f.height, bits_per_pixel: f.bits_per_pixel,
        compression_flags: Compression::BITMAP_COMPRESSION, compressed_data_header: Some(header), bitmap_data: stream,
    };
    let mut cursor = WriteCursor::new(&mut output[pos..]);
    data.encode(&mut cursor).map_err(|e| e.kind)?;
    Ok(cursor.pos())
}


/// The width of a bitmap rounded up to a multiple of four pixels.
pub open spec fn aligned_width_of(width: int) -> int {
    ((width + 3) / 4) * 4
}

/// Rows per chunk for padded scanlines of `aligned` pixels: as many as fit
/// 65535 bytes.
pub open spec fn chunk_height_of(aligned: int) -> int {
    65535int / (aligned * 4)
}

/// Number of chunks of `ch` rows covering `height` rows.
pub open spec fn chunk_count(height: int, ch: int) -> int {
    (height + ch - 1) / ch
}

/// Rows in chunk `c`: `ch`, or what is left for the last one.
pub open spec fn chunk_rows(height: int, ch: int, c: int) -> int {
    if height - c * ch < ch {
        height - c * ch
    } else {
        ch
    }
}

/// Every row of the bitmap lies inside its data, and rows do not overlap.
pub open spec fn layout_ok(b: BitmapUpdate) -> bool {
    b.stride >= b.width * 4 && (b.height - 1) * b.stride + b.width * 4 <= b.data@.len()
}

/// The scanline geometry is representable: padded width and scanline bytes fit 16 bits.
pub open spec fn geometry_ok(b: BitmapUpdate) -> bool {
    aligned_width_of(b.width as int) <= 65535 && aligned_width_of(b.width as int) * 4 <= 65535
}

/// Byte `k` of the pixels of the chunk of `h` rows starting at row `start`:
/// rows bottom first, each `aligned` pixels wide, pixels past the bitmap's
/// width repeating its last pixel.
pub open spec fn chunk_byte(b: BitmapUpdate, aligned: int, start: int, h: int, k: int) -> u8 {
    let p = k / 4;
    let row = start + h - 1 - p / aligned;
    let col = if p % aligned < b.width { p % aligned } else { b.width - 1 };
    b.data@[row * b.stride + col * 4 + k % 4]
}

pub open spec fn chunk_pixels_spec(b: BitmapUpdate, aligned: int, start: int, h: int) -> Seq<u8> {
    Seq::new((aligned * h * 4) as nat, |k: int| chunk_byte(b, aligned, start, h, k))
}

/// The RDP6 stream of chunk `c`, when it fits the stream buffer.
pub open spec fn chunk_stream(b: BitmapUpdate, aligned: int, ch: int, c: int) -> Option<Seq<u8>> {
    let h = chunk_rows(b.height as int, ch, c);
    rdp6_planar_stream(channel_order_of(b.format), aligned as nat, h as nat,
        chunk_pixels_spec(b, aligned, c * ch, h), STREAM_CAPACITY as nat)
}

/// The TS_BITMAP_DATA fields of chunk `c` with a stream of `len` bytes.
pub open spec fn chunk_fields(b: BitmapUpdate, aligned: int, ch: int, c: int, len: int) -> RectangleFields {
    let h = chunk_rows(b.height as int, ch, c);
    let top = b.y + c * ch;
    RectangleFields {
        left: b.x,
        top: top as u16,
        right: (b.x + b.width - 1) as u16,
        bottom: (top + h - 1) as u16,
        width: aligned as u16,
        height: h as u16,
        bits_per_pixel: 32,
        main_body_size: len as u16,
        scan_width: aligned as u16,
        uncompressed_size: (h * aligned * 4) as u16,
    }
}

/// The TS_BITMAP_DATA record of chunk `c`, when its stream fit the buffer and
/// its body length fits 16 bits.
#[verifier::opaque]
pub open spec fn chunk_record(b: BitmapUpdate, aligned: int, ch: int, c: int) -> Option<Seq<u8>> {
    match chunk_stream(b, aligned, ch, c) {
        Some(s) => if s.len() + 8 <= 65535 {
            Some(bitmap_data_bytes(chunk_fields(b, aligned, ch, c, s.len() as int), s))
        } else {
            None
        },
        None => None,
    }
}

/// The TS_BITMAP_DATA records of the first `n` chunks, when every one exists.
pub open spec fn chunks_prefix(b: BitmapUpdate, aligned: int, ch: int, n: nat) -> Option<Seq<u8>>
    decreases n,
{
    if n == 0 {
        Some(Seq::empty())
    } else {
        match (chunks_prefix(b, aligned, ch, (n - 1) as nat), chunk_record(b, aligned, ch, n - 1)) {
            (Some(p), Some(r)) => Some(p + r),
            _ => None,
        }
    }
}

/// The whole bitmap update: header and one record per chunk.
pub open spec fn update_bytes(b: BitmapUpdate) -> Option<Seq<u8>> {
    let aligned = aligned_width_of(b.width as int);
    let ch = chunk_height_of(aligned);
    let total = chunk_count(b.height as int, ch);
    match chunks_prefix(b, aligned, ch, total as nat) {
        Some(p) => Some(update_header_bytes(total) + p),
        None => None,
    }
}

/// A chunk record list that exists for `n` chunks exists for fewer, as a prefix.
pub proof fn lemma_chunks_prefix_grows(b: BitmapUpdate, aligned: int, ch: int, m: nat, n: nat)
    requires
        m <= n,
        chunks_prefix(b, aligned, ch, n) is Some,
    ensures
        chunks_prefix(b, aligned, ch, m) is Some,
        chunks_prefix(b, aligned, ch, m)->Some_0.len() <= chunks_prefix(b, aligned, ch, n)->Some_0.len(),
    decreases n - m,
{
    if m < n {
        lemma_chunks_prefix_grows(b, aligned, ch, m, (n - 1) as nat);
    }
}

/// Extending the record list by the next chunk's record.
proof fn lemma_prefix_extend(b: BitmapUpdate, aligned: int, ch: int, c: nat)
    requires
        chunks_prefix(b, aligned, ch, c) is Some,
        chunk_record(b, aligned, ch, c as int) is Some,
    ensures
        chunks_prefix(b, aligned, ch, c + 1) == Some(chunks_prefix(b, aligned, ch, c)->Some_0
            + chunk_record(b, aligned, ch, c as int)->Some_0),
{
}

/// A buffer whose first `pos` bytes are unchanged and whose next `n` bytes
/// were written starts with the old prefix followed by the written bytes.
proof fn lemma_subrange_concat(cur: Seq<u8>, prev: Seq<u8>, head: Seq<u8>, rec: Seq<u8>, pos: int, n: int)
    requires
        0 <= pos,
        0 <= n,
        pos + n <= cur.len(),
        pos <= prev.len(),
        prev.subrange(0, pos) == head,
        cur.subrange(0, pos) == prev.subrange(0, pos),
        cur.subrange(pos, pos + n) == rec,
    ensures
        cur.subrange(0, pos + n) == head + rec,
{
    assert(cur.subrange(0, pos + n) =~= cur.subrange(0, pos) + cur.subrange(pos, pos + n));
}


/// The pixels of a chunk, bottom row first, padded to `aligned` pixels per row.
fn chunk_pixels(b: &BitmapUpdate, aligned: usize, start: usize, h: usize) -> (out: Vec<u8>)
    requires
        b.width > 0,
        aligned >= b.width,
        start + h <= b.height,
        layout_ok(*b),
        aligned * h * 4 <= usize::MAX,
    ensures
        out@ == chunk_pixels_spec(*b, aligned as int, start as int, h as int),
{
    let width = b.width as usize;
    let stride = b.stride;
    let data_len = b.data.len();
    let mut out: Vec<u8> = Vec::new();
    let mut i: usize = 0;
    while i < h
        invariant
            width == b.width,
            stride == b.stride,
            data_len == b.data@.len(),
            b.width > 0,
            aligned >= width,
            start + h <= b.height,
            layout_ok(*b),
            aligned * h * 4 <= usize::MAX,
            i <= h,
            out@.len() == i * aligned * 4,
            forall|k: int| 0 <= k < out@.len() ==> #[trigger] out@[k] == chunk_byte(*b, aligned as int,
                start as int, h as int, k),
        decreases h - i,
    {
        let row = start + h - 1 - i;
        proof {
            lemma_row_start_le(row as int, stride as int, b.height as int);
            lemma_mul_le(i as int, aligned as int, h as int, aligned as int);
            assert(i * aligned * 4 + aligned * 4 <= h * aligned * 4) by (nonlinear_arith)
                requires i < h;
            assert(aligned * h * 4 == h * aligned * 4) by (nonlinear_arith);
        }
        let row_off = row * stride;
        let mut x: usize = 0;
        while x < aligned
            invariant
                width == b.width,
                stride == b.stride,
                data_len == b.data@.len(),
                b.width > 0,
                aligned >= width,
                start + h <= b.height,
                layout_ok(*b),
                i < h,
                row == start + h - 1 - i,
                row_off == row * stride,
                row_off <= (b.height - 1) * stride,
                i * aligned * 4 + aligned * 4 <= aligned * h * 4,
                aligned * h * 4 <= usize::MAX,
                x <= aligned,
                out@.len() == i * aligned * 4 + x * 4,
                forall|k: int| 0 <= k < out@.len() ==> #[trigger] out@[k] == chunk_byte(*b, aligned as int,
                    start as int, h as int, k),
            decreases aligned - x,
        {
            let col = if x < width { x } else { width - 1 };
            proof {
                assert(row_off + col * 4 + 3 < b.data@.len()) by (nonlinear_arith)
                    requires col < width, row_off <= (b.height - 1) * stride,
                        (b.height - 1) * stride + width * 4 <= b.data@.len();
            }
            let base = row_off + col * 4;
            let ghost len0 = out@.len();
            out.push(b.data[base]);
            out.push(b.data[base + 1]);
            out.push(b.data[base + 2]);
            out.push(b.data[base + 3]);
            proof {
                assert forall|k: int| len0 <= k < len0 + 4 implies #[trigger] out@[k] == chunk_byte(*b,
                    aligned as int, start as int, h as int, k) by {
                    let p = (i * aligned + x) as int;
                    assert(len0 == p * 4) by (nonlinear_arith)
                        requires len0 == i * aligned * 4 + x * 4, p == i * aligned + x;
                    assert(k / 4 == p && k % 4 == k - len0) by (nonlinear_arith)
                        requires len0 == p * 4, len0 <= k < len0 + 4;
                    crate::arith::lemma_row_major_split(i as int, x as int, aligned as int);
                }
            }
            x = x + 1;
        }
        proof {
            assert((i + 1) * aligned * 4 == i * aligned * 4 + aligned * 4) by (nonlinear_arith);
        }
        i = i + 1;
    }
    proof {
        assert(h * aligned * 4 == aligned * h * 4) by (nonlinear_arith);
        assert(out@ =~= chunk_pixels_spec(*b, aligned as int, start as int, h as int));
    }
    out
}


/// Rows held by the first `n` chunks.
pub open spec fn rows_covered(height: int, ch: int, n: nat) -> int
    decreases n,
{
    if n == 0 {
        0
    } else {
        rows_covered(height, ch, (n - 1) as nat) + chunk_rows(height, ch, n - 1)
    }
}

proof fn lemma_rows_covered(height: int, ch: int, n: nat)
    requires
        height >= 1,
        ch >= 1,
        n <= chunk_count(height, ch),
    ensures
        rows_covered(height, ch, n) == if n * ch < height { n * ch } else { height },
    decreases n,
{
    if n > 0 {
        let m = (n - 1) as nat;
        lemma_rows_covered(height, ch, m);
        assert(m * ch < height) by (nonlinear_arith)
            requires m < (height + ch - 1) / ch, ch >= 1, height >= 1;
        assert(n * ch == m * ch + ch) by (nonlinear_arith)
            requires m == n - 1;
        assert(rows_covered(height, ch, m) == m * ch);
        assert(rows_covered(height, ch, n) == rows_covered(height, ch, m) + chunk_rows(height, ch, m as int));
    } else {
        assert(n * ch == 0) by (nonlinear_arith)
            requires n == 0;
    }
}

/// The chunks of an update split the bitmap's rows without gap or overlap:
/// chunk `c` starts at row `c * ch` and holds at least one row, and together
/// the chunks hold all `height` rows.
pub proof fn law_chunks_cover_rows(height: int, ch: int)
    requires
        height >= 1,
        ch >= 1,
    ensures
        rows_covered(height, ch, chunk_count(height, ch) as nat) == height,
        forall|c: nat| c < chunk_count(height, ch) ==> #[trigger] rows_covered(height, ch, c) == c * ch,
        forall|c: int| 0 <= c < chunk_count(height, ch) ==> #[trigger] chunk_rows(height, ch, c) >= 1,
{
    let count = chunk_count(height, ch);
    assert(count >= 1) by (nonlinear_arith)
        requires count == (height + ch - 1) / ch, height >= 1, ch >= 1;
    assert(count * ch >= height) by (nonlinear_arith)
        requires count == (height + ch - 1) / ch, ch >= 1;
    lemma_rows_covered(height, ch, count as nat);
    assert forall|c: nat| c < count implies #[trigger] rows_covered(height, ch, c) == c * ch by {
        assert(c * ch < height) by (nonlinear_arith)
            requires c < (height + ch - 1) / ch, ch >= 1, height >= 1;
        lemma_rows_covered(height, ch, c);
    }
    assert forall|c: int| 0 <= c < count implies #[trigger] chunk_rows(height, ch, c) >= 1 by {
        assert(c * ch < height) by (nonlinear_arith)
            requires c < (height + ch - 1) / ch, ch >= 1, height >= 1, c >= 0;
    }
}

/// Encoder of RDP6 bitmap updates, with the buffer each chunk's stream is
/// written into.
#[derive(Debug)]
pub struct BitmapEncoder {
    buffer: Vec<u8>,
}

impl BitmapEncoder {
    /// The stream buffer holds 65535 bytes.
    pub closed spec fn wf(self) -> bool {
        self.buffer@.len() == STREAM_CAPACITY
    }

    pub fn new() -> (e: Self)
        ensures
            e.wf(),
    {
        BitmapEncoder { buffer: vec![0u8; STREAM_CAPACITY] }
    }

    /// Encodes chunk `c` (rows `c * chunk_height` onwards) at `output[pos..]`.
    #[verifier::rlimit(40)]
    fn encode_chunk(
        &mut self,
        bitmap: &BitmapUpdate,
        aligned: usize,
        chunk_height: usize,
        c: usize,
        output: &mut [u8],
        pos: usize,
    ) -> (res: Result<usize, BitmapError>)
        requires
            old(self).wf(),
            bitmap.width >= 1,
            aligned == aligned_width_of(bitmap.width as int),
            aligned * 4 <= 65535,
            chunk_height == chunk_height_of(aligned as int),
            chunk_height >= 1,
            c * chunk_height < bitmap.height,
            bitmap.x + bitmap.width <= u16::MAX,
            bitmap.y + bitmap.height <= u16::MAX,
            layout_ok(*bitmap),
            pos <= old(output)@.len(),
        ensures
            final(self).wf(),
            final(output)@.len() == old(output)@.len(),
            final(output)@.subrange(0, pos as int) == old(output)@.subrange(0, pos as int),
            match res {
                Ok(n) => chunk_record(*bitmap, aligned as int, chunk_height as int, c as int) matches Some(rec)
                    && n == rec.len() && pos + n <= old(output)@.len()
                    && final(output)@.subrange(pos as int, pos + n) == rec,
                Err(_) => chunk_record(*bitmap, aligned as int, chunk_height as int, c as int) is None
                    || pos + chunk_record(*bitmap, aligned as int, chunk_height as int, c as int)->Some_0.len()
                        > old(output)@.len(),
            },
            res matches Err(e) ==> (e matches BitmapError::Stream(_) || e matches BitmapError::Pdu(_)),
    {
        let ghost b = *bitmap;
        let ghost al = aligned as int;
        let ghost ch = chunk_height as int;
        let height = bitmap.height as usize;
        let row_len = aligned * 4;
        let start = c * chunk_height;
        let rest = height - start;
        let h = if rest < chunk_height { rest } else { chunk_height };
        proof {
            assert(h * row_len <= 65535) by (nonlinear_arith)
                requires h <= chunk_height, chunk_height == 65535int / row_len as int, row_len >= 1;
            assert(aligned * h * 4 <= 65535) by (nonlinear_arith)
                requires h * row_len <= 65535, row_len == aligned * 4;
            assert(aligned >= bitmap.width) by (nonlinear_arith)
                requires aligned == ((bitmap.width + 3) / 4) * 4;
        }
        let pixels = chunk_pixels(bitmap, aligned, start, h);
        let order = channel_order(bitmap.format);
        let len = match encode_rdp6_stream(order, aligned, h, pixels.as_slice(), self.buffer.as_mut_slice()) {
            Ok(n) => n,
            Err(e) => {
                proof {
                    reveal(chunk_record);
                }
                return Err(BitmapError::Stream(e));
            },
        };
        let top = bitmap.y + start as u16;
        let fields = RectangleFields {
            left: bitmap.x,
            top,
            right: bitmap.x + bitmap.width - 1,
            bottom: top + h as u16 - 1,
            width: aligned as u16,
            height: h as u16,
            bits_per_pixel: 32,
            main_body_size: len as u16,
            scan_width: aligned as u16,
            uncompressed_size: (h * row_len) as u16,
        };
        let stream = vstd::slice::slice_subrange(self.buffer.as_slice(), 0, len);
        proof {
            reveal(chunk_record);
            assert(aligned % 4 == 0);
            assert(h == chunk_rows(b.height as int, ch, c as int));
            assert(start == c * ch);
            assert(fields.top == (b.y + c * ch) as u16);
            assert(fields.right == (b.x + b.width - 1) as u16);
            assert(fields.bottom == (b.y + c * ch + h - 1) as u16);
            assert(h * row_len == h * al * 4) by (nonlinear_arith)
                requires row_len == aligned * 4, al == aligned;
            assert(fields.uncompressed_size == (h * al * 4) as u16);
            assert(fields == chunk_fields(b, al, ch, c as int, len as int));
        }
        let ghost before = output@;
        match encode_bitmap_data(output, pos, &fields, stream) {
            Ok(n) => {
                proof {
                    reveal(bitmap_data_bytes);
                    assert(pixels@ == chunk_pixels_spec(b, al, c * ch, h as int));
                    assert(chunk_stream(b, al, ch, c as int) == Some(stream@));
                    assert(chunk_record(b, al, ch, c as int) == Some(bitmap_data_bytes(fields, stream@)));
                    assert(bitmap_data_bytes(fields, stream@).len() == 26 + stream@.len());
                    assert(n == 26 + stream@.len());
                    assert(output@.subrange(0, pos as int) =~= before.subrange(0, pos as int));
                    assert(output@.subrange(pos as int, pos + n) =~= bitmap_data_bytes(fields, stream@));
                }
                Ok(n)
            },
            Err(e) => {
                proof {
                    reveal(chunk_record);
                    reveal(bitmap_data_bytes);
                    assert(pixels@ == chunk_pixels_spec(b, al, c * ch, h as int));
                    assert(chunk_stream(b, al, ch, c as int) == Some(stream@));
                    assert(bitmap_data_bytes(fields, stream@).len() == 26 + stream@.len());
                    if stream@.len() + 8 <= 65535 {
                        assert(chunk_record(b, al, ch, c as int) == Some(bitmap_data_bytes(fields, stream@)));
                    }
                }
                Err(BitmapError::Pdu(e))
            },
        }
    }

    /// Encodes a bitmap update into `output`: the update header, then one
    /// TS_BITMAP_DATA per chunk of rows, each carrying the chunk's RDP6 stream.
    /// Returns the number of bytes written.
    #[verifier::rlimit(40)]
    pub fn encode(&mut self, bitmap: &BitmapUpdate, output: &mut [u8]) -> (res: Result<usize, BitmapError>)
        requires
            old(self).wf(),
            bitmap.width > 0,
            bitmap.height > 0,
            bitmap.stride > 0,
            bitmap.x + bitmap.width <= u16::MAX,
            bitmap.y + bitmap.height <= u16::MAX,
            old(output)@.len() != 2 && old(output)@.len() != 3,
        ensures
            final(self).wf(),
            final(output)@.len() == old(output)@.len(),
            (aligned_width_of(bitmap.width as int) > 65535) == (res matches Err(BitmapError::AlignedWidthTooLarge)),
            (aligned_width_of(bitmap.width as int) <= 65535 && aligned_width_of(bitmap.width as int) * 4 > 65535)
                == (res matches Err(BitmapError::ScanlineTooWide)),
            (geometry_ok(*bitmap) && !layout_ok(*bitmap)) == (res matches Err(BitmapError::InvalidLayout)),
            (res matches Err(BitmapError::AlignedWidthTooLarge) || res matches Err(BitmapError::ScanlineTooWide)
                || res matches Err(BitmapError::InvalidLayout)) ==> final(output)@ == old(output)@,
            res matches Ok(n) ==> update_bytes(*bitmap) matches Some(bytes) && n == bytes.len()
                && final(output)@.subrange(0, n as int) == bytes,
            (geometry_ok(*bitmap) && layout_ok(*bitmap) && (update_bytes(*bitmap) matches Some(bytes)
                && bytes.len() <= old(output)@.len())) ==> res is Ok,
    {
        let w32 = bitmap.width as u32;
        let aligned32 = (w32 + 3) / 4 * 4;
        if aligned32 > 65535 {
            return Err(BitmapError::AlignedWidthTooLarge);
        }
        if aligned32 * 4 > 65535 {
            return Err(BitmapError::ScanlineTooWide);
        }
        let aligned = aligned32 as usize;
        let row_len = aligned * 4;
        let chunk_height = 65535 / row_len;
        proof {
            assert(chunk_height >= 1) by (nonlinear_arith)
                requires chunk_height == 65535int / row_len as int, 1 <= row_len <= 65535;
        }
        let width = bitmap.width as usize;
        let height = bitmap.height as usize;
        let stride = bitmap.stride;
        let visible_row_len = width * 4;
        let data_len = bitmap.data.len();
        let fits = match (height - 1).checked_mul(stride) {
            Some(offset) => match offset.checked_add(visible_row_len) {
                Some(required) => required <= bitmap.data.len(),
                None => false,
            },
            None => false,
        };
        if stride < visible_row_len || !fits {
            return Err(BitmapError::InvalidLayout);
        }
        let ghost b = *bitmap;
        let ghost al = aligned as int;
        let ghost ch = chunk_height as int;
        let total = (height + chunk_height - 1) / chunk_height;
        proof {
            assert(total <= height) by (nonlinear_arith)
                requires total == (height + chunk_height - 1) as int / chunk_height as int, chunk_height >= 1, height >= 1;
        }
        let mut pos = match encode_update_header(output, total as u16) {
            Ok(n) => n,
            Err(e) => {
                return Err(BitmapError::Pdu(e));
            },
        };
        let ghost out_len = output@.len();
        let out_size = output.len();
        let mut c: usize = 0;
        while c < total
            invariant
                b == *bitmap,
                al == aligned,
                ch == chunk_height,
                aligned == aligned_width_of(bitmap.width as int),
                aligned * 4 <= 65535,
                row_len == aligned * 4,
                chunk_height == chunk_height_of(al),
                chunk_height >= 1,
                width == bitmap.width,
                height == bitmap.height,
                total == chunk_count(height as int, ch),
                total <= height,
                height >= 1,
                width >= 1,
                aligned >= width,
                bitmap.x + bitmap.width <= u16::MAX,
                bitmap.y + bitmap.height <= u16::MAX,
                layout_ok(*bitmap),
                self.buffer@.len() == STREAM_CAPACITY,
                output@.len() == out_len,
                out_len == old(output)@.len(),
                out_size == out_len,
                c <= total,
                chunks_prefix(b, al, ch, c as nat) matches Some(p) && pos == 4 + p.len()
                    && output@.subrange(0, pos as int) == update_header_bytes(total as int) + p,
                pos <= out_len,
            decreases total - c,
        {
            proof {
                assert(c * chunk_height < height) by (nonlinear_arith)
                    requires c < total, total == (height + chunk_height - 1) as int / chunk_height as int, chunk_height >= 1;
            }
            let ghost before = output@;
            let n = match self.encode_chunk(bitmap, aligned, chunk_height, c, output, pos) {
                Ok(n) => n,
                Err(e) => {
                    proof {
                        if chunks_prefix(b, al, ch, total as nat) is Some {
                            lemma_chunks_prefix_grows(b, al, ch, (c + 1) as nat, total as nat);
                        }
                    }
                    return Err(e);
                },
            };
            proof {
                let p = chunks_prefix(b, al, ch, c as nat)->Some_0;
                let rec = chunk_record(b, al, ch, c as int)->Some_0;
                lemma_prefix_extend(b, al, ch, c as nat);
                lemma_subrange_concat(output@, before, update_header_bytes(total as int) + p, rec,
                    pos as int, n as int);
            }
            pos = pos + n;
            c = c + 1;
        }
        Ok(pos)
    }
}

} // verus!
