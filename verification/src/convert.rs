//! Frame validation and color conversion between BGRA captures and the
//! planar YUV layouts the H.264 encoders consume (I420 and NV12), including
//! macroblock-padded destination planes.
use vstd::prelude::*;
use crate::arith::{lemma_mul_le, lemma_row_major_bound, lemma_row_major_split, lemma_row_major_of, lemma_row_start_le};
use crate::planes::{copy_span, fill_span, uniform, fill_plane};
use crate::yuv444_split::{clamp_byte, bgra_offset, bgra_covers, clamp_to_byte, lemma_biased_shift, pixel_y, pixel_u, pixel_v, bgra_pixel_to_yuv_full, full_range_y, full_range_u, full_range_v};

verus! {

/// Why a BGRA frame was refused before conversion.
#[derive(Debug, Clone, Copy, PartialEq, Eq, Structural)]
pub enum FrameError {
    /// "Frame dimensions must be positive"
    EmptyFrame,
    /// "Frame exceeds encoder dimensions"
    ExceedsEncoder,
    /// "Frame row size overflow"
    RowSizeOverflow,
    /// "BGRA stride is smaller than one row"
    StrideTooSmall,
    /// "BGRA buffer size overflow"
    BufferSizeOverflow,
    /// "BGRA buffer is truncated"
    Truncated,
}

impl FrameError {
    /// The text of the message reported for this error.
    pub open spec fn message_text(self) -> Seq<char> {
        match self {
            FrameError::EmptyFrame => "Frame dimensions must be positive"@,
            FrameError::ExceedsEncoder => "Frame exceeds encoder dimensions"@,
            FrameError::RowSizeOverflow => "Frame row size overflow"@,
            FrameError::StrideTooSmall => "BGRA stride is smaller than one row"@,
            FrameError::BufferSizeOverflow => "BGRA buffer size overflow"@,
            FrameError::Truncated => "BGRA buffer is truncated"@,
        }
    }

    /// The message the encoders report for this error.
    pub fn message(&self) -> (s: &'static str)
        ensures
            s@ == self.message_text(),
    {
        match self {
            FrameError::EmptyFrame => "Frame dimensions must be positive",
            FrameError::ExceedsEncoder => "Frame exceeds encoder dimensions",
            FrameError::RowSizeOverflow => "Frame row size overflow",
            FrameError::StrideTooSmall => "BGRA stride is smaller than one row",
            FrameError::BufferSizeOverflow => "BGRA buffer size overflow",
            FrameError::Truncated => "BGRA buffer is truncated",
        }
    }
}

/// The outcome of checking a BGRA frame against an encoder's dimensions:
/// the first failing check, in the order the encoders apply them.
pub open spec fn bgra_check(
    len: int,
    width: int,
    height: int,
    stride: int,
    enc_w: int,
    enc_h: int,
) -> Result<(), FrameError> {
    if width == 0 || height == 0 {
        Err(FrameError::EmptyFrame)
    } else if width > enc_w || height > enc_h {
        Err(FrameError::ExceedsEncoder)
    } else if width * 4 > usize::MAX {
        Err(FrameError::RowSizeOverflow)
    } else if stride < width * 4 {
        Err(FrameError::StrideTooSmall)
    } else if (height - 1) * stride + width * 4 > usize::MAX {
        Err(FrameError::BufferSizeOverflow)
    } else if len < (height - 1) * stride + width * 4 {
        Err(FrameError::Truncated)
    } else {
        Ok(())
    }
}

/// Validate before calling conversion routines or indexing pixel planes.
pub fn validate_bgra(
    data: &[u8],
    width: u32,
    height: u32,
    stride: usize,
    enc_w: u32,
    enc_h: u32,
) -> (res: Result<(), FrameError>)
    ensures
        res == bgra_check(
            data@.len() as int,
            width as int,
            height as int,
            stride as int,
            enc_w as int,
            enc_h as int,
        ),
{
    if !(width > 0 && height > 0) {
        return Err(FrameError::EmptyFrame);
    }
    if !(width <= enc_w && height <= enc_h) {
        return Err(FrameError::ExceedsEncoder);
    }
    let row_bytes = match (width as usize).checked_mul(4) {
        Some(v) => v,
        None => return Err(FrameError::RowSizeOverflow),
    };
    if !(stride >= row_bytes) {
        return Err(FrameError::StrideTooSmall);
    }
    let required = match (height as usize - 1).checked_mul(stride) {
        Some(offset) => match offset.checked_add(row_bytes) {
            Some(total) => total,
            None => return Err(FrameError::BufferSizeOverflow),
        },
        None => {
            proof {
                lemma_mul_le(0, stride as int, (height - 1) as int, stride as int);
            }
            return Err(FrameError::BufferSizeOverflow);
        },
    };
    if !(data.len() >= required) {
        return Err(FrameError::Truncated);
    }
    Ok(())
}

/// A frame that passes the check can be read by every conversion routine:
/// its last pixel lies inside the buffer and no row offset overflows.
pub proof fn lemma_checked_frame_is_covered(
    len: int,
    width: int,
    height: int,
    stride: int,
    enc_w: int,
    enc_h: int,
)
    requires
        0 <= width,
        0 <= height,
        0 <= stride,
        bgra_check(len, width, height, stride, enc_w, enc_h) is Ok,
    ensures
        bgra_covers(len, width, height, stride),
        0 < width <= enc_w,
        0 < height <= enc_h,
        width * 4 <= stride,
{
}


/// BT.601 limited-range luma: `((66 R + 129 G + 25 B + 128) >> 8) + 16`.
pub open spec fn limited_range_y(b: int, g: int, r: int) -> u8 {
    clamp_byte((66 * r + 129 * g + 25 * b + 128) / 256 + 16)
}

/// BT.601 limited-range blue difference: `((-38 R - 74 G + 112 B + 128) >> 8) + 128`.
pub open spec fn limited_range_u(b: int, g: int, r: int) -> u8 {
    clamp_byte((-38 * r - 74 * g + 112 * b + 128) / 256 + 128)
}

/// BT.601 limited-range red difference: `((112 R - 94 G - 18 B + 128) >> 8) + 128`.
pub open spec fn limited_range_v(b: int, g: int, r: int) -> u8 {
    clamp_byte((112 * r - 94 * g - 18 * b + 128) / 256 + 128)
}

/// Whether the pixel at `row`, `col` is wholly inside a buffer of `len` bytes
/// (its red byte included).
pub open spec fn pixel_present(len: int, stride: int, row: int, col: int) -> bool {
    bgra_offset(stride, row, col) + 2 < len
}

/// Limited-range luma of the BGRA pixel at `row`, `col`.
pub open spec fn pixel_ly(bgra: Seq<u8>, stride: int, row: int, col: int) -> u8 {
    let o = bgra_offset(stride, row, col);
    limited_range_y(bgra[o] as int, bgra[o + 1] as int, bgra[o + 2] as int)
}

/// Limited-range blue difference of the BGRA pixel at `row`, `col`.
pub open spec fn pixel_lu(bgra: Seq<u8>, stride: int, row: int, col: int) -> u8 {
    let o = bgra_offset(stride, row, col);
    limited_range_u(bgra[o] as int, bgra[o + 1] as int, bgra[o + 2] as int)
}

/// Limited-range red difference of the BGRA pixel at `row`, `col`.
pub open spec fn pixel_lv(bgra: Seq<u8>, stride: int, row: int, col: int) -> u8 {
    let o = bgra_offset(stride, row, col);
    limited_range_v(bgra[o] as int, bgra[o + 1] as int, bgra[o + 2] as int)
}

/// `(r, c)` comes before `(row, col)` in row-major order.
pub open spec fn before(r: int, c: int, row: int, col: int) -> bool {
    r < row || (r == row && c < col)
}

/// Convert one BGRA pixel to limited-range Y, U, V.
pub fn bgra_pixel_to_yuv_limited(b: u8, g: u8, r: u8) -> (yuv: (u8, u8, u8))
    ensures
        yuv.0 == limited_range_y(b as int, g as int, r as int),
        yuv.1 == limited_range_u(b as int, g as int, r as int),
        yuv.2 == limited_range_v(b as int, g as int, r as int),
{
    let b = b as i32;
    let g = g as i32;
    let r = r as i32;
    let y = (66 * r + 129 * g + 25 * b + 128) / 256 + 16;
    let u_num = 112 * b - 38 * r - 74 * g + 128;
    let v_num = 112 * r - 94 * g - 18 * b + 128;
    // The biased quotient equals the arithmetic shift plus the 128 offset.
    let u = (u_num + 32768) / 256;
    let v = (v_num + 32768) / 256;
    proof {
        lemma_biased_shift(u_num as int);
        lemma_biased_shift(v_num as int);
    }
    (clamp_to_byte(y), clamp_to_byte(u), clamp_to_byte(v))
}

/// Convert BGRA to YUV420 (I420, BT.601 limited range) into an encoder-sized
/// buffer: the Y plane is `enc_w × enc_h`, followed by U and V planes of
/// `enc_w/2 × enc_h/2`. Only the visible `src_w × src_h` area is written: every
/// pixel sets its luma, and every pixel at an even row and column sets the
/// chroma of its 2×2 block. Pixels whose bytes lie past the end of `bgra` are
/// skipped. Everything else is left as it was.
pub fn bgra_to_yuv420_padded(
    bgra: &[u8],
    src_w: u32,
    src_h: u32,
    stride: usize,
    enc_w: u32,
    enc_h: u32,
    yuv: &mut [u8],
)
    requires
        src_w <= enc_w,
        src_h <= enc_h,
        (src_w + 1) / 2 <= enc_w / 2,
        (src_h + 1) / 2 <= enc_h / 2,
        old(yuv)@.len() >= enc_w * enc_h + 2 * ((enc_w / 2) * (enc_h / 2)),
        src_w == 0 || src_h == 0 || (src_h - 1) * stride + (src_w - 1) * 4 + 2 <= usize::MAX,
    ensures
        final(yuv)@.len() == old(yuv)@.len(),
        i420_converted(
            final(yuv)@,
            old(yuv)@,
            bgra@,
            enc_w as int,
            (enc_w / 2) as int,
            stride as int,
            src_h as int,
            src_w as int,
            enc_w * enc_h,
            (enc_w / 2) * (enc_h / 2),
        ),
{
    let ew = enc_w as usize;
    let sw = src_w as usize;
    let sh = src_h as usize;
    let yuv_len = yuv.len();
    let bgra_len = bgra.len();
    proof {
        lemma_mul_le((enc_w / 2) as int, (enc_h / 2) as int, enc_w as int, enc_h as int);
    }
    let y_plane_size = ew * enc_h as usize;
    let uv_w = ew / 2;
    let uv_plane_size = uv_w * (enc_h as usize / 2);
    let v_start = y_plane_size + uv_plane_size;
    let ghost ewi = ew as int;
    let ghost uvwi = uv_w as int;
    let ghost si = stride as int;
    let ghost bl = bgra@.len() as int;

    let mut row: usize = 0;
    while row < sh
        invariant
            ew == enc_w,
            sw == src_w,
            sh == src_h,
            ewi == ew,
            uvwi == uv_w,
            si == stride,
            bl == bgra@.len(),
            bgra_len == bgra@.len(),
            yuv_len == yuv@.len(),
            y_plane_size == enc_w * enc_h,
            uv_w == enc_w / 2,
            uv_plane_size == (enc_w / 2) * (enc_h / 2),
            v_start == y_plane_size + uv_plane_size,
            src_w <= enc_w,
            src_h <= enc_h,
            (src_w + 1) / 2 <= enc_w / 2,
            (src_h + 1) / 2 <= enc_h / 2,
            yuv@.len() == old(yuv)@.len(),
            yuv@.len() >= v_start + uv_plane_size,
            src_w == 0 || src_h == 0 || (src_h - 1) * stride + (src_w - 1) * 4 + 2 <= usize::MAX,
            row <= sh,
            i420_progress(yuv@, old(yuv)@, bgra@, ewi, uvwi, si, sh as int, sw as int,
                y_plane_size as int, uv_plane_size as int, row as int, 0),
        decreases sh - row,
    {
        let mut col: usize = 0;
        while col < sw
            invariant
                ew == enc_w,
                sw == src_w,
                sh == src_h,
                ewi == ew,
                uvwi == uv_w,
                si == stride,
                bl == bgra@.len(),
                bgra_len == bgra@.len(),
                yuv_len == yuv@.len(),
                y_plane_size == enc_w * enc_h,
                uv_w == enc_w / 2,
                uv_plane_size == (enc_w / 2) * (enc_h / 2),
                v_start == y_plane_size + uv_plane_size,
                src_w <= enc_w,
                src_h <= enc_h,
                (src_w + 1) / 2 <= enc_w / 2,
                (src_h + 1) / 2 <= enc_h / 2,
                yuv@.len() == old(yuv)@.len(),
                yuv@.len() >= v_start + uv_plane_size,
                src_w == 0 || (src_h - 1) * stride + (src_w - 1) * 4 + 2 <= usize::MAX,
                row < sh,
                col <= sw,
                i420_progress(yuv@, old(yuv)@, bgra@, ewi, uvwi, si, sh as int, sw as int,
                    y_plane_size as int, uv_plane_size as int, row as int, col as int),
            decreases sw - col,
        {
            proof {
                lemma_mul_le(row as int, stride as int, (sh - 1) as int, stride as int);
            }
            let bgra_offset = row * stride + col * 4;
            if bgra_offset + 2 >= bgra.len() {
                proof {
                    lemma_i420_skip(yuv@, old(yuv)@, bgra@, ewi, uvwi, si, sh as int, sw as int,
                        y_plane_size as int, uv_plane_size as int, row as int, col as int);
                }
                col = col + 1;
                continue;
            }
            let b = bgra[bgra_offset];
            let g = bgra[bgra_offset + 1];
            let r = bgra[bgra_offset + 2];
            let (y, u, v) = bgra_pixel_to_yuv_limited(b, g, r);

            let ghost prev = yuv@;
            proof {
                lemma_row_major_bound(row as int, col as int, ewi, enc_h as int);
            }
            yuv[row * ew + col] = y;

            if row % 2 == 0 && col % 2 == 0 {
                proof {
                    lemma_row_major_bound((row / 2) as int, (col / 2) as int, uvwi, (enc_h / 2) as int);
                    vstd::arithmetic::mul::lemma_mul_is_commutative(uvwi, (enc_h / 2) as int);
                }
                let uv_idx = (row / 2) * uv_w + (col / 2);
                yuv[y_plane_size + uv_idx] = u;
                yuv[v_start + uv_idx] = v;
            }
            proof {
                lemma_i420_write(prev, yuv@, old(yuv)@, bgra@, ewi, uvwi, si, sh as int, sw as int,
                    y_plane_size as int, uv_plane_size as int, row as int, col as int);
            }
            col = col + 1;
        }
        proof {
            assert(y_plane_size > 0 ==> ewi > 0) by (nonlinear_arith)
                requires y_plane_size == ewi * enc_h, ewi >= 0, enc_h >= 0;
            assert(uv_plane_size > 0 ==> uvwi > 0) by (nonlinear_arith)
                requires uv_plane_size == uvwi * (enc_h / 2), uvwi >= 0, enc_h / 2 >= 0;
            lemma_i420_next_row(yuv@, old(yuv)@, bgra@, ewi, uvwi, si, sh as int, sw as int,
                y_plane_size as int, uv_plane_size as int, row as int);
        }
        row = row + 1;
    }
    proof {
        lemma_i420_done(yuv@, old(yuv)@, bgra@, ewi, uvwi, si, sh as int, sw as int,
            y_plane_size as int, uv_plane_size as int);
    }
}

/// The I420 buffer `cur` after converting the visible `sw × sh` area of `bgra`
/// into `orig`: luma plane of `ysz` bytes with rows `ew` wide, followed by the U
/// and V planes of `uvsz` bytes each with rows `uvw` wide. Positions the
/// conversion does not reach keep their value from `orig`.
pub open spec fn i420_converted(
    cur: Seq<u8>, orig: Seq<u8>, bgra: Seq<u8>, ew: int, uvw: int, si: int, sh: int, sw: int,
    ysz: int, uvsz: int,
) -> bool {
    &&& forall|k: int| 0 <= k < ysz ==> #[trigger] cur[k] == if k / ew < sh && k % ew <= sw - 1
            && pixel_present(bgra.len() as int, si, k / ew, k % ew) {
            pixel_ly(bgra, si, k / ew, k % ew)
        } else {
            orig[k]
        }
    &&& forall|m: int| 0 <= m < uvsz ==> #[trigger] cur[ysz + m] == if 2 * (m / uvw) < sh && 2 * (m % uvw) < sw
            && pixel_present(bgra.len() as int, si, 2 * (m / uvw), 2 * (m % uvw)) {
            pixel_lu(bgra, si, 2 * (m / uvw), 2 * (m % uvw))
        } else {
            orig[ysz + m]
        }
    &&& forall|m: int| 0 <= m < uvsz ==> #[trigger] cur[ysz + uvsz + m] == if 2 * (m / uvw) < sh && 2 * (m % uvw) < sw
            && pixel_present(bgra.len() as int, si, 2 * (m / uvw), 2 * (m % uvw)) {
            pixel_lv(bgra, si, 2 * (m / uvw), 2 * (m % uvw))
        } else {
            orig[ysz + uvsz + m]
        }
    &&& forall|k: int| ysz + 2 * uvsz <= k < cur.len() ==> #[trigger] cur[k] == orig[k]
}

/// Luma of plane position `k` after the pixels before `(row, col)` have been converted.
pub open spec fn i420_luma_at(
    cur: Seq<u8>, orig: Seq<u8>, bgra: Seq<u8>, ew: int, si: int, sh: int, sw: int,
    row: int, col: int, k: int,
) -> bool {
    cur[k] == if k / ew < sh && k % ew <= sw - 1 && before(k / ew, k % ew, row, col)
        && pixel_present(bgra.len() as int, si, k / ew, k % ew) {
        pixel_ly(bgra, si, k / ew, k % ew)
    } else {
        orig[k]
    }
}

/// Chroma at chroma position `m` of the plane starting at `base` (U when `is_v`
/// is false, V otherwise) after the pixels before `(row, col)` have been converted.
pub open spec fn i420_chroma_at(
    cur: Seq<u8>, orig: Seq<u8>, bgra: Seq<u8>, uvw: int, si: int, sh: int, sw: int,
    base: int, is_v: bool, row: int, col: int, m: int,
) -> bool {
    cur[base + m] == if 2 * (m / uvw) < sh && 2 * (m % uvw) < sw && before(2 * (m / uvw), 2 * (m % uvw), row, col)
        && pixel_present(bgra.len() as int, si, 2 * (m / uvw), 2 * (m % uvw)) {
        if is_v {
            pixel_lv(bgra, si, 2 * (m / uvw), 2 * (m % uvw))
        } else {
            pixel_lu(bgra, si, 2 * (m / uvw), 2 * (m % uvw))
        }
    } else {
        orig[base + m]
    }
}

/// The I420 buffer after the pixels before `(row, col)` have been converted.
pub open spec fn i420_progress(
    cur: Seq<u8>, orig: Seq<u8>, bgra: Seq<u8>, ew: int, uvw: int, si: int, sh: int, sw: int,
    ysz: int, uvsz: int, row: int, col: int,
) -> bool {
    &&& forall|k: int| 0 <= k < ysz ==> #[trigger] i420_luma_at(cur, orig, bgra, ew, si, sh, sw, row, col, k)
    &&& forall|m: int| 0 <= m < uvsz ==> #[trigger] i420_chroma_at(cur, orig, bgra, uvw, si, sh, sw, ysz, false, row, col, m)
    &&& forall|m: int| 0 <= m < uvsz ==> #[trigger] i420_chroma_at(cur, orig, bgra, uvw, si, sh, sw, ysz + uvsz, true, row, col, m)
    &&& forall|k: int| ysz + 2 * uvsz <= k < cur.len() ==> #[trigger] cur[k] == orig[k]
}

proof fn lemma_i420_skip(
    cur: Seq<u8>, orig: Seq<u8>, bgra: Seq<u8>, ew: int, uvw: int, si: int, sh: int, sw: int,
    ysz: int, uvsz: int, row: int, col: int,
)
    requires
        ew > 0,
        0 <= row < sh,
        0 <= col < sw,
        !pixel_present(bgra.len() as int, si, row, col),
        i420_progress(cur, orig, bgra, ew, uvw, si, sh, sw, ysz, uvsz, row, col),
    ensures
        i420_progress(cur, orig, bgra, ew, uvw, si, sh, sw, ysz, uvsz, row, col + 1),
{
    assert forall|k: int| 0 <= k < ysz implies #[trigger] i420_luma_at(cur, orig, bgra, ew, si, sh, sw, row, col + 1, k) by {
        assert(i420_luma_at(cur, orig, bgra, ew, si, sh, sw, row, col, k));
    }
    assert forall|m: int| 0 <= m < uvsz implies #[trigger] i420_chroma_at(cur, orig, bgra, uvw, si, sh, sw, ysz, false, row, col + 1, m) by {
        assert(i420_chroma_at(cur, orig, bgra, uvw, si, sh, sw, ysz, false, row, col, m));
    }
    assert forall|m: int| 0 <= m < uvsz implies #[trigger] i420_chroma_at(cur, orig, bgra, uvw, si, sh, sw, ysz + uvsz, true, row, col + 1, m) by {
        assert(i420_chroma_at(cur, orig, bgra, uvw, si, sh, sw, ysz + uvsz, true, row, col, m));
    }
}

proof fn lemma_i420_write(
    prev: Seq<u8>, cur: Seq<u8>, orig: Seq<u8>, bgra: Seq<u8>, ew: int, uvw: int, si: int, sh: int, sw: int,
    ysz: int, uvsz: int, row: int, col: int,
)
    requires
        ew > 0,
        0 <= row < sh,
        0 <= col < sw,
        sw <= ew,
        (sw + 1) / 2 <= uvw,
        ysz >= 0,
        uvsz >= 0,
        pixel_present(bgra.len() as int, si, row, col),
        row * ew + col < ysz,
        prev.len() == cur.len(),
        cur.len() >= ysz + 2 * uvsz,
        i420_progress(prev, orig, bgra, ew, uvw, si, sh, sw, ysz, uvsz, row, col),
        cur[row * ew + col] == pixel_ly(bgra, si, row, col),
        row % 2 == 0 && col % 2 == 0 ==> {
            &&& (row / 2) * uvw + col / 2 < uvsz
            &&& cur[ysz + (row / 2) * uvw + col / 2] == pixel_lu(bgra, si, row, col)
            &&& cur[ysz + uvsz + (row / 2) * uvw + col / 2] == pixel_lv(bgra, si, row, col)
            &&& forall|j: int| 0 <= j < cur.len() && j != row * ew + col && j != ysz + (row / 2) * uvw + col / 2
                && j != ysz + uvsz + (row / 2) * uvw + col / 2 ==> cur[j] == prev[j]
        },
        !(row % 2 == 0 && col % 2 == 0) ==> forall|j: int| 0 <= j < cur.len() && j != row * ew + col ==> cur[j] == prev[j],
    ensures
        i420_progress(cur, orig, bgra, ew, uvw, si, sh, sw, ysz, uvsz, row, col + 1),
{
    let yi = row * ew + col;
    lemma_row_major_split(row, col, ew);
    assert forall|k: int| 0 <= k < ysz implies #[trigger] i420_luma_at(cur, orig, bgra, ew, si, sh, sw, row, col + 1, k) by {
        assert(i420_luma_at(prev, orig, bgra, ew, si, sh, sw, row, col, k));
        if k != yi {
            vstd::arithmetic::div_mod::lemma_fundamental_div_mod(k, ew);
            vstd::arithmetic::mul::lemma_mul_is_commutative(ew, k / ew);
            if k / ew == row && k % ew == col {
                assert(k == row * ew + col);
            }
            if row % 2 == 0 && col % 2 == 0 {
                assert(k != ysz + (row / 2) * uvw + col / 2);
                assert(k != ysz + uvsz + (row / 2) * uvw + col / 2);
            }
        }
    }
    if row % 2 == 0 && col % 2 == 0 {
        lemma_row_major_split(row / 2, col / 2, uvw);
        assert(2 * (row / 2) == row && 2 * (col / 2) == col);
    }
    assert forall|m: int| 0 <= m < uvsz implies #[trigger] i420_chroma_at(cur, orig, bgra, uvw, si, sh, sw, ysz, false, row, col + 1, m) by {
        assert(i420_chroma_at(prev, orig, bgra, uvw, si, sh, sw, ysz, false, row, col, m));
        vstd::arithmetic::div_mod::lemma_fundamental_div_mod(m, uvw);
        vstd::arithmetic::mul::lemma_mul_is_commutative(uvw, m / uvw);
        if row % 2 == 0 && col % 2 == 0 {
            if m != (row / 2) * uvw + col / 2 {
                if 2 * (m / uvw) == row && 2 * (m % uvw) == col {
                    assert(m == (row / 2) * uvw + col / 2);
                }
            }
        } else {
            assert(!(2 * (m / uvw) == row && 2 * (m % uvw) == col));
        }
    }
    assert forall|m: int| 0 <= m < uvsz implies #[trigger] i420_chroma_at(cur, orig, bgra, uvw, si, sh, sw, ysz + uvsz, true, row, col + 1, m) by {
        assert(i420_chroma_at(prev, orig, bgra, uvw, si, sh, sw, ysz + uvsz, true, row, col, m));
        vstd::arithmetic::div_mod::lemma_fundamental_div_mod(m, uvw);
        vstd::arithmetic::mul::lemma_mul_is_commutative(uvw, m / uvw);
        if row % 2 == 0 && col % 2 == 0 {
            if m != (row / 2) * uvw + col / 2 {
                if 2 * (m / uvw) == row && 2 * (m % uvw) == col {
                    assert(m == (row / 2) * uvw + col / 2);
                }
            }
        } else {
            assert(!(2 * (m / uvw) == row && 2 * (m % uvw) == col));
        }
    }
}

proof fn lemma_i420_next_row(
    cur: Seq<u8>, orig: Seq<u8>, bgra: Seq<u8>, ew: int, uvw: int, si: int, sh: int, sw: int,
    ysz: int, uvsz: int, row: int,
)
    requires
        ysz > 0 ==> ew > 0,
        uvsz > 0 ==> uvw > 0,
        i420_progress(cur, orig, bgra, ew, uvw, si, sh, sw, ysz, uvsz, row, sw),
    ensures
        i420_progress(cur, orig, bgra, ew, uvw, si, sh, sw, ysz, uvsz, row + 1, 0),
{
    assert forall|k: int| 0 <= k < ysz implies #[trigger] i420_luma_at(cur, orig, bgra, ew, si, sh, sw, row + 1, 0, k) by {
        assert(i420_luma_at(cur, orig, bgra, ew, si, sh, sw, row, sw, k));
        let r = k / ew;
        let c = k % ew;
        assert(c <= sw - 1 ==> (before(r, c, row, sw) == before(r, c, row + 1, 0)));
    }
    assert forall|m: int| 0 <= m < uvsz implies #[trigger] i420_chroma_at(cur, orig, bgra, uvw, si, sh, sw, ysz, false, row + 1, 0, m) by {
        assert(i420_chroma_at(cur, orig, bgra, uvw, si, sh, sw, ysz, false, row, sw, m));
        let r = 2 * (m / uvw);
        let c = 2 * (m % uvw);
        assert(c < sw ==> (before(r, c, row, sw) == before(r, c, row + 1, 0)));
    }
    assert forall|m: int| 0 <= m < uvsz implies #[trigger] i420_chroma_at(cur, orig, bgra, uvw, si, sh, sw, ysz + uvsz, true, row + 1, 0, m) by {
        assert(i420_chroma_at(cur, orig, bgra, uvw, si, sh, sw, ysz + uvsz, true, row, sw, m));
        let r = 2 * (m / uvw);
        let c = 2 * (m % uvw);
        assert(c < sw ==> (before(r, c, row, sw) == before(r, c, row + 1, 0)));
    }
}

proof fn lemma_i420_done(
    cur: Seq<u8>, orig: Seq<u8>, bgra: Seq<u8>, ew: int, uvw: int, si: int, sh: int, sw: int,
    ysz: int, uvsz: int,
)
    requires
        ew > 0 || ysz == 0,
        uvw > 0 || uvsz == 0,
        i420_progress(cur, orig, bgra, ew, uvw, si, sh, sw, ysz, uvsz, sh, 0),
    ensures
        i420_converted(cur, orig, bgra, ew, uvw, si, sh, sw, ysz, uvsz),
{
    assert forall|k: int| 0 <= k < ysz implies #[trigger] cur[k] == if k / ew < sh && k % ew <= sw - 1
        && pixel_present(bgra.len() as int, si, k / ew, k % ew) {
        pixel_ly(bgra, si, k / ew, k % ew)
    } else {
        orig[k]
    } by {
        assert(i420_luma_at(cur, orig, bgra, ew, si, sh, sw, sh, 0, k));
    }
    assert forall|m: int| 0 <= m < uvsz implies #[trigger] cur[ysz + m] == if 2 * (m / uvw) < sh && 2 * (m % uvw) < sw
        && pixel_present(bgra.len() as int, si, 2 * (m / uvw), 2 * (m % uvw)) {
        pixel_lu(bgra, si, 2 * (m / uvw), 2 * (m % uvw))
    } else {
        orig[ysz + m]
    } by {
        assert(i420_chroma_at(cur, orig, bgra, uvw, si, sh, sw, ysz, false, sh, 0, m));
    }
    assert forall|m: int| 0 <= m < uvsz implies #[trigger] cur[ysz + uvsz + m] == if 2 * (m / uvw) < sh && 2 * (m % uvw) < sw
        && pixel_present(bgra.len() as int, si, 2 * (m / uvw), 2 * (m % uvw)) {
        pixel_lv(bgra, si, 2 * (m / uvw), 2 * (m % uvw))
    } else {
        orig[ysz + uvsz + m]
    } by {
        assert(i420_chroma_at(cur, orig, bgra, uvw, si, sh, sw, ysz + uvsz, true, sh, 0, m));
    }
}


/// `dst` after copying `rows` rows of `cols` bytes, packed back to back in `src`
/// from `src_start`, into rows `pitch` bytes apart in `dst` from `dst_start`.
pub open spec fn rows_copied(
    dst: Seq<u8>,
    src: Seq<u8>,
    src_start: int,
    cols: int,
    rows: int,
    dst_start: int,
    pitch: int,
) -> Seq<u8> {
    Seq::new(
        dst.len(),
        |j: int|
            if pitch > 0 && dst_start <= j && (j - dst_start) / pitch < rows && (j - dst_start) % pitch
                < cols {
                src[src_start + ((j - dst_start) / pitch) * cols + (j - dst_start) % pitch]
            } else {
                dst[j]
            },
    )
}

/// Copy `rows` packed rows of `cols` bytes into rows `pitch` bytes apart.
pub fn copy_plane_rows(
    src: &[u8],
    src_start: usize,
    cols: usize,
    rows: usize,
    dst: &mut [u8],
    dst_start: usize,
    pitch: usize,
)
    requires
        cols <= pitch,
        src_start + rows * cols <= src@.len(),
        rows == 0 || dst_start + (rows - 1) * pitch + cols <= old(dst)@.len(),
    ensures
        final(dst)@ == rows_copied(
            old(dst)@,
            src@,
            src_start as int,
            cols as int,
            rows as int,
            dst_start as int,
            pitch as int,
        ),
{
    let ghost pi = pitch as int;
    let ghost ci = cols as int;
    let dst_len = dst.len();
    let src_len = src.len();
    proof {
        assert forall|j: int| 0 <= j < dst@.len() implies #[trigger] dst@[j] == rows_copied(
            old(dst)@,
            src@,
            src_start as int,
            ci,
            0,
            dst_start as int,
            pi,
        )[j] by {
            if pi > 0 && dst_start <= j {
                vstd::arithmetic::div_mod::lemma_div_pos_is_pos(j - dst_start, pi);
            }
        }
        assert(dst@ =~= rows_copied(old(dst)@, src@, src_start as int, ci, 0, dst_start as int, pi));
    }
    let mut row: usize = 0;
    while row < rows
        invariant
            pi == pitch,
            ci == cols,
            dst_len == dst@.len(),
            src_len == src@.len(),
            cols <= pitch,
            src_start + rows * cols <= src@.len(),
            rows == 0 || dst_start + (rows - 1) * pitch + cols <= dst@.len(),
            dst@.len() == old(dst)@.len(),
            row <= rows,
            dst@ == rows_copied(old(dst)@, src@, src_start as int, ci, row as int, dst_start as int, pi),
        decreases rows - row,
    {
        proof {
            lemma_row_start_le(row as int, ci, rows as int);
            lemma_row_start_le(row as int, pi, rows as int);
        }
        let input = src_start + row * cols;
        let output = dst_start + row * pitch;
        let ghost prev = dst@;
        copy_span(dst, output, src, input, cols);
        proof {
            assert forall|j: int| 0 <= j < dst@.len() implies #[trigger] dst@[j] == rows_copied(
                old(dst)@,
                src@,
                src_start as int,
                ci,
                row + 1,
                dst_start as int,
                pi,
            )[j] by {
                if dst_start <= j && pi > 0 {
                    let q = (j - dst_start) / pi;
                    let r = (j - dst_start) % pi;
                    vstd::arithmetic::div_mod::lemma_fundamental_div_mod(j - dst_start, pi);
                    vstd::arithmetic::div_mod::lemma_mod_bound(j - dst_start, pi);
                    vstd::arithmetic::mul::lemma_mul_is_commutative(pi, q);
                    if output <= j < output + cols {
                        lemma_row_major_split(row as int, j - output, pi);
                    } else if q == row {
                        assert(j == output + r);
                    }
                }
            }
            assert(dst@ =~= rows_copied(old(dst)@, src@, src_start as int, ci, row + 1, dst_start as int, pi));
        }
        row = row + 1;
    }
}

/// Copy only visible I420 pixels, retaining the neutral macroblock border: the
/// packed `width × height` I420 image in `src` is copied plane by plane into
/// the `enc_w × enc_h` I420 layout of `dst`.
pub fn copy_i420_padded(src: &[u8], width: usize, height: usize, dst: &mut [u8], enc_w: usize, enc_h: usize)
    requires
        width <= enc_w,
        width * height * 5 <= usize::MAX,
        enc_w * enc_h * 5 <= usize::MAX,
        width * height + 2 * ((width / 2) * (height / 2)) <= src@.len(),
        (width * height * 5) / 4 + (width / 2) * (height / 2) <= src@.len(),
        height == 0 || (height - 1) * enc_w + width <= old(dst)@.len(),
        height / 2 == 0 || enc_w * enc_h + (height / 2 - 1) * (enc_w / 2) + width / 2 <= old(dst)@.len(),
        height / 2 == 0 || (enc_w * enc_h * 5) / 4 + (height / 2 - 1) * (enc_w / 2) + width / 2
            <= old(dst)@.len(),
    ensures
        final(dst)@ == rows_copied(
            rows_copied(
                rows_copied(old(dst)@, src@, 0, width as int, height as int, 0, enc_w as int),
                src@,
                width * height,
                (width / 2) as int,
                (height / 2) as int,
                enc_w * enc_h,
                (enc_w / 2) as int,
            ),
            src@,
            (width * height * 5) / 4,
            (width / 2) as int,
            (height / 2) as int,
            (enc_w * enc_h * 5) / 4,
            (enc_w / 2) as int,
        ),
{
    proof {
        lemma_mul_le(width as int, height as int, width as int, height as int);
        lemma_mul_le((width / 2) as int, (height / 2) as int, width as int, height as int);
    }
    let src_y = width * height;
    let dst_y = enc_w * enc_h;
    proof {
        vstd::arithmetic::mul::lemma_mul_is_commutative((width / 2) as int, (height / 2) as int);
    }
    copy_plane_rows(src, 0, width, height, dst, 0, enc_w);
    copy_plane_rows(src, src_y, width / 2, height / 2, dst, dst_y, enc_w / 2);
    copy_plane_rows(src, src_y * 5 / 4, width / 2, height / 2, dst, dst_y * 5 / 4, enc_w / 2);
}

/// Reset an encoder-sized I420 buffer before conversion: luma bytes
/// `0..width*height` to 0 and every byte after them to 128.
pub fn reset_i420(buf: &mut [u8], width: u32, height: u32)
    requires
        width * height <= u32::MAX,
        width * height + (width / 2 * height) / 2 <= old(buf)@.len(),
    ensures
        final(buf)@.len() == old(buf)@.len(),
        forall|k: int|
            0 <= k < old(buf)@.len() ==> #[trigger] final(buf)@[k] == if k < width * height {
                0u8
            } else {
                128u8
            },
{
    proof {
        lemma_mul_le((width / 2) as int, height as int, width as int, height as int);
    }
    let y_size = (width * height) as usize;
    let uv_size = (width / 2 * height / 2) as usize;
    let len = buf.len();
    fill_span(buf, 0, y_size, 0);
    fill_span(buf, y_size, uv_size, 128);
    fill_span(buf, y_size + uv_size, len - (y_size + uv_size), 128);
}


/// The smaller of two dimensions.
pub open spec fn min_u32(a: u32, b: u32) -> u32 {
    if a < b {
        a
    } else {
        b
    }
}

/// Channel `ch` (0 = B, 1 = G, 2 = R) of the pixel at `row`, `col`.
pub open spec fn channel(bgra: Seq<u8>, stride: int, row: int, col: int, ch: int) -> int {
    bgra[bgra_offset(stride, row, col) + ch] as int
}

/// Channel `ch` averaged (rounded down) over the 2×2 block whose top-left
/// pixel is at row `2 pr`, column `2 pc`.
pub open spec fn block_channel(bgra: Seq<u8>, stride: int, pr: int, pc: int, ch: int) -> int {
    (channel(bgra, stride, 2 * pr, 2 * pc, ch) + channel(bgra, stride, 2 * pr, 2 * pc + 1, ch)
        + channel(bgra, stride, 2 * pr + 1, 2 * pc, ch) + channel(bgra, stride, 2 * pr + 1, 2 * pc + 1, ch)) / 4
}

/// Full-range U of the averaged 2×2 block at `pr`, `pc`.
pub open spec fn block_u(bgra: Seq<u8>, stride: int, pr: int, pc: int) -> u8 {
    full_range_u(
        block_channel(bgra, stride, pr, pc, 0),
        block_channel(bgra, stride, pr, pc, 1),
        block_channel(bgra, stride, pr, pc, 2),
    )
}

/// Full-range V of the averaged 2×2 block at `pr`, `pc`.
pub open spec fn block_v(bgra: Seq<u8>, stride: int, pr: int, pc: int) -> u8 {
    full_range_v(
        block_channel(bgra, stride, pr, pc, 0),
        block_channel(bgra, stride, pr, pc, 1),
        block_channel(bgra, stride, pr, pc, 2),
    )
}

/// NV12 luma at plane position `k` (rows `ybpr` apart) after the 2×2 blocks
/// before `(pr, pc)` of an `nr × nc` block grid have been converted.
pub open spec fn nv12_luma_at(
    cur: Seq<u8>, orig: Seq<u8>, bgra: Seq<u8>, stride: int, ybpr: int, nr: int, nc: int,
    pr: int, pc: int, k: int,
) -> bool {
    cur[k] == if ybpr > 0 && (k / ybpr) / 2 < nr && (k % ybpr) / 2 < nc && before(
        (k / ybpr) / 2,
        (k % ybpr) / 2,
        pr,
        pc,
    ) {
        pixel_y(bgra, stride, k / ybpr, k % ybpr)
    } else {
        orig[k]
    }
}

/// NV12 interleaved chroma at position `m` (rows `uvbpr` apart) after the 2×2
/// blocks before `(pr, pc)` have been converted: even bytes hold U, odd bytes V.
pub open spec fn nv12_chroma_at(
    cur: Seq<u8>, orig: Seq<u8>, bgra: Seq<u8>, stride: int, uvbpr: int, nr: int, nc: int,
    pr: int, pc: int, m: int,
) -> bool {
    cur[m] == if uvbpr > 0 && m / uvbpr < nr && (m % uvbpr) / 2 < nc && before(
        m / uvbpr,
        (m % uvbpr) / 2,
        pr,
        pc,
    ) {
        if (m % uvbpr) % 2 == 0 {
            block_u(bgra, stride, m / uvbpr, (m % uvbpr) / 2)
        } else {
            block_v(bgra, stride, m / uvbpr, (m % uvbpr) / 2)
        }
    } else {
        orig[m]
    }
}

/// Convert the visible area of a BGRA frame to NV12 full range in one pass
/// over 2×2 blocks: each block writes its four luma samples and one
/// interleaved U, V pair computed from its averaged color. Only whole blocks
/// of the `min(src, enc)` area are converted; other plane bytes keep their value.
pub fn bgra_to_nv12_planes(
    data: &[u8],
    src_w: u32,
    src_h: u32,
    stride: usize,
    enc_w: u32,
    enc_h: u32,
    y_plane: &mut [u8],
    y_bpr: usize,
    uv_plane: &mut [u8],
    uv_bpr: usize,
)
    requires
        bgra_covers(data@.len() as int, min_u32(src_w, enc_w) as int, min_u32(src_h, enc_h) as int, stride as int),
        y_bpr >= 2 * (min_u32(src_w, enc_w) / 2),
        uv_bpr >= 2 * (min_u32(src_w, enc_w) / 2),
        old(y_plane)@.len() >= y_bpr * (2 * (min_u32(src_h, enc_h) / 2)),
        old(uv_plane)@.len() >= uv_bpr * (min_u32(src_h, enc_h) / 2),
    ensures
        final(y_plane)@.len() == old(y_plane)@.len(),
        final(uv_plane)@.len() == old(uv_plane)@.len(),
        forall|k: int| 0 <= k < final(y_plane)@.len() ==> #[trigger] nv12_luma_at(
            final(y_plane)@, old(y_plane)@, data@, stride as int, y_bpr as int,
            (min_u32(src_h, enc_h) / 2) as int, (min_u32(src_w, enc_w) / 2) as int,
            (min_u32(src_h, enc_h) / 2) as int, 0, k),
        forall|m: int| 0 <= m < final(uv_plane)@.len() ==> #[trigger] nv12_chroma_at(
            final(uv_plane)@, old(uv_plane)@, data@, stride as int, uv_bpr as int,
            (min_u32(src_h, enc_h) / 2) as int, (min_u32(src_w, enc_w) / 2) as int,
            (min_u32(src_h, enc_h) / 2) as int, 0, m),
{
    let sw = (if src_w < enc_w { src_w } else { enc_w }) as usize;
    let sh = (if src_h < enc_h { src_h } else { enc_h }) as usize;
    let uv_w = sw / 2;
    let n_pr = sh / 2;
    let ghost si = stride as int;
    let ghost yb = y_bpr as int;
    let ghost ub = uv_bpr as int;
    let data_len = data.len();
    let y_len = y_plane.len();
    let uv_len = uv_plane.len();

    let mut pr: usize = 0;
    while pr < n_pr
        invariant
            sw == min_u32(src_w, enc_w),
            sh == min_u32(src_h, enc_h),
            uv_w == sw / 2,
            n_pr == sh / 2,
            si == stride,
            yb == y_bpr,
            ub == uv_bpr,
            data_len == data@.len(),
            y_len == y_plane@.len(),
            uv_len == uv_plane@.len(),
            bgra_covers(data@.len() as int, sw as int, sh as int, stride as int),
            y_bpr >= 2 * uv_w,
            uv_bpr >= 2 * uv_w,
            y_plane@.len() == old(y_plane)@.len(),
            uv_plane@.len() == old(uv_plane)@.len(),
            y_plane@.len() >= y_bpr * (2 * n_pr),
            uv_plane@.len() >= uv_bpr * n_pr,
            pr <= n_pr,
            forall|k: int| 0 <= k < y_plane@.len() ==> #[trigger] nv12_luma_at(
                y_plane@, old(y_plane)@, data@, si, yb, n_pr as int, uv_w as int, pr as int, 0, k),
            forall|m: int| 0 <= m < uv_plane@.len() ==> #[trigger] nv12_chroma_at(
                uv_plane@, old(uv_plane)@, data@, si, ub, n_pr as int, uv_w as int, pr as int, 0, m),
        decreases n_pr - pr,
    {
        let r0 = pr * 2;
        let r1 = r0 + 1;
        proof {
            lemma_row_start_le(r1 as int, si, sh as int);
            lemma_row_start_le(r0 as int, si, sh as int);
            lemma_row_start_le(r1 as int, yb, (2 * n_pr) as int);
            lemma_row_start_le(pr as int, ub, n_pr as int);
            vstd::arithmetic::mul::lemma_mul_is_commutative(yb, (2 * n_pr) as int);
            vstd::arithmetic::mul::lemma_mul_is_commutative(ub, n_pr as int);
            assert(r0 * y_bpr + y_bpr == r1 * y_bpr) by (nonlinear_arith)
                requires r1 == r0 + 1;
            lemma_mul_le(r0 as int, si, r1 as int, si);
        }
        let src_r0 = r0 * stride;
        let src_r1 = r1 * stride;
        let y_dst0 = r0 * y_bpr;
        let y_dst1 = r1 * y_bpr;
        let uv_dst = pr * uv_bpr;

        let mut col: usize = 0;
        while col < uv_w
            invariant
                sw == min_u32(src_w, enc_w),
                sh == min_u32(src_h, enc_h),
                uv_w == sw / 2,
                n_pr == sh / 2,
                si == stride,
                yb == y_bpr,
                ub == uv_bpr,
                data_len == data@.len(),
                y_len == y_plane@.len(),
                uv_len == uv_plane@.len(),
                bgra_covers(data@.len() as int, sw as int, sh as int, stride as int),
                y_bpr >= 2 * uv_w,
                uv_bpr >= 2 * uv_w,
                y_plane@.len() == old(y_plane)@.len(),
                uv_plane@.len() == old(uv_plane)@.len(),
                pr < n_pr,
                r0 == 2 * pr,
                r1 == r0 + 1,
                src_r0 == r0 * stride,
                src_r1 == r1 * stride,
                src_r1 <= (sh - 1) * stride,
                src_r0 <= src_r1,
                y_dst0 == r0 * y_bpr,
                y_dst1 == r1 * y_bpr,
                y_dst1 == y_dst0 + y_bpr,
                y_dst1 + y_bpr <= y_plane@.len(),
                uv_dst == pr * uv_bpr,
                uv_dst + uv_bpr <= uv_plane@.len(),
                col <= uv_w,
                forall|k: int| 0 <= k < y_plane@.len() ==> #[trigger] nv12_luma_at(
                    y_plane@, old(y_plane)@, data@, si, yb, n_pr as int, uv_w as int, pr as int, col as int, k),
                forall|m: int| 0 <= m < uv_plane@.len() ==> #[trigger] nv12_chroma_at(
                    uv_plane@, old(uv_plane)@, data@, si, ub, n_pr as int, uv_w as int, pr as int, col as int, m),
            decreases uv_w - col,
        {
            let c0 = col * 2;
            let c1 = c0 + 1;
            let (y00, y01, y10, y11, u, v) = convert_block(data, stride, pr, col, src_r0, src_r1);
            let ghost py = y_plane@;
            let ghost puv = uv_plane@;
            y_plane[y_dst0 + c0] = y00;
            y_plane[y_dst0 + c1] = y01;
            y_plane[y_dst1 + c0] = y10;
            y_plane[y_dst1 + c1] = y11;
            uv_plane[uv_dst + col * 2] = u;
            uv_plane[uv_dst + col * 2 + 1] = v;
            proof {
                lemma_nv12_block(py, y_plane@, puv, uv_plane@, old(y_plane)@, old(uv_plane)@, data@,
                    si, yb, ub, n_pr as int, uv_w as int, pr as int, col as int);
            }
            col = col + 1;
        }
        proof {
            lemma_nv12_next_row(y_plane@, uv_plane@, old(y_plane)@, old(uv_plane)@, data@,
                si, yb, ub, n_pr as int, uv_w as int, pr as int);
        }
        pr = pr + 1;
    }
}

/// Convert the 2×2 block whose top-left pixel is at row `2 pr`, column `2 pc`:
/// its four full-range luma samples and the U, V of its averaged color.
#[verifier::rlimit(40)]
fn convert_block(data: &[u8], stride: usize, pr: usize, pc: usize, src_r0: usize, src_r1: usize) -> (out: (
    u8,
    u8,
    u8,
    u8,
    u8,
    u8,
))
    requires
        src_r0 == (2 * pr) * stride,
        src_r1 == (2 * pr + 1) * stride,
        src_r1 + (2 * pc + 1) * 4 + 2 < data@.len(),
        src_r0 <= src_r1,
    ensures
        out.0 == pixel_y(data@, stride as int, 2 * pr as int, 2 * pc as int),
        out.1 == pixel_y(data@, stride as int, 2 * pr as int, 2 * pc + 1),
        out.2 == pixel_y(data@, stride as int, 2 * pr + 1, 2 * pc as int),
        out.3 == pixel_y(data@, stride as int, 2 * pr + 1, 2 * pc + 1),
        out.4 == block_u(data@, stride as int, pr as int, pc as int),
        out.5 == block_v(data@, stride as int, pr as int, pc as int),
{
    let _n = data.len();
    let c0 = pc * 2;
    let c1 = c0 + 1;
    let p00 = src_r0 + c0 * 4;
    let p01 = src_r0 + c1 * 4;
    let p10 = src_r1 + c0 * 4;
    let p11 = src_r1 + c1 * 4;

    assert(p00 == bgra_offset(stride as int, 2 * pr as int, 2 * pc as int));
    assert(p01 == bgra_offset(stride as int, 2 * pr as int, 2 * pc + 1));
    assert(p10 == bgra_offset(stride as int, 2 * pr + 1, 2 * pc as int));
    assert(p11 == bgra_offset(stride as int, 2 * pr + 1, 2 * pc + 1));
    let (b00, g00, r00) = (data[p00], data[p00 + 1], data[p00 + 2]);
    let (b01, g01, r01) = (data[p01], data[p01 + 1], data[p01 + 2]);
    let (b10, g10, r10) = (data[p10], data[p10 + 1], data[p10 + 2]);
    let (b11, g11, r11) = (data[p11], data[p11 + 1], data[p11 + 2]);

    let y00 = bgra_pixel_to_yuv_full(b00, g00, r00).0;
    let y01 = bgra_pixel_to_yuv_full(b01, g01, r01).0;
    let y10 = bgra_pixel_to_yuv_full(b10, g10, r10).0;
    let y11 = bgra_pixel_to_yuv_full(b11, g11, r11).0;

    let rb = (r00 as u32 + r01 as u32 + r10 as u32 + r11 as u32) / 4;
    let gb = (g00 as u32 + g01 as u32 + g10 as u32 + g11 as u32) / 4;
    let bb = (b00 as u32 + b01 as u32 + b10 as u32 + b11 as u32) / 4;
    let (_, u, v) = bgra_pixel_to_yuv_full(bb as u8, gb as u8, rb as u8);
    (y00, y01, y10, y11, u, v)
}

proof fn lemma_nv12_block(
    py: Seq<u8>, cy: Seq<u8>, puv: Seq<u8>, cuv: Seq<u8>, oy: Seq<u8>, ouv: Seq<u8>, bgra: Seq<u8>,
    si: int, yb: int, ub: int, nr: int, nc: int, pr: int, pc: int,
)
    requires
        0 <= pr < nr,
        0 <= pc < nc,
        yb >= 2 * nc,
        ub >= 2 * nc,
        py.len() == cy.len(),
        puv.len() == cuv.len(),
        (2 * pr + 1) * yb + yb <= cy.len(),
        pr * ub + ub <= cuv.len(),
        forall|k: int| 0 <= k < py.len() ==> #[trigger] nv12_luma_at(py, oy, bgra, si, yb, nr, nc, pr, pc, k),
        forall|m: int| 0 <= m < puv.len() ==> #[trigger] nv12_chroma_at(puv, ouv, bgra, si, ub, nr, nc, pr, pc, m),
        cy[(2 * pr) * yb + 2 * pc] == pixel_y(bgra, si, 2 * pr, 2 * pc),
        cy[(2 * pr) * yb + 2 * pc + 1] == pixel_y(bgra, si, 2 * pr, 2 * pc + 1),
        cy[(2 * pr + 1) * yb + 2 * pc] == pixel_y(bgra, si, 2 * pr + 1, 2 * pc),
        cy[(2 * pr + 1) * yb + 2 * pc + 1] == pixel_y(bgra, si, 2 * pr + 1, 2 * pc + 1),
        forall|k: int| 0 <= k < cy.len() && k != (2 * pr) * yb + 2 * pc && k != (2 * pr) * yb + 2 * pc + 1
            && k != (2 * pr + 1) * yb + 2 * pc && k != (2 * pr + 1) * yb + 2 * pc + 1 ==> cy[k] == py[k],
        cuv[pr * ub + 2 * pc] == block_u(bgra, si, pr, pc),
        cuv[pr * ub + 2 * pc + 1] == block_v(bgra, si, pr, pc),
        forall|m: int| 0 <= m < cuv.len() && m != pr * ub + 2 * pc && m != pr * ub + 2 * pc + 1 ==> cuv[m] == puv[m],
    ensures
        forall|k: int| 0 <= k < cy.len() ==> #[trigger] nv12_luma_at(cy, oy, bgra, si, yb, nr, nc, pr, pc + 1, k),
        forall|m: int| 0 <= m < cuv.len() ==> #[trigger] nv12_chroma_at(cuv, ouv, bgra, si, ub, nr, nc, pr, pc + 1, m),
{
    assert forall|k: int| 0 <= k < cy.len() implies #[trigger] nv12_luma_at(cy, oy, bgra, si, yb, nr, nc, pr, pc + 1, k) by {
        assert(nv12_luma_at(py, oy, bgra, si, yb, nr, nc, pr, pc, k));
        let r = k / yb;
        let c = k % yb;
        vstd::arithmetic::div_mod::lemma_fundamental_div_mod(k, yb);
        vstd::arithmetic::div_mod::lemma_mod_bound(k, yb);
        vstd::arithmetic::mul::lemma_mul_is_commutative(yb, r);
        if r / 2 == pr && c / 2 == pc {
            assert(r == 2 * pr || r == 2 * pr + 1);
            assert(c == 2 * pc || c == 2 * pc + 1);
        } else {
            assert(k != (2 * pr) * yb + 2 * pc) by {
                if k == (2 * pr) * yb + 2 * pc {
                    lemma_row_major_split(2 * pr, 2 * pc, yb);
                }
            }
            assert(k != (2 * pr) * yb + 2 * pc + 1) by {
                if k == (2 * pr) * yb + 2 * pc + 1 {
                    lemma_row_major_split(2 * pr, 2 * pc + 1, yb);
                }
            }
            assert(k != (2 * pr + 1) * yb + 2 * pc) by {
                if k == (2 * pr + 1) * yb + 2 * pc {
                    lemma_row_major_split(2 * pr + 1, 2 * pc, yb);
                }
            }
            assert(k != (2 * pr + 1) * yb + 2 * pc + 1) by {
                if k == (2 * pr + 1) * yb + 2 * pc + 1 {
                    lemma_row_major_split(2 * pr + 1, 2 * pc + 1, yb);
                }
            }
        }
    }
    assert forall|m: int| 0 <= m < cuv.len() implies #[trigger] nv12_chroma_at(cuv, ouv, bgra, si, ub, nr, nc, pr, pc + 1, m) by {
        assert(nv12_chroma_at(puv, ouv, bgra, si, ub, nr, nc, pr, pc, m));
        let r = m / ub;
        let c = m % ub;
        vstd::arithmetic::div_mod::lemma_fundamental_div_mod(m, ub);
        vstd::arithmetic::div_mod::lemma_mod_bound(m, ub);
        vstd::arithmetic::mul::lemma_mul_is_commutative(ub, r);
        if r == pr && c / 2 == pc {
            assert(c == 2 * pc || c == 2 * pc + 1);
        } else {
            assert(m != pr * ub + 2 * pc) by {
                if m == pr * ub + 2 * pc {
                    lemma_row_major_split(pr, 2 * pc, ub);
                }
            }
            assert(m != pr * ub + 2 * pc + 1) by {
                if m == pr * ub + 2 * pc + 1 {
                    lemma_row_major_split(pr, 2 * pc + 1, ub);
                }
            }
        }
    }
}

proof fn lemma_nv12_next_row(
    cy: Seq<u8>, cuv: Seq<u8>, oy: Seq<u8>, ouv: Seq<u8>, bgra: Seq<u8>,
    si: int, yb: int, ub: int, nr: int, nc: int, pr: int,
)
    requires
        forall|k: int| 0 <= k < cy.len() ==> #[trigger] nv12_luma_at(cy, oy, bgra, si, yb, nr, nc, pr, nc, k),
        forall|m: int| 0 <= m < cuv.len() ==> #[trigger] nv12_chroma_at(cuv, ouv, bgra, si, ub, nr, nc, pr, nc, m),
    ensures
        forall|k: int| 0 <= k < cy.len() ==> #[trigger] nv12_luma_at(cy, oy, bgra, si, yb, nr, nc, pr + 1, 0, k),
        forall|m: int| 0 <= m < cuv.len() ==> #[trigger] nv12_chroma_at(cuv, ouv, bgra, si, ub, nr, nc, pr + 1, 0, m),
{
    assert forall|k: int| 0 <= k < cy.len() implies #[trigger] nv12_luma_at(cy, oy, bgra, si, yb, nr, nc, pr + 1, 0, k) by {
        assert(nv12_luma_at(cy, oy, bgra, si, yb, nr, nc, pr, nc, k));
        if yb > 0 {
            vstd::arithmetic::div_mod::lemma_mod_bound(k, yb);
        }
    }
    assert forall|m: int| 0 <= m < cuv.len() implies #[trigger] nv12_chroma_at(cuv, ouv, bgra, si, ub, nr, nc, pr + 1, 0, m) by {
        assert(nv12_chroma_at(cuv, ouv, bgra, si, ub, nr, nc, pr, nc, m));
        if ub > 0 {
            vstd::arithmetic::div_mod::lemma_mod_bound(m, ub);
        }
    }
}


/// NV12 luma position `k` (rows `ybpr` apart) after copying the first `rows`
/// rows of a packed `width`-wide I420 luma plane: a row is copied, truncated
/// to `min(width, ybpr)` bytes, when the source holds all of it.
pub open spec fn nv12_luma_copied(
    cur: Seq<u8>, orig: Seq<u8>, src: Seq<u8>, width: int, ybpr: int, rows: int, k: int,
) -> bool {
    cur[k] == if ybpr > 0 && k / ybpr < rows && k % ybpr < width && (k / ybpr) * width + width <= src.len() {
        src[(k / ybpr) * width + k % ybpr]
    } else {
        orig[k]
    }
}

/// NV12 chroma position `m` (rows `uvbpr` apart) after interleaving the
/// chroma samples before `(row, col)` of `hw`-wide U and V planes: even bytes
/// take U, odd bytes V, when both planes hold the sample.
pub open spec fn nv12_chroma_copied(
    cur: Seq<u8>, orig: Seq<u8>, u: Seq<u8>, v: Seq<u8>, hw: int, uvbpr: int, hh: int,
    row: int, col: int, m: int,
) -> bool {
    cur[m] == if uvbpr > 0 && m / uvbpr < hh && (m % uvbpr) / 2 < hw && before(m / uvbpr, (m % uvbpr) / 2, row, col)
        && (m / uvbpr) * hw + (m % uvbpr) / 2 < u.len() && (m / uvbpr) * hw + (m % uvbpr) / 2 < v.len() {
        if (m % uvbpr) % 2 == 0 {
            u[(m / uvbpr) * hw + (m % uvbpr) / 2]
        } else {
            v[(m / uvbpr) * hw + (m % uvbpr) / 2]
        }
    } else {
        orig[m]
    }
}

/// Fill NV12 planes from I420 planes of a `width × height` frame: each luma
/// row present in `y_src` is copied into a destination row (truncated to the
/// destination pitch), and each U, V sample pair present in both chroma planes
/// is interleaved into the chroma plane. Other destination bytes keep their value.
pub fn i420_to_nv12_planes(
    width: u32,
    height: u32,
    y_src: &[u8],
    u_src: &[u8],
    v_src: &[u8],
    y_dst: &mut [u8],
    y_bpr: usize,
    uv_dst: &mut [u8],
    uv_bpr: usize,
)
    requires
        width * height <= usize::MAX,
        old(y_dst)@.len() >= y_bpr * height,
        uv_bpr >= 2 * (width / 2),
        old(uv_dst)@.len() >= uv_bpr * (height / 2),
    ensures
        final(y_dst)@.len() == old(y_dst)@.len(),
        final(uv_dst)@.len() == old(uv_dst)@.len(),
        forall|k: int| 0 <= k < final(y_dst)@.len() ==> #[trigger] nv12_luma_copied(
            final(y_dst)@, old(y_dst)@, y_src@, width as int, y_bpr as int, height as int, k),
        forall|m: int| 0 <= m < final(uv_dst)@.len() ==> #[trigger] nv12_chroma_copied(
            final(uv_dst)@, old(uv_dst)@, u_src@, v_src@, (width / 2) as int, uv_bpr as int,
            (height / 2) as int, (height / 2) as int, 0, m),
{
    let w = width as usize;
    let h = height as usize;
    let ghost yb = y_bpr as int;
    let ghost ub = uv_bpr as int;
    let y_src_len = y_src.len();
    let y_dst_len = y_dst.len();
    let uv_dst_len = uv_dst.len();
    let u_len = u_src.len();
    let v_len = v_src.len();
    let count = if w < y_bpr { w } else { y_bpr };

    // Plane 0: Y
    let mut row: usize = 0;
    while row < h
        invariant
            w == width,
            h == height,
            yb == y_bpr,
            count == if w < y_bpr { w } else { y_bpr },
            y_src_len == y_src@.len(),
            y_dst_len == y_dst@.len(),
            w * h <= usize::MAX,
            y_dst@.len() == old(y_dst)@.len(),
            y_dst@.len() >= y_bpr * h,
            row <= h,
            forall|k: int| 0 <= k < y_dst@.len() ==> #[trigger] nv12_luma_copied(
                y_dst@, old(y_dst)@, y_src@, w as int, yb, row as int, k),
        decreases h - row,
    {
        proof {
            lemma_row_start_le(row as int, w as int, h as int);
            vstd::arithmetic::mul::lemma_mul_is_commutative(w as int, h as int);
            lemma_row_start_le(row as int, yb, h as int);
            vstd::arithmetic::mul::lemma_mul_is_commutative(yb, h as int);
        }
        let src_off = row * w;
        let dst_off = row * y_bpr;
        let ghost prev = y_dst@;
        if src_off + w <= y_src.len() {
            copy_span(y_dst, dst_off, y_src, src_off, count);
        }
        proof {
            assert forall|k: int| 0 <= k < y_dst@.len() implies #[trigger] nv12_luma_copied(
                y_dst@, old(y_dst)@, y_src@, w as int, yb, row + 1, k) by {
                assert(nv12_luma_copied(prev, old(y_dst)@, y_src@, w as int, yb, row as int, k));
                if yb > 0 {
                    let r = k / yb;
                    let c = k % yb;
                    vstd::arithmetic::div_mod::lemma_fundamental_div_mod(k, yb);
                    vstd::arithmetic::div_mod::lemma_mod_bound(k, yb);
                    vstd::arithmetic::mul::lemma_mul_is_commutative(yb, r);
                    if r == row && c < w {
                        assert(k == dst_off + c);
                        assert(c < count);
                    } else if dst_off <= k < dst_off + count {
                        lemma_row_major_split(row as int, k - dst_off, yb);
                    }
                }
            }
        }
        row = row + 1;
    }

    // Plane 1: interleaved UV (NV12)
    let uv_w = w / 2;
    let uv_h = h / 2;
    proof {
        lemma_mul_le(uv_h as int, uv_w as int, h as int, w as int);
    }
    let mut row: usize = 0;
    while row < uv_h
        invariant
            uv_w == width / 2,
            uv_h == height / 2,
            ub == uv_bpr,
            uv_bpr >= 2 * uv_w,
            uv_h * uv_w <= usize::MAX,
            u_len == u_src@.len(),
            v_len == v_src@.len(),
            uv_dst_len == uv_dst@.len(),
            uv_dst@.len() == old(uv_dst)@.len(),
            uv_dst@.len() >= uv_bpr * uv_h,
            row <= uv_h,
            forall|m: int| 0 <= m < uv_dst@.len() ==> #[trigger] nv12_chroma_copied(
                uv_dst@, old(uv_dst)@, u_src@, v_src@, uv_w as int, ub, uv_h as int, row as int, 0, m),
        decreases uv_h - row,
    {
        proof {
            lemma_row_start_le(row as int, uv_w as int, uv_h as int);
            lemma_row_start_le(row as int, ub, uv_h as int);
            vstd::arithmetic::mul::lemma_mul_is_commutative(ub, uv_h as int);
        }
        let mut col: usize = 0;
        while col < uv_w
            invariant
                uv_w == width / 2,
                uv_h == height / 2,
                ub == uv_bpr,
                uv_bpr >= 2 * uv_w,
                u_len == u_src@.len(),
                v_len == v_src@.len(),
                uv_dst_len == uv_dst@.len(),
                uv_dst@.len() == old(uv_dst)@.len(),
                row < uv_h,
                row * uv_w + uv_w <= uv_h * uv_w,
                uv_h * uv_w <= usize::MAX,
                row * uv_bpr + uv_bpr <= uv_dst@.len(),
                col <= uv_w,
                forall|m: int| 0 <= m < uv_dst@.len() ==> #[trigger] nv12_chroma_copied(
                    uv_dst@, old(uv_dst)@, u_src@, v_src@, uv_w as int, ub, uv_h as int, row as int, col as int, m),
            decreases uv_w - col,
        {
            let src_idx = row * uv_w + col;
            let dst_off = row * uv_bpr + col * 2;
            let ghost prev = uv_dst@;
            if src_idx < u_src.len() && src_idx < v_src.len() {
                uv_dst[dst_off] = u_src[src_idx];
                uv_dst[dst_off + 1] = v_src[src_idx];
            }
            proof {
                assert forall|m: int| 0 <= m < uv_dst@.len() implies #[trigger] nv12_chroma_copied(
                    uv_dst@, old(uv_dst)@, u_src@, v_src@, uv_w as int, ub, uv_h as int, row as int, col + 1, m) by {
                    assert(nv12_chroma_copied(prev, old(uv_dst)@, u_src@, v_src@, uv_w as int, ub, uv_h as int, row as int, col as int, m));
                    if ub > 0 {
                        let r = m / ub;
                        let c = m % ub;
                        vstd::arithmetic::div_mod::lemma_fundamental_div_mod(m, ub);
                        vstd::arithmetic::div_mod::lemma_mod_bound(m, ub);
                        vstd::arithmetic::mul::lemma_mul_is_commutative(ub, r);
                        if r == row && c / 2 == col {
                            assert(c == 2 * col || c == 2 * col + 1);
                        } else {
                            if m == dst_off {
                                lemma_row_major_split(row as int, 2 * col, ub);
                            }
                            if m == dst_off + 1 {
                                lemma_row_major_split(row as int, 2 * col + 1, ub);
                            }
                        }
                    }
                }
            }
            col = col + 1;
        }
        proof {
            assert forall|m: int| 0 <= m < uv_dst@.len() implies #[trigger] nv12_chroma_copied(
                uv_dst@, old(uv_dst)@, u_src@, v_src@, uv_w as int, ub, uv_h as int, row + 1, 0, m) by {
                assert(nv12_chroma_copied(uv_dst@, old(uv_dst)@, u_src@, v_src@, uv_w as int, ub, uv_h as int, row as int, uv_w as int, m));
                if ub > 0 {
                    vstd::arithmetic::div_mod::lemma_mod_bound(m, ub);
                }
            }
        }
        row = row + 1;
    }
}


/// NV12 luma at position `k` (rows `ybpr` apart) after the pixels before
/// `(row, col)` of the visible `rows × cols` area have been converted.
pub open spec fn luma_at(
    cur: Seq<u8>, orig: Seq<u8>, bgra: Seq<u8>, stride: int, ybpr: int, rows: int, cols: int,
    row: int, col: int, k: int,
) -> bool {
    cur[k] == if ybpr > 0 && k / ybpr < rows && k % ybpr < cols && before(k / ybpr, k % ybpr, row, col) {
        pixel_y(bgra, stride, k / ybpr, k % ybpr)
    } else {
        orig[k]
    }
}

/// Full-range luma of every pixel of the visible `rows × cols` area, written
/// into a plane with rows `y_bpr` bytes apart; other plane bytes keep their value.
pub fn bgra_to_luma_rows(
    data: &[u8],
    rows: usize,
    cols: usize,
    stride: usize,
    y_plane: &mut [u8],
    y_bpr: usize,
)
    requires
        bgra_covers(data@.len() as int, cols as int, rows as int, stride as int),
        y_bpr >= cols,
        old(y_plane)@.len() >= y_bpr * rows,
    ensures
        final(y_plane)@.len() == old(y_plane)@.len(),
        forall|k: int| 0 <= k < final(y_plane)@.len() ==> #[trigger] luma_at(
            final(y_plane)@, old(y_plane)@, data@, stride as int, y_bpr as int, rows as int,
            cols as int, rows as int, 0, k),
{
    let ghost si = stride as int;
    let ghost yb = y_bpr as int;
    let data_len = data.len();
    let y_len = y_plane.len();
    let mut row: usize = 0;
    while row < rows
        invariant
            si == stride,
            yb == y_bpr,
            data_len == data@.len(),
            y_len == y_plane@.len(),
            bgra_covers(data@.len() as int, cols as int, rows as int, stride as int),
            y_bpr >= cols,
            y_plane@.len() == old(y_plane)@.len(),
            y_plane@.len() >= y_bpr * rows,
            row <= rows,
            forall|k: int| 0 <= k < y_plane@.len() ==> #[trigger] luma_at(
                y_plane@, old(y_plane)@, data@, si, yb, rows as int, cols as int, row as int, 0, k),
        decreases rows - row,
    {
        proof {
            lemma_row_start_le(row as int, si, rows as int);
            lemma_row_start_le(row as int, yb, rows as int);
            vstd::arithmetic::mul::lemma_mul_is_commutative(yb, rows as int);
        }
        let bgra_row = row * stride;
        let y_row = row * y_bpr;
        let mut col: usize = 0;
        while col < cols
            invariant
                si == stride,
                yb == y_bpr,
                data_len == data@.len(),
                y_len == y_plane@.len(),
                bgra_covers(data@.len() as int, cols as int, rows as int, stride as int),
                y_bpr >= cols,
                y_plane@.len() == old(y_plane)@.len(),
                row < rows,
                col <= cols,
                bgra_row == row * stride,
                bgra_row <= (rows - 1) * stride,
                y_row == row * y_bpr,
                y_row + y_bpr <= y_plane@.len(),
                forall|k: int| 0 <= k < y_plane@.len() ==> #[trigger] luma_at(
                    y_plane@, old(y_plane)@, data@, si, yb, rows as int, cols as int, row as int,
                    col as int, k),
            decreases cols - col,
        {
            let px = bgra_row + col * 4;
            assert(px as int == bgra_offset(si, row as int, col as int));
            let y = bgra_pixel_to_yuv_full(data[px], data[px + 1], data[px + 2]).0;
            let ghost prev = y_plane@;
            let idx = y_row + col;
            y_plane[idx] = y;
            proof {
                assert forall|k: int| 0 <= k < y_plane@.len() implies #[trigger] luma_at(
                    y_plane@, old(y_plane)@, data@, si, yb, rows as int, cols as int, row as int,
                    col + 1, k) by {
                    assert(luma_at(prev, old(y_plane)@, data@, si, yb, rows as int, cols as int,
                        row as int, col as int, k));
                    if k == idx {
                        lemma_row_major_split(row as int, col as int, yb);
                    } else if yb > 0 && k / yb == row && k % yb == col {
                        vstd::arithmetic::div_mod::lemma_fundamental_div_mod(k, yb);
                        vstd::arithmetic::mul::lemma_mul_is_commutative(yb, k / yb);
                    }
                }
            }
            col = col + 1;
        }
        proof {
            assert forall|k: int| 0 <= k < y_plane@.len() implies #[trigger] luma_at(
                y_plane@, old(y_plane)@, data@, si, yb, rows as int, cols as int, row + 1, 0, k) by {
                assert(luma_at(y_plane@, old(y_plane)@, data@, si, yb, rows as int, cols as int,
                    row as int, cols as int, k));
            }
        }
        row = row + 1;
    }
}

/// Convert the visible area of a BGRA frame to NV12 full range: every pixel
/// of the `min(src, enc)` area gets its own luma sample, and every whole 2×2
/// block one interleaved U, V pair computed from its averaged color. Other
/// plane bytes keep their value.
pub fn bgra_to_nv12_full_planes(
    data: &[u8],
    src_w: u32,
    src_h: u32,
    stride: usize,
    enc_w: u32,
    enc_h: u32,
    y_plane: &mut [u8],
    y_bpr: usize,
    uv_plane: &mut [u8],
    uv_bpr: usize,
)
    requires
        bgra_covers(data@.len() as int, min_u32(src_w, enc_w) as int, min_u32(src_h, enc_h) as int, stride as int),
        y_bpr >= min_u32(src_w, enc_w),
        uv_bpr >= 2 * (min_u32(src_w, enc_w) / 2),
        old(y_plane)@.len() >= y_bpr * min_u32(src_h, enc_h),
        old(uv_plane)@.len() >= uv_bpr * (min_u32(src_h, enc_h) / 2),
    ensures
        final(y_plane)@.len() == old(y_plane)@.len(),
        final(uv_plane)@.len() == old(uv_plane)@.len(),
        forall|k: int| 0 <= k < final(y_plane)@.len() ==> #[trigger] final(y_plane)@[k] == if y_bpr > 0
            && (k / y_bpr as int) < min_u32(src_h, enc_h) && (k % y_bpr as int) < min_u32(src_w, enc_w) {
            pixel_y(data@, stride as int, k / y_bpr as int, k % y_bpr as int)
        } else {
            old(y_plane)@[k]
        },
        forall|m: int| 0 <= m < final(uv_plane)@.len() ==> #[trigger] nv12_chroma_at(
            final(uv_plane)@, old(uv_plane)@, data@, stride as int, uv_bpr as int,
            (min_u32(src_h, enc_h) / 2) as int, (min_u32(src_w, enc_w) / 2) as int,
            (min_u32(src_h, enc_h) / 2) as int, 0, m),
{
    let cols = (if src_w < enc_w { src_w } else { enc_w }) as usize;
    let rows = (if src_h < enc_h { src_h } else { enc_h }) as usize;
    proof {
        lemma_mul_le(y_bpr as int, (2 * (rows / 2)) as int, y_bpr as int, rows as int);
    }
    let ghost orig_y = y_plane@;
    bgra_to_nv12_planes(data, src_w, src_h, stride, enc_w, enc_h, y_plane, y_bpr, uv_plane, uv_bpr);
    let ghost blocks_y = y_plane@;
    bgra_to_luma_rows(data, rows, cols, stride, y_plane, y_bpr);
    proof {
        let yb = y_bpr as int;
        assert forall|k: int| 0 <= k < y_plane@.len() implies #[trigger] y_plane@[k] == if yb > 0
            && k / yb < rows && k % yb < cols {
            pixel_y(data@, stride as int, k / yb, k % yb)
        } else {
            orig_y[k]
        } by {
            assert(luma_at(y_plane@, blocks_y, data@, stride as int, yb, rows as int, cols as int,
                rows as int, 0, k));
            assert(nv12_luma_at(blocks_y, orig_y, data@, stride as int, yb, (rows / 2) as int,
                (cols / 2) as int, (rows / 2) as int, 0, k));
        }
    }
}

} // verus!
