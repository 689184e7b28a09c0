//! YUV444 preprocessing for AVC444 dual-stream encoding.
//!
//! BGRA is converted to full-resolution YUV444 (BT.601 full range), and the
//! YUV444 planes are split into two standard YUV420 frames: the main view
//! (luma plus averaged chroma) and the auxiliary view (the chroma samples
//! that the main view drops), following the B-area mapping of the
//! AVC444 graphics pipeline.
use vstd::prelude::*;
use crate::planes::{uniform, fill_plane, copy_span, fill_span};
use crate::arith::{lemma_mul_le, lemma_row_major_bound, lemma_row_major_split, lemma_row_major_of, lemma_row_start_le};

verus! {

/// A standard YUV420 frame with separate Y, U, V planes.
pub struct Yuv420Frame {
    /// Luma plane, W × H bytes
    pub y: Vec<u8>,
    /// Chroma-blue plane, W/2 × H/2 bytes
    pub u: Vec<u8>,
    /// Chroma-red plane, W/2 × H/2 bytes
    pub v: Vec<u8>,
    pub width: u32,
    pub height: u32,
}

/// Number of luma bytes of a `width × height` frame.
pub open spec fn luma_size(width: u32, height: u32) -> int {
    width * height
}

/// Number of bytes of each chroma plane, computed as `width / 2 * height / 2`
/// (left to right), which is `(W/2) × (H/2)` for even dimensions.
pub open spec fn chroma_size(width: u32, height: u32) -> int {
    ((width / 2) * height) / 2
}

/// Clamp an integer to the byte range `0..=255`.
pub open spec fn clamp_byte(x: int) -> u8 {
    (if x < 0 {
        0
    } else if x > 255 {
        255
    } else {
        x
    }) as u8
}

/// Byte offset of the pixel at `row`, `col` in a 4-byte-per-pixel buffer with
/// `stride` bytes per row.
pub open spec fn bgra_offset(stride: int, row: int, col: int) -> int {
    row * stride + col * 4
}

/// BT.601 full-range luma: `(77 R + 150 G + 29 B) >> 8`.
pub open spec fn full_range_y(b: int, g: int, r: int) -> u8 {
    clamp_byte((77 * r + 150 * g + 29 * b) / 256)
}

/// BT.601 full-range blue difference: `((-43 R - 85 G + 128 B) >> 8) + 128`.
pub open spec fn full_range_u(b: int, g: int, r: int) -> u8 {
    clamp_byte((-43 * r - 85 * g + 128 * b) / 256 + 128)
}

/// BT.601 full-range red difference: `((128 R - 107 G - 21 B) >> 8) + 128`.
pub open spec fn full_range_v(b: int, g: int, r: int) -> u8 {
    clamp_byte((128 * r - 107 * g - 21 * b) / 256 + 128)
}

/// Full-range luma of the BGRA pixel at `row`, `col`.
pub open spec fn pixel_y(bgra: Seq<u8>, stride: int, row: int, col: int) -> u8 {
    let o = bgra_offset(stride, row, col);
    full_range_y(bgra[o] as int, bgra[o + 1] as int, bgra[o + 2] as int)
}

/// Full-range blue difference of the BGRA pixel at `row`, `col`.
pub open spec fn pixel_u(bgra: Seq<u8>, stride: int, row: int, col: int) -> u8 {
    let o = bgra_offset(stride, row, col);
    full_range_u(bgra[o] as int, bgra[o + 1] as int, bgra[o + 2] as int)
}

/// Full-range red difference of the BGRA pixel at `row`, `col`.
pub open spec fn pixel_v(bgra: Seq<u8>, stride: int, row: int, col: int) -> u8 {
    let o = bgra_offset(stride, row, col);
    full_range_v(bgra[o] as int, bgra[o + 1] as int, bgra[o + 2] as int)
}

/// A BGRA buffer holds every pixel of a `width × height` image laid out with
/// `stride` bytes per row (the red byte of the last pixel included), and the
/// start of each row can be computed without overflow.
pub open spec fn bgra_covers(len: int, width: int, height: int, stride: int) -> bool {
    &&& (height == 0 || (height - 1) * stride <= usize::MAX)
    &&& (width > 0 && height > 0 ==> (height - 1) * stride + (width - 1) * 4 + 2 < len)
}

/// Clamp to a byte, as `x.clamp(0, 255) as u8`.
pub fn clamp_to_byte(x: i32) -> (r: u8)
    ensures
        r == clamp_byte(x as int),
{
    if x < 0 {
        0
    } else if x > 255 {
        255
    } else {
        x as u8
    }
}

/// Shifting a signed value right by eight bits after biasing it by `128 << 8`
/// gives its floor quotient by 256 plus 128.
pub proof fn lemma_biased_shift(x: int)
    ensures
        (x + 32768) / 256 == x / 256 + 128,
{
    vstd::arithmetic::div_mod::lemma_div_plus_one(x, 256);
    assert((x + 128 * 256) / 256 == x / 256 + 128) by {
        vstd::arithmetic::div_mod::lemma_hoist_over_denominator(x, 128, 256);
        vstd::arithmetic::mul::lemma_mul_is_commutative(128, 256);
    }
}

/// Convert one BGRA pixel to full-range Y, U, V.
pub fn bgra_pixel_to_yuv_full(b: u8, g: u8, r: u8) -> (yuv: (u8, u8, u8))
    ensures
        yuv.0 == full_range_y(b as int, g as int, r as int),
        yuv.1 == full_range_u(b as int, g as int, r as int),
        yuv.2 == full_range_v(b as int, g as int, r as int),
{
    let b = b as i32;
    let g = g as i32;
    let r = r as i32;
    // Arithmetic shift right by 8 is the floor quotient by 256; biasing by
    // 128 << 8 keeps the shifted operand nonnegative and adds the 128 offset.
    let y = (77 * r + 150 * g + 29 * b) / 256;
    let u_num = -43 * r - 85 * g + 128 * b;
    let v_num = 128 * r - 107 * g - 21 * b;
    let u = (u_num + 32768) / 256;
    let v = (v_num + 32768) / 256;
    proof {
        lemma_biased_shift(u_num as int);
        lemma_biased_shift(v_num as int);
    }
    (clamp_to_byte(y), clamp_to_byte(u), clamp_to_byte(v))
}

/// Convert a BGRA frame to full-resolution YUV444 planes using BT.601 **full range**.
///
/// The output planes `y444`, `u444`, `v444` must each be at least `width * height` bytes;
/// plane position `k` holds the pixel at row `k / width`, column `k % width`.
/// BGRA byte order: B[0], G[1], R[2], A[3].
///
/// ```text
/// Y =  (77*R + 150*G + 29*B) >> 8
/// U = (-43*R -  85*G + 128*B) >> 8 + 128
/// V = (128*R - 107*G -  21*B) >> 8 + 128
/// ```
pub fn bgra_to_yuv444(
    bgra: &[u8],
    width: u32,
    height: u32,
    stride: usize,
    y444: &mut [u8],
    u444: &mut [u8],
    v444: &mut [u8],
)
    requires
        bgra_covers(bgra@.len() as int, width as int, height as int, stride as int),
        old(y444)@.len() >= width * height,
        old(u444)@.len() >= width * height,
        old(v444)@.len() >= width * height,
    ensures
        final(y444)@.len() == old(y444)@.len(),
        final(u444)@.len() == old(u444)@.len(),
        final(v444)@.len() == old(v444)@.len(),
        forall|k: int|
            0 <= k < width * height ==> {
                &&& final(y444)@[k] == pixel_y(bgra@, stride as int, k / width as int, k % width as int)
                &&& final(u444)@[k] == pixel_u(bgra@, stride as int, k / width as int, k % width as int)
                &&& final(v444)@[k] == pixel_v(bgra@, stride as int, k / width as int, k % width as int)
            },
        forall|k: int| width * height <= k < old(y444)@.len() ==> final(y444)@[k] == old(y444)@[k],
        forall|k: int| width * height <= k < old(u444)@.len() ==> final(u444)@[k] == old(u444)@[k],
        forall|k: int| width * height <= k < old(v444)@.len() ==> final(v444)@[k] == old(v444)@[k],
{
    let w = width as usize;
    let h = height as usize;
    let ghost wi = w as int;
    let ghost si = stride as int;
    let bgra_len = bgra.len();
    let y_len = y444.len();

    let mut row: usize = 0;
    while row < h
        invariant
            w == width,
            h == height,
            wi == w,
            si == stride,
            bgra_len == bgra@.len(),
            y_len == y444@.len(),
            row <= h,
            bgra_covers(bgra@.len() as int, width as int, height as int, stride as int),
            y444@.len() == old(y444)@.len(),
            u444@.len() == old(u444)@.len(),
            v444@.len() == old(v444)@.len(),
            old(y444)@.len() >= w * h,
            old(u444)@.len() >= w * h,
            old(v444)@.len() >= w * h,
            forall|k: int| 0 <= k < row * w ==> #[trigger] y444@[k] == pixel_y(bgra@, si, k / wi, k % wi),
            forall|k: int| 0 <= k < row * w ==> #[trigger] u444@[k] == pixel_u(bgra@, si, k / wi, k % wi),
            forall|k: int| 0 <= k < row * w ==> #[trigger] v444@[k] == pixel_v(bgra@, si, k / wi, k % wi),
            forall|k: int| row * w <= k < y444@.len() ==> y444@[k] == old(y444)@[k],
            forall|k: int| row * w <= k < u444@.len() ==> u444@[k] == old(u444)@[k],
            forall|k: int| row * w <= k < v444@.len() ==> v444@[k] == old(v444)@[k],
        decreases h - row,
    {
        proof {
            lemma_row_start_le(row as int, si, h as int);
            lemma_row_start_le(row as int, wi, h as int);
        }
        let bgra_row = row * stride;
        let yuv_row = row * w;
        let mut col: usize = 0;
        while col < w
            invariant
                w == width,
                h == height,
                wi == w,
                si == stride,
                bgra_len == bgra@.len(),
                y_len == y444@.len(),
                row < h,
                col <= w,
                bgra_row == row * stride,
                yuv_row == row * w,
                yuv_row + w <= w * h,
                bgra_row <= (h - 1) * stride,
                bgra_covers(bgra@.len() as int, width as int, height as int, stride as int),
                y444@.len() == old(y444)@.len(),
                u444@.len() == old(u444)@.len(),
                v444@.len() == old(v444)@.len(),
                old(y444)@.len() >= w * h,
                old(u444)@.len() >= w * h,
                old(v444)@.len() >= w * h,
                forall|k: int| 0 <= k < yuv_row + col ==> #[trigger] y444@[k] == pixel_y(bgra@, si, k / wi, k % wi),
                forall|k: int| 0 <= k < yuv_row + col ==> #[trigger] u444@[k] == pixel_u(bgra@, si, k / wi, k % wi),
                forall|k: int| 0 <= k < yuv_row + col ==> #[trigger] v444@[k] == pixel_v(bgra@, si, k / wi, k % wi),
                forall|k: int| yuv_row + col <= k < y444@.len() ==> y444@[k] == old(y444)@[k],
                forall|k: int| yuv_row + col <= k < u444@.len() ==> u444@[k] == old(u444)@[k],
                forall|k: int| yuv_row + col <= k < v444@.len() ==> v444@[k] == old(v444)@[k],
            decreases w - col,
        {
            assert(bgra_row + col * 4 + 2 < bgra@.len());
            let px = bgra_row + col * 4;
            assert(px as int == bgra_offset(si, row as int, col as int));
            let b = bgra[px];
            let g = bgra[px + 1];
            let r = bgra[px + 2];
            let (y, u, v) = bgra_pixel_to_yuv_full(b, g, r);

            let idx = yuv_row + col;
            proof {
                lemma_row_major_split(row as int, col as int, wi);
            }
            y444[idx] = y;
            u444[idx] = u;
            v444[idx] = v;
            col = col + 1;
        }
        assert((row + 1) * w == row * w + w) by (nonlinear_arith);
        row = row + 1;
    }
}

impl Yuv420Frame {
    /// Create a new zeroed frame with the given dimensions: Y = 0, U = V = 128.
    /// Width and height should already be even (caller is responsible for alignment).
    pub fn new(width: u32, height: u32) -> (frame: Self)
        requires
            width * height <= u32::MAX,
        ensures
            frame.y@ == uniform(luma_size(width, height), 0),
            frame.u@ == uniform(chroma_size(width, height), 128),
            frame.v@ == uniform(chroma_size(width, height), 128),
            frame.width == width,
            frame.height == height,
    {
        let y_size = (width * height) as usize;
        proof {
            lemma_mul_le((width / 2) as int, height as int, width as int, height as int);
        }
        let uv_size = (width / 2 * height / 2) as usize;
        let y = vec![0u8; y_size];
        let u = vec![128u8; uv_size];
        let v = vec![128u8; uv_size];
        assert(y@ =~= uniform(luma_size(width, height), 0));
        assert(u@ =~= uniform(chroma_size(width, height), 128));
        assert(v@ =~= uniform(chroma_size(width, height), 128));
        Self { y, u, v, width, height }
    }

    /// Ensure the frame is sized for the given dimensions, reallocating if needed.
    /// Resets all planes to neutral values (Y=0, U=V=128): the frame ends up
    /// equal to `Yuv420Frame::new(width, height)`.
    pub fn ensure_size(&mut self, width: u32, height: u32)
        requires
            width * height <= u32::MAX,
        ensures
            final(self).y@ == uniform(luma_size(width, height), 0),
            final(self).u@ == uniform(chroma_size(width, height), 128),
            final(self).v@ == uniform(chroma_size(width, height), 128),
            final(self).width == width,
            final(self).height == height,
    {
        let y_size = (width * height) as usize;
        proof {
            lemma_mul_le((width / 2) as int, height as int, width as int, height as int);
        }
        let uv_size = (width / 2 * height / 2) as usize;

        if self.y.len() != y_size {
            self.y.resize(y_size, 0);
        }
        if self.u.len() != uv_size {
            self.u.resize(uv_size, 128);
        }
        if self.v.len() != uv_size {
            self.v.resize(uv_size, 128);
        }

        fill_plane(&mut self.y, 0);
        fill_plane(&mut self.u, 128);
        fill_plane(&mut self.v, 128);
        self.width = width;
        self.height = height;
    }
}


/// Rounded-down average of the 2×2 block whose top-left sample is at
/// row `2 r`, column `2 c` of a plane `w` bytes wide.
pub open spec fn avg_2x2(p: Seq<u8>, w: int, r: int, c: int) -> u8 {
    let top = 2 * r * w + 2 * c;
    let bot = (2 * r + 1) * w + 2 * c;
    ((p[top] + p[top + 1] + p[bot] + p[bot + 1]) / 4) as u8
}

/// The odd source row pair index that auxiliary luma row `d` carries: rows are
/// grouped in blocks of 16, the first 8 carrying U rows, the next 8 V rows.
pub open spec fn aux_src_half(d: int) -> int {
    (d / 16) * 8 + d % 8
}

/// Whether auxiliary luma row `d` carries a V row (the second half of its block).
pub open spec fn aux_is_v(d: int) -> bool {
    d % 16 >= 8
}

/// Auxiliary luma sample at row `d`, column `c`: the U (or V) sample of odd
/// source row `2 * aux_src_half(d) + 1`, or 0 when that row is past the frame.
pub open spec fn aux_luma(u444: Seq<u8>, v444: Seq<u8>, w: int, h: int, d: int, c: int) -> u8 {
    let s = 2 * aux_src_half(d) + 1;
    if s < h {
        if aux_is_v(d) {
            v444[s * w + c]
        } else {
            u444[s * w + c]
        }
    } else {
        0
    }
}

/// The two auxiliary rows that carry odd source row `2 hr + 1` are the only
/// rows whose source is that row.
pub proof fn lemma_aux_rows(d: int, hr: int)
    requires
        0 <= d,
        0 <= hr,
    ensures
        aux_src_half((hr / 8) * 16 + hr % 8) == hr,
        !aux_is_v((hr / 8) * 16 + hr % 8),
        aux_src_half((hr / 8) * 16 + hr % 8 + 8) == hr,
        aux_is_v((hr / 8) * 16 + hr % 8 + 8),
        aux_src_half(d) == hr ==> (d == (hr / 8) * 16 + hr % 8 || d == (hr / 8) * 16 + hr % 8 + 8),
{
    let u = (hr / 8) * 16 + hr % 8;
    assert(u / 16 == hr / 8 && u % 16 == hr % 8) by {
        vstd::arithmetic::div_mod::lemma_fundamental_div_mod_converse(u, 16, hr / 8, hr % 8);
    }
    assert((u + 8) / 16 == hr / 8 && (u + 8) % 16 == hr % 8 + 8) by {
        vstd::arithmetic::div_mod::lemma_fundamental_div_mod_converse(u + 8, 16, hr / 8, hr % 8 + 8);
    }
    assert(hr == (hr / 8) * 8 + hr % 8) by {
        vstd::arithmetic::div_mod::lemma_fundamental_div_mod(hr, 8);
    }
    assert(d == (d / 16) * 16 + d % 16) by {
        vstd::arithmetic::div_mod::lemma_fundamental_div_mod(d, 16);
    }
    assert(d % 8 == d % 16 % 8) by {
        vstd::arithmetic::div_mod::lemma_mod_mod(d, 8, 2);
    }
    if aux_src_half(d) == hr {
        let q = d / 16;
        let m8 = d % 8;
        assert(hr == q * 8 + m8);
        assert(hr / 8 == q && hr % 8 == m8) by {
            vstd::arithmetic::div_mod::lemma_fundamental_div_mod_converse(hr, 8, q, m8);
        }
    }
}

/// Split YUV444 planes into Main View (standard YUV420) and Auxiliary View
/// (chroma compensation YUV420) following the AVC444 B-area mapping.
///
/// Both views must be pre-allocated to at least `width × height` luma bytes and
/// `width/2 × height/2` bytes per chroma plane. Width and height must be even.
///
/// **Main View:**
/// - B1: `main.y[row][col] = y444[row][col]` (identity copy)
/// - B2: `main.u[r][c] = avg(u444[2r][2c], u444[2r][2c+1], u444[2r+1][2c], u444[2r+1][2c+1])`
/// - B3: `main.v[r][c]` = same 2×2 average for V
///
/// **Auxiliary View:**
/// - B4-B5: `aux.y` — U444/V444 odd rows, interleaved in 16-row blocks (8 U + 8 V)
/// - B6: `aux.u[r][c] = u444[2r][2c+1]` (even rows, odd columns)
/// - B7: `aux.v[r][c] = v444[2r][2c+1]` (even rows, odd columns)
pub fn yuv444_split_to_yuv420(
    y444: &[u8],
    u444: &[u8],
    v444: &[u8],
    width: u32,
    height: u32,
    main_view: &mut Yuv420Frame,
    aux_view: &mut Yuv420Frame,
)
    requires
        width % 2 == 0,
        height % 2 == 0,
        y444@.len() >= width * height,
        u444@.len() >= width * height,
        v444@.len() >= width * height,
        old(main_view).y@.len() >= width * height,
        old(aux_view).y@.len() >= width * height,
        old(main_view).u@.len() >= (width / 2) * (height / 2),
        old(main_view).v@.len() >= (width / 2) * (height / 2),
        old(aux_view).u@.len() >= (width / 2) * (height / 2),
        old(aux_view).v@.len() >= (width / 2) * (height / 2),
    ensures
        final(main_view).width == old(main_view).width,
        final(main_view).height == old(main_view).height,
        final(aux_view).width == old(aux_view).width,
        final(aux_view).height == old(aux_view).height,
        final(main_view).y@.len() == old(main_view).y@.len(),
        final(main_view).u@.len() == old(main_view).u@.len(),
        final(main_view).v@.len() == old(main_view).v@.len(),
        final(aux_view).y@.len() == old(aux_view).y@.len(),
        final(aux_view).u@.len() == old(aux_view).u@.len(),
        final(aux_view).v@.len() == old(aux_view).v@.len(),
        // B1
        forall|k: int| 0 <= k < width * height ==> #[trigger] final(main_view).y@[k] == y444@[k],
        // B2, B3
        forall|k: int|
            0 <= k < (width / 2) * (height / 2) ==> #[trigger] final(main_view).u@[k] == avg_2x2(
                u444@,
                width as int,
                k / (width / 2) as int,
                k % (width / 2) as int,
            ),
        forall|k: int|
            0 <= k < (width / 2) * (height / 2) ==> #[trigger] final(main_view).v@[k] == avg_2x2(
                v444@,
                width as int,
                k / (width / 2) as int,
                k % (width / 2) as int,
            ),
        // B4, B5
        forall|k: int|
            0 <= k < width * height ==> #[trigger] final(aux_view).y@[k] == aux_luma(
                u444@,
                v444@,
                width as int,
                height as int,
                k / width as int,
                k % width as int,
            ),
        // B6, B7
        forall|k: int|
            0 <= k < (width / 2) * (height / 2) ==> #[trigger] final(aux_view).u@[k] == u444@[2 * (k
                / (width / 2) as int) * width + 2 * (k % (width / 2) as int) + 1],
        forall|k: int|
            0 <= k < (width / 2) * (height / 2) ==> #[trigger] final(aux_view).v@[k] == v444@[2 * (k
                / (width / 2) as int) * width + 2 * (k % (width / 2) as int) + 1],
        // Bytes past the frame are left as they were.
        forall|k: int|
            width * height <= k < old(main_view).y@.len() ==> #[trigger] final(main_view).y@[k]
                == old(main_view).y@[k],
        forall|k: int|
            width * height <= k < old(aux_view).y@.len() ==> #[trigger] final(aux_view).y@[k]
                == old(aux_view).y@[k],
        forall|k: int|
            (width / 2) * (height / 2) <= k < old(main_view).u@.len() ==> #[trigger] final(main_view).u@[k] == old(main_view).u@[k],
        forall|k: int|
            (width / 2) * (height / 2) <= k < old(main_view).v@.len() ==> #[trigger] final(main_view).v@[k] == old(main_view).v@[k],
        forall|k: int|
            (width / 2) * (height / 2) <= k < old(aux_view).u@.len() ==> #[trigger] final(aux_view).u@[k] == old(aux_view).u@[k],
        forall|k: int|
            (width / 2) * (height / 2) <= k < old(aux_view).v@.len() ==> #[trigger] final(aux_view).v@[k] == old(aux_view).v@[k],
{
    let w = width as usize;
    let h = height as usize;
    let half_w = w / 2;
    let half_h = h / 2;
    let ghost wi = w as int;
    let ghost hi = h as int;
    let y444_len = y444.len();
    let u444_len = u444.len();
    let v444_len = v444.len();
    let aux_y_len = aux_view.y.len();
    proof {
        lemma_mul_le(half_w as int, half_h as int, w as int, h as int);
    }

    // --- B1: Main Y plane — direct copy from Y444 ---
    copy_span(main_view.y.as_mut_slice(), 0, y444, 0, w * h);

    // --- B2 + B3: Main U/V planes — 2×2 anti-alias average ---
    chroma_average(u444, w, h, main_view.u.as_mut_slice());
    chroma_average(v444, w, h, main_view.v.as_mut_slice());

    // --- B4-B5: Aux Y plane — U444/V444 odd rows, interleaved in 16-row blocks ---
    // Zero-fill aux Y first (unused rows stay 0)
    fill_span(aux_view.y.as_mut_slice(), 0, w * h, 0);

    let ghost zeroed = aux_view.y@;
    // Iterate over odd source rows: 1, 3, 5, ...
    let mut src_row = 1usize;
    while src_row < h
        invariant
            w == width,
            h == height,
            wi == w,
            hi == h,
            h % 2 == 0,
            src_row % 2 == 1,
            src_row <= h + 1,
            u444@.len() >= w * h,
            v444@.len() >= w * h,
            u444_len == u444@.len(),
            aux_y_len == aux_view.y@.len(),
            aux_view.y@.len() == old(aux_view).y@.len(),
            aux_view.y@.len() >= w * h,
            aux_view.u@ == old(aux_view).u@,
            aux_view.v@ == old(aux_view).v@,
            aux_view.width == old(aux_view).width,
            aux_view.height == old(aux_view).height,
            forall|k: int|
                0 <= k < wi * hi ==> #[trigger] aux_view.y@[k] == if aux_src_half(k / wi)
                    < src_row / 2 {
                    aux_luma(u444@, v444@, wi, hi, k / wi, k % wi)
                } else {
                    0
                },
            forall|k: int|
                wi * hi <= k < old(aux_view).y@.len() ==> #[trigger] aux_view.y@[k] == old(aux_view).y@[k],
        decreases h + 1 - src_row,
    {
        let ghost prev = aux_view.y@;
        let ghost hr = (src_row / 2) as int;
        let half_row = src_row / 2;  // 0, 1, 2, ...
        let block = half_row / 8;
        let offset = half_row % 8;
        let u_dst_row = block * 16 + offset;  // U data in first 8 rows of block
        let v_dst_row = block * 16 + offset + 8;  // V data in next 8 rows
        proof {
            lemma_row_start_le(src_row as int, wi, hi);
        }
        let src_offset = src_row * w;
        // B4: Copy U444 odd row into aux Y
        if u_dst_row < h {
            proof {
                lemma_row_start_le(u_dst_row as int, wi, hi);
            }
            let u_dst_offset = u_dst_row * w;
            copy_span(aux_view.y.as_mut_slice(), u_dst_offset, u444, src_offset, w);
        }
        let ghost mid = aux_view.y@;
        // B5: Copy V444 odd row into aux Y
        if v_dst_row < h {
            proof {
                lemma_row_start_le(v_dst_row as int, wi, hi);
            }
            let v_dst_offset = v_dst_row * w;
            copy_span(aux_view.y.as_mut_slice(), v_dst_offset, v444, src_offset, w);
        }
        proof {
            assert forall|k: int| 0 <= k < wi * hi implies #[trigger] aux_view.y@[k] == if aux_src_half(
                k / wi,
            ) < hr + 1 {
                aux_luma(u444@, v444@, wi, hi, k / wi, k % wi)
            } else {
                0
            } by {
                lemma_row_major_of(k, wi, hi);
                let d = k / wi;
                let c = k % wi;
                lemma_aux_rows(d, hr);
                if d == u_dst_row as int {
                    lemma_row_major_split(d, c, wi);
                    assert(k == d * wi + c);
                    if v_dst_row < h {
                        assert(!(v_dst_row * wi <= k < v_dst_row * wi + wi)) by {
                            if v_dst_row * wi <= k < v_dst_row * wi + wi {
                                lemma_row_major_split(v_dst_row as int, k - v_dst_row * wi, wi);
                            }
                        }
                        assert(mid[k] == aux_view.y@[k]);
                    }
                } else if d == v_dst_row as int {
                    assert(k == d * wi + c);
                } else {
                    if u_dst_row < h {
                        assert(!(u_dst_row * wi <= k < u_dst_row * wi + wi)) by {
                            if u_dst_row * wi <= k < u_dst_row * wi + wi {
                                lemma_row_major_split(u_dst_row as int, k - u_dst_row * wi, wi);
                            }
                        }
                    }
                    if v_dst_row < h {
                        assert(!(v_dst_row * wi <= k < v_dst_row * wi + wi)) by {
                            if v_dst_row * wi <= k < v_dst_row * wi + wi {
                                lemma_row_major_split(v_dst_row as int, k - v_dst_row * wi, wi);
                            }
                        }
                    }
                    assert(aux_view.y@[k] == prev[k]);
                }
            }
        }
        src_row += 2;
    }
    proof {
        assert forall|k: int| 0 <= k < wi * hi implies #[trigger] aux_view.y@[k] == aux_luma(
            u444@,
            v444@,
            wi,
            hi,
            k / wi,
            k % wi,
        ) by {
            lemma_row_major_of(k, wi, hi);
        }
    }

    // --- B6 + B7: Aux U/V planes — even rows, odd columns ---
    chroma_pick(u444, w, h, aux_view.u.as_mut_slice());
    chroma_pick(v444, w, h, aux_view.v.as_mut_slice());
}

/// B2/B3: `dst[r * w/2 + c]` becomes the 2×2 average of `src` at rows `2r, 2r+1`,
/// columns `2c, 2c+1`.
fn chroma_average(src: &[u8], w: usize, h: usize, dst: &mut [u8])
    requires
        w % 2 == 0,
        h % 2 == 0,
        src@.len() >= w * h,
        old(dst)@.len() >= (w / 2) * (h / 2),
    ensures
        final(dst)@.len() == old(dst)@.len(),
        forall|k: int|
            0 <= k < (w / 2) * (h / 2) ==> #[trigger] final(dst)@[k] == avg_2x2(
                src@,
                w as int,
                k / (w / 2) as int,
                k % (w / 2) as int,
            ),
        forall|k: int|
            (w / 2) * (h / 2) <= k < old(dst)@.len() ==> #[trigger] final(dst)@[k] == old(dst)@[k],
{
    let half_w = w / 2;
    let half_h = h / 2;
    let ghost wi = w as int;
    let ghost hw = half_w as int;
    let dst_len = dst.len();
    let mut r: usize = 0;
    while r < half_h
        invariant
            half_w == w / 2,
            half_h == h / 2,
            wi == w,
            hw == half_w,
            w % 2 == 0,
            h % 2 == 0,
            r <= half_h,
            src@.len() >= w * h,
            dst_len == dst@.len(),
            dst@.len() == old(dst)@.len(),
            dst@.len() >= half_w * half_h,
            forall|k: int|
                0 <= k < r * half_w ==> #[trigger] dst@[k] == avg_2x2(src@, wi, k / hw, k % hw),
            forall|k: int| r * half_w <= k < dst@.len() ==> #[trigger] dst@[k] == old(dst)@[k],
        decreases half_h - r,
    {
        let row_top = 2 * r;
        let row_bot = row_top + 1;
        let src_len = src.len();
        proof {
            lemma_row_start_le(r as int, hw, half_h as int);
            lemma_row_start_le(row_bot as int, wi, h as int);
            assert(row_top * w + w == row_bot * w) by (nonlinear_arith)
                requires row_bot == row_top + 1;
        }
        let mut c: usize = 0;
        while c < half_w
            invariant
                half_w == w / 2,
                half_h == h / 2,
                wi == w,
                hw == half_w,
                w % 2 == 0,
                h % 2 == 0,
                r < half_h,
                row_top == 2 * r,
                row_bot == row_top + 1,
                row_bot < h,
                row_bot * w + w <= w * h,
                row_top * w + w <= row_bot * w,
                src_len == src@.len(),
                r * half_w + half_w <= half_w * half_h,
                c <= half_w,
                src@.len() >= w * h,
                dst_len == dst@.len(),
                dst@.len() == old(dst)@.len(),
                dst@.len() >= half_w * half_h,
                forall|k: int|
                    0 <= k < r * half_w + c ==> #[trigger] dst@[k] == avg_2x2(src@, wi, k / hw, k % hw),
                forall|k: int| r * half_w + c <= k < dst@.len() ==> #[trigger] dst@[k] == old(dst)@[k],
            decreases half_w - c,
        {
            let col_left = 2 * c;
            let col_right = col_left + 1;

            let tl = row_top * w + col_left;
            let tr = row_top * w + col_right;
            let bl = row_bot * w + col_left;
            let br = row_bot * w + col_right;

            let avg = (src[tl] as u16 + src[tr] as u16 + src[bl] as u16 + src[br] as u16) / 4;
            proof {
                lemma_row_major_split(r as int, c as int, hw);
                assert(row_top * w == 2 * r * w) by (nonlinear_arith)
                    requires row_top == 2 * r;
            }
            dst[r * half_w + c] = avg as u8;
            c = c + 1;
        }
        assert((r + 1) * half_w == r * half_w + half_w) by (nonlinear_arith);
        r = r + 1;
    }
}

/// B6/B7: `dst[r * w/2 + c]` becomes `src` at row `2r`, column `2c + 1`.
fn chroma_pick(src: &[u8], w: usize, h: usize, dst: &mut [u8])
    requires
        w % 2 == 0,
        h % 2 == 0,
        src@.len() >= w * h,
        old(dst)@.len() >= (w / 2) * (h / 2),
    ensures
        final(dst)@.len() == old(dst)@.len(),
        forall|k: int|
            0 <= k < (w / 2) * (h / 2) ==> #[trigger] final(dst)@[k] == src@[2 * (k / (w / 2) as int)
                * w + 2 * (k % (w / 2) as int) + 1],
        forall|k: int|
            (w / 2) * (h / 2) <= k < old(dst)@.len() ==> #[trigger] final(dst)@[k] == old(dst)@[k],
{
    let half_w = w / 2;
    let half_h = h / 2;
    let ghost wi = w as int;
    let ghost hw = half_w as int;
    let dst_len = dst.len();
    let mut r: usize = 0;
    while r < half_h
        invariant
            half_w == w / 2,
            half_h == h / 2,
            wi == w,
            hw == half_w,
            w % 2 == 0,
            h % 2 == 0,
            r <= half_h,
            src@.len() >= w * h,
            dst_len == dst@.len(),
            dst@.len() == old(dst)@.len(),
            dst@.len() >= half_w * half_h,
            forall|k: int|
                0 <= k < r * half_w ==> #[trigger] dst@[k] == src@[2 * (k / hw) * wi + 2 * (k % hw) + 1],
            forall|k: int| r * half_w <= k < dst@.len() ==> #[trigger] dst@[k] == old(dst)@[k],
        decreases half_h - r,
    {
        let src_row = 2 * r;  // even row
        let src_len = src.len();
        proof {
            lemma_row_start_le(r as int, hw, half_h as int);
            lemma_row_start_le(src_row as int, wi, h as int);
        }
        let mut c: usize = 0;
        while c < half_w
            invariant
                half_w == w / 2,
                half_h == h / 2,
                wi == w,
                hw == half_w,
                w % 2 == 0,
                h % 2 == 0,
                r < half_h,
                src_row == 2 * r,
                src_row * w + w <= w * h,
                src_len == src@.len(),
                r * half_w + half_w <= half_w * half_h,
                c <= half_w,
                src@.len() >= w * h,
                dst_len == dst@.len(),
                dst@.len() == old(dst)@.len(),
                dst@.len() >= half_w * half_h,
                forall|k: int|
                    0 <= k < r * half_w + c ==> #[trigger] dst@[k] == src@[2 * (k / hw) * wi + 2 * (k
                        % hw) + 1],
                forall|k: int| r * half_w + c <= k < dst@.len() ==> #[trigger] dst@[k] == old(dst)@[k],
            decreases half_w - c,
        {
            let src_col = 2 * c + 1;  // odd column
            let src_idx = src_row * w + src_col;
            let dst_idx = r * half_w + c;
            proof {
                lemma_row_major_split(r as int, c as int, hw);
                assert(src_row * w == 2 * r * w) by (nonlinear_arith)
                    requires src_row == 2 * r;
            }
            dst[dst_idx] = src[src_idx];
            c = c + 1;
        }
        assert((r + 1) * half_w == r * half_w + half_w) by (nonlinear_arith);
        r = r + 1;
    }
}


/// Convert the visible `width × height` BGRA area into encoder-sized YUV444
/// planes with rows `pitch` bytes apart: the planes are first reset to neutral
/// values (Y = 0, U = V = 128), then row `r` of the frame is converted with
/// [`bgra_to_yuv444`] into plane row `r`.
pub fn bgra_to_yuv444_padded(
    data: &[u8],
    width: u32,
    height: u32,
    stride: usize,
    pitch: u32,
    y444: &mut [u8],
    u444: &mut [u8],
    v444: &mut [u8],
)
    requires
        width <= pitch,
        old(y444)@.len() >= pitch * height,
        old(u444)@.len() >= pitch * height,
        old(v444)@.len() >= pitch * height,
        width == 0 || height == 0 || (height - 1) * stride + width * 4 <= data@.len(),
    ensures
        final(y444)@.len() == old(y444)@.len(),
        final(u444)@.len() == old(u444)@.len(),
        final(v444)@.len() == old(v444)@.len(),
        forall|k: int|
            0 <= k < final(y444)@.len() ==> #[trigger] final(y444)@[k] == if padded_visible(
                k,
                pitch as int,
                width as int,
                height as int,
            ) {
                pixel_y(data@, stride as int, k / pitch as int, k % pitch as int)
            } else {
                0u8
            },
        forall|k: int|
            0 <= k < final(u444)@.len() ==> #[trigger] final(u444)@[k] == if padded_visible(
                k,
                pitch as int,
                width as int,
                height as int,
            ) {
                pixel_u(data@, stride as int, k / pitch as int, k % pitch as int)
            } else {
                128u8
            },
        forall|k: int|
            0 <= k < final(v444)@.len() ==> #[trigger] final(v444)@[k] == if padded_visible(
                k,
                pitch as int,
                width as int,
                height as int,
            ) {
                pixel_v(data@, stride as int, k / pitch as int, k % pitch as int)
            } else {
                128u8
            },
{
    let ghost pi = pitch as int;
    let ghost wi = width as int;
    let ghost si = stride as int;
    fill_span(y444, 0, y444.len(), 0);
    fill_span(u444, 0, u444.len(), 128);
    fill_span(v444, 0, v444.len(), 128);
    let data_len = data.len();
    let y_len = y444.len();
    let u_len = u444.len();
    let v_len = v444.len();
    let mut row: usize = 0;
    while row < height as usize
        invariant
            pi == pitch,
            wi == width,
            si == stride,
            width <= pitch,
            data_len == data@.len(),
            y_len == y444@.len(),
            u_len == u444@.len(),
            v_len == v444@.len(),
            y444@.len() == old(y444)@.len(),
            u444@.len() == old(u444)@.len(),
            v444@.len() == old(v444)@.len(),
            y444@.len() >= pitch * height,
            u444@.len() >= pitch * height,
            v444@.len() >= pitch * height,
            width == 0 || height == 0 || (height - 1) * stride + width * 4 <= data@.len(),
            row <= height,
            forall|k: int|
                0 <= k < y444@.len() ==> #[trigger] y444@[k] == if padded_visible(k, pi, wi, row as int) {
                    pixel_y(data@, si, k / pi, k % pi)
                } else {
                    0u8
                },
            forall|k: int|
                0 <= k < u444@.len() ==> #[trigger] u444@[k] == if padded_visible(k, pi, wi, row as int) {
                    pixel_u(data@, si, k / pi, k % pi)
                } else {
                    128u8
                },
            forall|k: int|
                0 <= k < v444@.len() ==> #[trigger] v444@[k] == if padded_visible(k, pi, wi, row as int) {
                    pixel_v(data@, si, k / pi, k % pi)
                } else {
                    128u8
                },
        decreases height - row,
    {
        proof {
            lemma_row_start_le(row as int, pi, height as int);
            lemma_row_start_le(row as int, si, height as int);
            vstd::arithmetic::mul::lemma_mul_is_commutative(pi, height as int);
        }
        let dst = row * pitch as usize;
        let ghost py = y444@;
        let ghost pu = u444@;
        let ghost pv = v444@;
        let (_, y_rest) = y444.split_at_mut(dst);
        let (_, u_rest) = u444.split_at_mut(dst);
        let (_, v_rest) = v444.split_at_mut(dst);
        let src_start = if width == 0 {
            0
        } else {
            row * stride
        };
        let src = vstd::slice::slice_subrange(data, src_start, data.len());
        assert(0 * stride == 0) by (nonlinear_arith);
        assert(bgra_covers(src@.len() as int, width as int, 1, stride as int));
        bgra_to_yuv444(src, width, 1, stride, y_rest, u_rest, v_rest);
        proof {
            lemma_padded_row(py, y444@, data@, src@, src_start as int, pi, wi, si, row as int, dst as int, 0);
            lemma_padded_row(pu, u444@, data@, src@, src_start as int, pi, wi, si, row as int, dst as int, 1);
            lemma_padded_row(pv, v444@, data@, src@, src_start as int, pi, wi, si, row as int, dst as int, 2);
        }
        row = row + 1;
    }
}

/// Plane position `k` of rows `pitch` apart lies in the visible
/// `width × height` area.
pub open spec fn padded_visible(k: int, pitch: int, width: int, height: int) -> bool {
    pitch > 0 && k / pitch < height && k % pitch < width
}

/// The full-range component `which` (0 = Y, 1 = U, 2 = V) of the pixel at `row`, `col`.
pub open spec fn pixel_component(bgra: Seq<u8>, stride: int, row: int, col: int, which: int) -> u8 {
    if which == 0 {
        pixel_y(bgra, stride, row, col)
    } else if which == 1 {
        pixel_u(bgra, stride, row, col)
    } else {
        pixel_v(bgra, stride, row, col)
    }
}

proof fn lemma_padded_row(
    prev: Seq<u8>,
    cur: Seq<u8>,
    data: Seq<u8>,
    src: Seq<u8>,
    src_start: int,
    pitch: int,
    width: int,
    stride: int,
    row: int,
    dst: int,
    which: int,
)
    requires
        0 <= row,
        0 <= width <= pitch,
        dst == row * pitch,
        width > 0 ==> src_start == row * stride,
        0 <= src_start <= data.len(),
        src == data.subrange(src_start, data.len() as int),
        width > 0 ==> row * stride + width * 4 <= data.len(),
        prev.len() == cur.len(),
        dst + pitch <= cur.len(),
        forall|k: int| 0 <= k < dst ==> cur[k] == prev[k],
        forall|j: int|
            0 <= j < width ==> #[trigger] cur[dst + j] == pixel_component(src, stride, j / width, j % width, which),
        forall|j: int| width <= j < cur.len() - dst ==> #[trigger] cur[dst + j] == prev[dst + j],
        forall|k: int|
            0 <= k < prev.len() ==> #[trigger] prev[k] == if padded_visible(k, pitch, width, row) {
                pixel_component(data, stride, k / pitch, k % pitch, which)
            } else {
                if which == 0 { 0u8 } else { 128u8 }
            },
    ensures
        forall|k: int|
            0 <= k < cur.len() ==> #[trigger] cur[k] == if padded_visible(k, pitch, width, row + 1) {
                pixel_component(data, stride, k / pitch, k % pitch, which)
            } else {
                if which == 0 { 0u8 } else { 128u8 }
            },
{
    assert forall|k: int| 0 <= k < cur.len() implies #[trigger] cur[k] == if padded_visible(k, pitch, width, row + 1) {
        pixel_component(data, stride, k / pitch, k % pitch, which)
    } else {
        if which == 0 { 0u8 } else { 128u8 }
    } by {
        assert(prev[k] == if padded_visible(k, pitch, width, row) {
            pixel_component(data, stride, k / pitch, k % pitch, which)
        } else {
            if which == 0 { 0u8 } else { 128u8 }
        });
        if k >= dst + width {
            let j = k - dst;
            assert(cur[dst + j] == prev[dst + j]);
        }
        if pitch > 0 {
            vstd::arithmetic::div_mod::lemma_fundamental_div_mod(k, pitch);
            vstd::arithmetic::div_mod::lemma_mod_bound(k, pitch);
            vstd::arithmetic::mul::lemma_mul_is_commutative(pitch, k / pitch);
            if k < dst {
                if k / pitch >= row {
                    assert((k / pitch) * pitch >= row * pitch) by (nonlinear_arith)
                        requires k / pitch >= row, pitch > 0;
                }
            } else if k < dst + width {
                let j = k - dst;
                assert(cur[dst + j] == pixel_component(src, stride, j / width, j % width, which));
                lemma_row_major_split(0, j, width);
                lemma_row_major_split(row, j, pitch);
                assert(k / pitch == row && k % pitch == j);
                let o = bgra_offset(stride, 0, j);
                assert(src[o] == data[src_start + o]);
                assert(src[o + 1] == data[src_start + o + 1]);
                assert(src[o + 2] == data[src_start + o + 2]);
                assert(bgra_offset(stride, row, j) == src_start + o);
            } else {
                let j = k - dst;
                assert(cur[dst + j] == prev[dst + j]);
                if k < dst + pitch {
                    lemma_row_major_split(row, j, pitch);
                } else {
                    if k / pitch <= row {
                        assert((k / pitch) * pitch <= row * pitch) by (nonlinear_arith)
                            requires k / pitch <= row, pitch > 0;
                    }
                }
            }
        }
    }
}

} // verus!
