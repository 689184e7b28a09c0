//! BGRA output: an I420 frame converted back to BGRA (BT.601 limited range),
//! and BGRA rows copied into a pixel buffer with its own row pitch.
use vstd::prelude::*;
use crate::arith::{lemma_mul_le, lemma_row_major_bound, lemma_row_major_split, lemma_row_major_of, lemma_row_start_le};
use crate::planes::copy_span;
use crate::yuv444_split::{Yuv420Frame, clamp_byte, clamp_to_byte};

verus! {

/// Red of a limited-range Y, U, V sample: `(298 (Y-16) + 409 (V-128) + 128) >> 8`.
pub open spec fn yuv_red(y: int, u: int, v: int) -> u8 {
    clamp_byte((298 * (y - 16) + 409 * (v - 128) + 128) / 256)
}

/// Green: `(298 (Y-16) - 100 (U-128) - 208 (V-128) + 128) >> 8`.
pub open spec fn yuv_green(y: int, u: int, v: int) -> u8 {
    clamp_byte((298 * (y - 16) - 100 * (u - 128) - 208 * (v - 128) + 128) / 256)
}

/// Blue: `(298 (Y-16) + 516 (U-128) + 128) >> 8`.
pub open spec fn yuv_blue(y: int, u: int, v: int) -> u8 {
    clamp_byte((298 * (y - 16) + 516 * (u - 128) + 128) / 256)
}

/// Sample `i` of a plane, or `fallback` past its end.
pub open spec fn sample_or(plane: Seq<u8>, i: int, fallback: int) -> int {
    if i < plane.len() {
        plane[i] as int
    } else {
        fallback
    }
}

/// The luma, blue and red difference samples of pixel `k` of an I420 frame
/// `w` pixels wide; missing samples read as black (16, 128, 128).
pub open spec fn i420_sample(frame: Yuv420Frame, w: int, k: int) -> (int, int, int) {
    let uv = (k / w / 2) * (w / 2) + (k % w) / 2;
    (sample_or(frame.y@, k, 16), sample_or(frame.u@, uv, 128), sample_or(frame.v@, uv, 128))
}

/// Floor quotient by 256 of a value biased by `512 * 256`.
proof fn lemma_biased_quotient(x: int)
    ensures
        (x + 131072) / 256 - 512 == x / 256,
{
    vstd::arithmetic::div_mod::lemma_hoist_over_denominator(x, 512, 256);
    vstd::arithmetic::mul::lemma_mul_is_commutative(512, 256);
}

/// Converts one limited-range Y, U, V sample to B, G, R.
fn yuv_to_bgr(y: u8, u: u8, v: u8) -> (bgr: (u8, u8, u8))
    ensures
        bgr.0 == yuv_blue(y as int, u as int, v as int),
        bgr.1 == yuv_green(y as int, u as int, v as int),
        bgr.2 == yuv_red(y as int, u as int, v as int),
{
    let c = y as i32 - 16;
    let d = u as i32 - 128;
    let e = v as i32 - 128;
    let r_num = 298 * c + 409 * e + 128;
    let g_num = 298 * c - 100 * d - 208 * e + 128;
    let b_num = 298 * c + 516 * d + 128;
    // Biasing by 512 << 8 keeps each operand nonnegative, so the division is
    // the arithmetic shift of the unbiased value.
    let r = (r_num + 131072) / 256 - 512;
    let g = (g_num + 131072) / 256 - 512;
    let b = (b_num + 131072) / 256 - 512;
    proof {
        lemma_biased_quotient(r_num as int);
        lemma_biased_quotient(g_num as int);
        lemma_biased_quotient(b_num as int);
    }
    (clamp_to_byte(b), clamp_to_byte(g), clamp_to_byte(r))
}

fn sample_at(plane: &Vec<u8>, i: usize, fallback: u8) -> (s: u8)
    ensures
        s as int == sample_or(plane@, i as int, fallback as int),
{
    if i < plane.len() {
        plane[i]
    } else {
        fallback
    }
}

/// Convert an I420 (YUV420) frame to BGRA with the BT.601 reverse transform:
/// pixel `k` (row `k / w`, column `k % w`) takes luma `k` and the chroma of its
/// 2×2 block, and becomes four bytes B, G, R, 255. Samples missing from a
/// short plane read as black.
pub fn yuv420_to_bgra(frame: &Yuv420Frame) -> (bgra: Vec<u8>)
    requires
        frame.width * frame.height * 4 <= usize::MAX,
    ensures
        bgra@.len() == frame.width * frame.height * 4,
        forall|k: int| 0 <= k < frame.width * frame.height ==> {
            let (y, u, v) = #[trigger] i420_sample(*frame, frame.width as int, k);
            &&& bgra@[4 * k] == yuv_blue(y, u, v)
            &&& bgra@[4 * k + 1] == yuv_green(y, u, v)
            &&& bgra@[4 * k + 2] == yuv_red(y, u, v)
            &&& bgra@[4 * k + 3] == 255
        },
{
    let w = frame.width as usize;
    let h = frame.height as usize;
    let uv_w = w / 2;
    let n = w * h;
    let mut bgra = vec![0u8; n * 4];
    let mut k: usize = 0;
    while k < n
        invariant
            n == w * h,
            n * 4 <= usize::MAX,
            w == frame.width,
            h == frame.height,
            uv_w == w / 2,
            k <= n,
            bgra@.len() == n * 4,
            forall|j: int| 0 <= j < k ==> {
                let (y, u, v) = #[trigger] i420_sample(*frame, w as int, j);
                &&& bgra@[4 * j] == yuv_blue(y, u, v)
                &&& bgra@[4 * j + 1] == yuv_green(y, u, v)
                &&& bgra@[4 * j + 2] == yuv_red(y, u, v)
                &&& bgra@[4 * j + 3] == 255
            },
        decreases n - k,
    {
        proof {
            if w == 0 {
                assert(w * h == 0);
            }
        }
        let row = k / w;
        let col = k % w;
        proof {
            vstd::arithmetic::mul::lemma_mul_is_commutative(w as int, h as int);
            lemma_row_major_of(k as int, w as int, h as int);
            lemma_mul_le((row / 2) as int, uv_w as int, row as int, w as int);
            lemma_row_major_bound(row as int, col as int, w as int, h as int);
        }
        let uv_idx = (row / 2) * uv_w + col / 2;
        let y = sample_at(&frame.y, k, 16);
        let u = sample_at(&frame.u, uv_idx, 128);
        let v = sample_at(&frame.v, uv_idx, 128);
        let (b, g, r) = yuv_to_bgr(y, u, v);
        let px = k * 4;
        bgra.set(px, b);
        bgra.set(px + 1, g);
        bgra.set(px + 2, r);
        bgra.set(px + 3, 255);
        proof {
            assert(i420_sample(*frame, w as int, k as int) == (y as int, u as int, v as int));
        }
        k = k + 1;
    }
    bgra
}

/// Byte `k` of a pixel buffer with rows `bpr` bytes apart after the first
/// `rows` rows of `cols` bytes were copied from BGRA rows `stride` bytes
/// apart; a row whose bytes run past the end of `data` is not copied.
pub open spec fn bgra_row_copied(
    orig: Seq<u8>,
    data: Seq<u8>,
    stride: int,
    bpr: int,
    rows: int,
    cols: int,
    k: int,
) -> u8 {
    if bpr > 0 && k / bpr < rows && k % bpr < cols && (k / bpr) * stride + cols <= data.len() {
        data[(k / bpr) * stride + k % bpr]
    } else {
        orig[k]
    }
}

/// Copies the visible BGRA frame into a pixel buffer of `enc_h` rows of
/// `bpr` bytes: `min(src_h, enc_h)` rows of `min(src_w * 4, bpr)` bytes, each
/// row only when it lies wholly inside `data`.
pub fn copy_bgra_rows(
    dst: &mut [u8],
    bpr: usize,
    enc_h: u32,
    data: &[u8],
    src_w: u32,
    src_h: u32,
    stride: usize,
)
    requires
        enc_h * bpr <= old(dst)@.len(),
        src_w * 4 <= usize::MAX,
        src_h == 0 || enc_h == 0 || (if src_h < enc_h { src_h } else { enc_h } - 1) * stride
            + (if src_w * 4 < bpr { src_w * 4 } else { bpr as int }) <= usize::MAX,
    ensures
        final(dst)@.len() == old(dst)@.len(),
        forall|k: int| 0 <= k < old(dst)@.len() ==> #[trigger] final(dst)@[k] == bgra_row_copied(
            old(dst)@,
            data@,
            stride as int,
            bpr as int,
            if src_h < enc_h { src_h as int } else { enc_h as int },
            if src_w * 4 < bpr { src_w * 4 } else { bpr as int },
            k,
        ),
{
    let copy_rows: usize = if src_h < enc_h { src_h as usize } else { enc_h as usize };
    let wide = src_w as usize * 4;
    let copy_cols: usize = if wide < bpr { wide } else { bpr };
    let ghost orig = dst@;
    let dst_len = dst.len();
    let mut row: usize = 0;
    while row < copy_rows
        invariant
            dst_len == dst@.len(),
            row <= copy_rows,
            copy_rows <= enc_h,
            copy_cols <= bpr,
            enc_h * bpr <= orig.len(),
            dst@.len() == orig.len(),
            copy_rows == 0 || (copy_rows - 1) * stride + copy_cols <= usize::MAX,
            forall|k: int| 0 <= k < orig.len() ==> #[trigger] dst@[k] == if k < row * bpr {
                bgra_row_copied(orig, data@, stride as int, bpr as int, copy_rows as int, copy_cols as int, k)
            } else {
                orig[k]
            },
        decreases copy_rows - row,
    {
        proof {
            lemma_row_start_le(row as int, stride as int, copy_rows as int);
            lemma_row_start_le(row as int, bpr as int, enc_h as int);
        }
        let src_start = row * stride;
        let dst_start = row * bpr;
        let ghost before = dst@;
        if src_start + copy_cols <= data.len() {
            copy_span(dst, dst_start, data, src_start, copy_cols);
        }
        proof {
            assert forall|k: int| 0 <= k < orig.len() implies #[trigger] dst@[k] == if k < (row + 1) * bpr {
                bgra_row_copied(orig, data@, stride as int, bpr as int, copy_rows as int, copy_cols as int, k)
            } else {
                orig[k]
            } by {
                assert((row + 1) * bpr == row * bpr + bpr) by (nonlinear_arith);
                assert(before[k] == if k < row * bpr {
                    bgra_row_copied(orig, data@, stride as int, bpr as int, copy_rows as int, copy_cols as int, k)
                } else {
                    orig[k]
                });
                if row * bpr <= k < row * bpr + bpr {
                    lemma_row_major_split(row as int, k - row * bpr, bpr as int);
                }
            }
        }
        row = row + 1;
    }
    proof {
        assert forall|k: int| 0 <= k < orig.len() implies #[trigger] dst@[k] == bgra_row_copied(
            orig, data@, stride as int, bpr as int, copy_rows as int, copy_cols as int, k) by {
            let p = bpr as int;
            let r = copy_rows as int;
            if k >= r * p && p > 0 {
                if k / p < r {
                    vstd::arithmetic::div_mod::lemma_fundamental_div_mod(k, p);
                    vstd::arithmetic::div_mod::lemma_mod_bound(k, p);
                    vstd::arithmetic::mul::lemma_mul_is_commutative(p, k / p);
                    assert((k / p) * p + k % p < r * p) by (nonlinear_arith)
                        requires k / p < r, k % p < p, p > 0, k / p >= 0;
                }
            }
        }
    }
}

} // verus!
