//! AVC444 frame preparation shared by the encoders: a BGRA frame becomes
//! encoder-sized YUV444 planes, which are split into the main and auxiliary
//! YUV420 views that are encoded as two H.264 streams.
use vstd::prelude::*;
use crate::arith::lemma_mul_le;
use crate::convert::{bgra_check, lemma_checked_frame_is_covered};
use crate::planes::uniform;
use crate::yuv444_split::{
    Yuv420Frame, yuv444_split_to_yuv420, bgra_to_yuv444_padded, padded_visible, pixel_y, pixel_u,
    pixel_v, avg_2x2, aux_luma, luma_size, chroma_size,
};

verus! {

/// Bytes of one chroma plane of an encoder picture.
pub open spec fn quarter(w: u32, h: u32) -> int {
    (w / 2) * (h / 2)
}

/// YUV444 planes of rows `pitch` apart holding the visible `width × height`
/// area of a BGRA frame (full range), black elsewhere.
pub open spec fn padded_yuv444(
    y444: Seq<u8>,
    u444: Seq<u8>,
    v444: Seq<u8>,
    data: Seq<u8>,
    width: u32,
    height: u32,
    stride: usize,
    pitch: u32,
) -> bool {
    &&& forall|k: int| 0 <= k < y444.len() ==> #[trigger] y444[k] == if padded_visible(k, pitch as int, width as int, height as int) {
        pixel_y(data, stride as int, k / pitch as int, k % pitch as int)
    } else {
        0u8
    }
    &&& forall|k: int| 0 <= k < u444.len() ==> #[trigger] u444[k] == if padded_visible(k, pitch as int, width as int, height as int) {
        pixel_u(data, stride as int, k / pitch as int, k % pitch as int)
    } else {
        128u8
    }
    &&& forall|k: int| 0 <= k < v444.len() ==> #[trigger] v444[k] == if padded_visible(k, pitch as int, width as int, height as int) {
        pixel_v(data, stride as int, k / pitch as int, k % pitch as int)
    } else {
        128u8
    }
}

/// The main and auxiliary YUV420 views of `w × h` YUV444 planes (the AVC444
/// B-area split).
pub open spec fn split_views(
    y444: Seq<u8>,
    u444: Seq<u8>,
    v444: Seq<u8>,
    w: u32,
    h: u32,
    main: Yuv420Frame,
    aux: Yuv420Frame,
) -> bool {
    &&& forall|k: int| 0 <= k < w * h ==> #[trigger] main.y@[k] == y444[k]
    &&& forall|k: int| 0 <= k < quarter(w, h) ==> #[trigger] main.u@[k] == avg_2x2(u444, w as int, k / (w / 2) as int, k % (w / 2) as int)
    &&& forall|k: int| 0 <= k < quarter(w, h) ==> #[trigger] main.v@[k] == avg_2x2(v444, w as int, k / (w / 2) as int, k % (w / 2) as int)
    &&& forall|k: int| 0 <= k < w * h ==> #[trigger] aux.y@[k] == aux_luma(u444, v444, w as int, h as int, k / w as int, k % w as int)
    &&& forall|k: int| 0 <= k < quarter(w, h) ==> #[trigger] aux.u@[k] == u444[2 * (k / (w / 2) as int) * w + 2 * (k % (w / 2) as int) + 1]
    &&& forall|k: int| 0 <= k < quarter(w, h) ==> #[trigger] aux.v@[k] == v444[2 * (k / (w / 2) as int) * w + 2 * (k % (w / 2) as int) + 1]
}

/// Reusable buffers for AVC444 encoding
pub struct Yuv444SplitBufs {
    pub y444: Vec<u8>,
    pub u444: Vec<u8>,
    pub v444: Vec<u8>,
    pub main_view: Yuv420Frame,
    pub aux_view: Yuv420Frame,
}

impl Yuv444SplitBufs {
    /// Buffers for `width × height` frames: YUV444 planes of `width × height`
    /// zero bytes and two black YUV420 frames.
    pub fn new(width: u32, height: u32) -> (b: Self)
        requires
            width * height <= u32::MAX,
        ensures
            b.y444@ == uniform(width * height, 0),
            b.u444@ == uniform(width * height, 0),
            b.v444@ == uniform(width * height, 0),
            b.main_view.y@ == uniform(luma_size(width, height), 0),
            b.main_view.u@ == uniform(chroma_size(width, height), 128),
            b.main_view.v@ == uniform(chroma_size(width, height), 128),
            b.main_view.width == width,
            b.main_view.height == height,
            b.aux_view.y@ == uniform(luma_size(width, height), 0),
            b.aux_view.u@ == uniform(chroma_size(width, height), 128),
            b.aux_view.v@ == uniform(chroma_size(width, height), 128),
            b.aux_view.width == width,
            b.aux_view.height == height,
    {
        let full = (width * height) as usize;
        let y444 = vec![0u8; full];
        let u444 = vec![0u8; full];
        let v444 = vec![0u8; full];
        assert(y444@ =~= uniform(width * height, 0));
        assert(u444@ =~= uniform(width * height, 0));
        assert(v444@ =~= uniform(width * height, 0));
        Self {
            y444,
            u444,
            v444,
            main_view: Yuv420Frame::new(width, height),
            aux_view: Yuv420Frame::new(width, height),
        }
    }

    /// The buffers fit `w × h` frames of even size.
    pub open spec fn sized(&self, w: u32, h: u32) -> bool {
        &&& self.y444@.len() == w * h
        &&& self.u444@.len() == w * h
        &&& self.v444@.len() == w * h
        &&& self.main_view.y@.len() == w * h
        &&& self.aux_view.y@.len() == w * h
        &&& self.main_view.u@.len() == quarter(w, h)
        &&& self.main_view.v@.len() == quarter(w, h)
        &&& self.aux_view.u@.len() == quarter(w, h)
        &&& self.aux_view.v@.len() == quarter(w, h)
    }
}

/// Reusable AVC444 buffers, under the name the hardware encoder uses.
pub type Yuv444Buffers = Yuv444SplitBufs;

/// Converts a checked BGRA frame into the AVC444 views: YUV444 planes with
/// rows `w` bytes apart holding the visible area (black elsewhere), split into
/// the main and auxiliary YUV420 views of the `w × h` encoder picture.
pub fn prepare_avc444_views(
    bufs: &mut Yuv444SplitBufs,
    data: &[u8],
    width: u32,
    height: u32,
    stride: usize,
    w: u32,
    h: u32,
)
    requires
        old(bufs).sized(w, h),
        w % 2 == 0,
        h % 2 == 0,
        bgra_check(data@.len() as int, width as int, height as int, stride as int, w as int, h as int) is Ok,
    ensures
        final(bufs).sized(w, h),
        final(bufs).main_view.width == old(bufs).main_view.width,
        final(bufs).main_view.height == old(bufs).main_view.height,
        final(bufs).aux_view.width == old(bufs).aux_view.width,
        final(bufs).aux_view.height == old(bufs).aux_view.height,
        padded_yuv444(final(bufs).y444@, final(bufs).u444@, final(bufs).v444@, data@, width, height, stride, w),
        split_views(final(bufs).y444@, final(bufs).u444@, final(bufs).v444@, w, h,
            final(bufs).main_view, final(bufs).aux_view),
{
    proof {
        lemma_checked_frame_is_covered(data@.len() as int, width as int, height as int,
            stride as int, w as int, h as int);
        lemma_mul_le(w as int, height as int, w as int, h as int);
    }
    // Keep encoder-sized row pitch even when the visible frame is smaller.
    bgra_to_yuv444_padded(data, width, height, stride, w, bufs.y444.as_mut_slice(),
        bufs.u444.as_mut_slice(), bufs.v444.as_mut_slice());
    // YUV444 -> Main YUV420 + Aux YUV420 (B-area split)
    yuv444_split_to_yuv420(bufs.y444.as_slice(), bufs.u444.as_slice(), bufs.v444.as_slice(),
        w, h, &mut bufs.main_view, &mut bufs.aux_view);
}

} // verus!
