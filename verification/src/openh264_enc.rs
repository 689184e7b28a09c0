//! OpenH264 software H.264 encoder for screen content: every BGRA frame is
//! checked, converted into an encoder-sized (macroblock-padded) I420 picture,
//! and handed to OpenH264; AVC444 frames go through the YUV444 split into a
//! main and an auxiliary YUV420 picture, each with its own encoder.
use vstd::prelude::*;
use vstd::slice::slice_subrange;
use openh264::encoder::{Encoder, FrameType};
use openh264::formats::YUVSlices;
use crate::arith::lemma_mul_le;
use crate::convert::{
    FrameError, bgra_check, validate_bgra, reset_i420, bgra_to_yuv420_padded, i420_converted,
    lemma_checked_frame_is_covered,
};
use crate::encoder::{EncodedFrame, Avc444EncodedFrame};
use crate::avc444::{Yuv444SplitBufs, prepare_avc444_views, padded_yuv444, split_views, quarter};
use crate::yuv444_split::chroma_size;

verus! {

#[verifier::external_type_specification]
#[verifier::external_body]
pub struct ExEncoder(Encoder);

#[verifier::external_type_specification]
#[verifier::external_body]
pub struct ExOpenH264Error(openh264::Error);

/// Kind of picture OpenH264 reported for an encoded frame.
#[derive(Debug, Clone, Copy, PartialEq, Eq, Structural)]
pub enum EncodedFrameType {
    Invalid,
    Idr,
    I,
    P,
    Skip,
    IPMixed,
}

/// Why an OpenH264 encode was refused or failed.
#[derive(Debug)]
pub enum EncoderError {
    /// The BGRA frame does not fit the encoder.
    Frame(FrameError),
    /// "AVC444 not enabled: no auxiliary encoder"
    NoAuxEncoder,
    /// "AVC444 not enabled: no YUV444 buffers"
    NoYuv444Buffers,
    /// "OpenH264 encode failed"
    Encode(openh264::Error),
    /// "OpenH264 main encode failed"
    MainEncode(openh264::Error),
    /// "OpenH264 aux encode failed"
    AuxEncode(openh264::Error),
}

/// Whether `Encoder::force_intra_frame` was called on an encoder since the
/// last picture was handed to its `Encoder::encode`: OpenH264 has been asked
/// to code the next picture as an IDR.
pub uninterp spec fn idr_requested(encoder: Encoder) -> bool;

/// The last picture handed to an encoder's `Encoder::encode`: whether an IDR
/// had been asked for then (`idr_requested`), and its Y, U and V planes.
pub uninterp spec fn last_picture(encoder: Encoder) -> (bool, Seq<u8>, Seq<u8>, Seq<u8>);

/// `Encoder::encode` of openh264 on the I420 planes `y`, `u`, `v` of a
/// `width × height` picture whose rows are `y_stride` and `uv_stride` bytes
/// apart, borrowed through `YUVSlices::new`; the bitstream is copied out with
/// `EncodedBitStream::to_vec` and returned with its `frame_type`.
/// `YUVSlices::new` panics unless the strides cover the width and the planes
/// hold exactly `height` and `height / 2` rows, so that is required. The
/// bitstream depends on the frames the encoder saw before and on its rate
/// control: nothing is stated of it or of the reported frame type. What is
/// stated is the picture handed over: these planes, with the IDR request the
/// encoder held, which the call answers.
#[verifier::external_body]
fn encode_planes(
    encoder: &mut Encoder,
    y: &[u8],
    u: &[u8],
    v: &[u8],
    width: usize,
    height: usize,
    y_stride: usize,
    uv_stride: usize,
) -> (r: Result<(Vec<u8>, EncodedFrameType), openh264::Error>)
    requires
        y_stride >= width,
        uv_stride >= width / 2,
        y@.len() == height * y_stride,
        u@.len() == (height / 2) * uv_stride,
        v@.len() == (height / 2) * uv_stride,
    ensures
        last_picture(*final(encoder)) == (idr_requested(*old(encoder)), y@, u@, v@),
        !idr_requested(*final(encoder)),
{
    let picture = YUVSlices::new((y, u, v), (width, height), (y_stride, uv_stride, uv_stride));
    let bitstream = encoder.encode(&picture)?;
    let nal = bitstream.to_vec();
    let kind = match bitstream.frame_type() {
        FrameType::Invalid => EncodedFrameType::Invalid,
        FrameType::IDR => EncodedFrameType::Idr,
        FrameType::I => EncodedFrameType::I,
        FrameType::P => EncodedFrameType::P,
        FrameType::Skip => EncodedFrameType::Skip,
        FrameType::IPMixed => EncodedFrameType::IPMixed,
    };
    Ok((nal, kind))
}

/// `Encoder::force_intra_frame` of openh264: asks OpenH264 to code the next
/// picture as an IDR; the last picture handed over is unchanged.
#[verifier::external_body]
fn force_intra_frame(encoder: &mut Encoder)
    ensures
        idr_requested(*final(encoder)),
        last_picture(*final(encoder)) == last_picture(*old(encoder)),
{
    encoder.force_intra_frame();
}

/// The Y, U and V planes of an I420 picture of `w × h` pixels.
pub open spec fn i420_planes(p: Seq<u8>, w: u32, h: u32) -> (Seq<u8>, Seq<u8>, Seq<u8>) {
    let ys = w * h;
    let q = quarter(w, h);
    (p.subrange(0, ys), p.subrange(ys, ys + q), p.subrange(ys + q, ys + 2 * q))
}

/// Whether OpenH264 reported an intra picture (IDR or I).
pub open spec fn is_key_picture(kind: EncodedFrameType) -> bool {
    kind == EncodedFrameType::Idr || kind == EncodedFrameType::I
}

/// The frame reported for an encoder's output: a keyframe exactly when
/// OpenH264 marked the picture IDR or I.
pub fn frame_from_bitstream(data: Vec<u8>, kind: EncodedFrameType, width: u32, height: u32) -> (f: EncodedFrame)
    ensures
        f.data@ == data@,
        f.is_keyframe == is_key_picture(kind),
        f.width == width,
        f.height == height,
{
    let is_keyframe = match kind {
        EncodedFrameType::Idr | EncodedFrameType::I => true,
        _ => false,
    };
    EncodedFrame { data, is_keyframe, width, height }
}

/// An I420 buffer of `len` bytes reset to black: luma 0, chroma 128.
pub open spec fn black_i420(len: int, luma: int) -> Seq<u8> {
    Seq::new(len as nat, |k: int| if k < luma { 0u8 } else { 128u8 })
}

/// The I420 picture handed to the encoder for a checked BGRA frame: an
/// `enc_w × enc_h` buffer reset to black with the visible `width × height`
/// area converted (BT.601 limited range).
pub open spec fn padded_i420_picture(
    pic: Seq<u8>,
    data: Seq<u8>,
    width: u32,
    height: u32,
    stride: usize,
    enc_w: u32,
    enc_h: u32,
) -> bool {
    &&& pic.len() == enc_w * enc_h + 2 * quarter(enc_w, enc_h)
    &&& i420_converted(
        pic,
        black_i420(pic.len() as int, enc_w * enc_h),
        data,
        enc_w as int,
        (enc_w / 2) as int,
        stride as int,
        height as int,
        width as int,
        enc_w * enc_h,
        quarter(enc_w, enc_h),
    )
}

/// OpenH264 encoder state. `encoder` and `encoder_aux` are the encoders of
/// the main and (for AVC444) auxiliary stream; they are public for options
/// this type does not set itself.
pub struct OpenH264Encoder {
    pub encoder: Encoder,
    /// Auxiliary encoder for AVC444 chroma stream
    pub encoder_aux: Option<Encoder>,
    width: u32,
    height: u32,
    force_keyframe: bool,
    yuv_buf: Vec<u8>,
    /// Current target bitrate
    target_bitrate: u32,
    mode_444: bool,
    /// Reusable buffers for AVC444 YUV444 split
    yuv444_bufs: Option<Yuv444SplitBufs>,
}

impl OpenH264Encoder {
    pub closed spec fn enc_width(self) -> u32 {
        self.width
    }

    pub closed spec fn enc_height(self) -> u32 {
        self.height
    }

    /// Whether the next encoded picture is forced to be an IDR.
    pub closed spec fn keyframe_pending(self) -> bool {
        self.force_keyframe
    }

    pub closed spec fn target(self) -> u32 {
        self.target_bitrate
    }

    /// The main stream's encoder.
    pub closed spec fn main_encoder(self) -> Encoder {
        self.encoder
    }

    /// The auxiliary stream's encoder, when there is one.
    pub closed spec fn aux_encoder(self) -> Option<Encoder> {
        self.encoder_aux
    }

    pub closed spec fn is_444(self) -> bool {
        self.mode_444
    }

    pub closed spec fn has_aux_encoder(self) -> bool {
        self.encoder_aux is Some
    }

    /// The I420 picture last handed to the main encoder by `encode_bgra`.
    pub closed spec fn picture(self) -> Seq<u8> {
        self.yuv_buf@
    }

    /// The AVC444 buffers, when AVC444 is enabled.
    pub closed spec fn split_buffers(self) -> Option<Yuv444SplitBufs> {
        self.yuv444_bufs
    }

    /// Even, positive encoder dimensions with buffers sized to them.
    pub closed spec fn wf(self) -> bool {
        &&& self.width > 0
        &&& self.height > 0
        &&& self.width % 2 == 0
        &&& self.height % 2 == 0
        &&& self.width * self.height * 3 <= u32::MAX
        &&& self.yuv_buf@.len() == self.width * self.height + 2 * quarter(self.width, self.height)
        &&& (self.yuv444_bufs matches Some(b) ==> b.sized(self.width, self.height))
    }

    /// Wraps the OpenH264 encoders created for `width × height` pictures (the
    /// auxiliary one for AVC444), with a black picture buffer and, for AVC444,
    /// the YUV444 split buffers.
    pub fn from_encoders(
        encoder: Encoder,
        encoder_aux: Option<Encoder>,
        width: u32,
        height: u32,
        bitrate: u32,
        mode_444: bool,
    ) -> (e: Self)
        requires
            width > 0,
            height > 0,
            width % 2 == 0,
            height % 2 == 0,
            width * height * 3 <= u32::MAX,
        ensures
            e.wf(),
            e.enc_width() == width,
            e.enc_height() == height,
            !e.keyframe_pending(),
            e.target() == bitrate,
            e.is_444() == mode_444,
            e.has_aux_encoder() == encoder_aux is Some,
            e.split_buffers() is Some == mode_444,
    {
        proof {
            lemma_mul_le(width as int, height as int, width as int, height as int);
            assert(width * height * 3 / 2 == width * height + 2 * quarter(width, height)) by (nonlinear_arith)
                requires width % 2 == 0, height % 2 == 0;
        }
        let yuv_size = (width * height * 3 / 2) as usize;
        let yuv444_bufs = if mode_444 {
            proof {
                assert(chroma_size(width, height) == quarter(width, height)) by (nonlinear_arith)
                    requires width % 2 == 0, height % 2 == 0;
            }
            Some(Yuv444SplitBufs::new(width, height))
        } else {
            None
        };
        Self {
            encoder,
            encoder_aux,
            width,
            height,
            force_keyframe: false,
            yuv_buf: vec![0u8; yuv_size],
            target_bitrate: bitrate,
            mode_444,
            yuv444_bufs,
        }
    }

    /// Asks for the next encoded picture to be an IDR.
    pub fn force_keyframe(&mut self)
        requires
            old(self).wf(),
        ensures
            final(self).wf(),
            final(self).keyframe_pending(),
            final(self).enc_width() == old(self).enc_width(),
            final(self).enc_height() == old(self).enc_height(),
            final(self).target() == old(self).target(),
            final(self).is_444() == old(self).is_444(),
            final(self).has_aux_encoder() == old(self).has_aux_encoder(),
            final(self).picture() == old(self).picture(),
            final(self).split_buffers() == old(self).split_buffers(),
    {
        self.force_keyframe = true;
    }

    /// Whether this encoder was created for AVC444 dual-stream encoding.
    pub fn supports_444(&self) -> (r: bool)
        ensures
            r == self.is_444(),
    {
        self.mode_444
    }

    /// Records a new target bitrate. Returns whether it differs from the
    /// current one, in which case the encoders must be reconfigured.
    pub fn retarget(&mut self, bitrate_bps: u32) -> (changed: bool)
        requires
            old(self).wf(),
        ensures
            final(self).wf(),
            changed == (old(self).target() != bitrate_bps),
            final(self).target() == bitrate_bps,
            final(self).keyframe_pending() == old(self).keyframe_pending(),
            final(self).enc_width() == old(self).enc_width(),
            final(self).enc_height() == old(self).enc_height(),
            final(self).is_444() == old(self).is_444(),
            final(self).has_aux_encoder() == old(self).has_aux_encoder(),
            final(self).picture() == old(self).picture(),
            final(self).split_buffers() == old(self).split_buffers(),
    {
        if self.target_bitrate == bitrate_bps {
            return false;
        }
        self.target_bitrate = bitrate_bps;
        true
    }

    /// AVC420 encode: checks the BGRA frame, converts it into the encoder-sized
    /// I420 picture (black padding) and encodes it, first forcing an IDR when
    /// one was requested.
    pub fn encode_bgra(&mut self, data: &[u8], width: u32, height: u32, stride: usize) -> (res: Result<EncodedFrame, EncoderError>)
        requires
            old(self).wf(),
        ensures
            final(self).wf(),
            final(self).enc_width() == old(self).enc_width(),
            final(self).enc_height() == old(self).enc_height(),
            final(self).target() == old(self).target(),
            final(self).is_444() == old(self).is_444(),
            final(self).has_aux_encoder() == old(self).has_aux_encoder(),
            final(self).split_buffers() == old(self).split_buffers(),
            match bgra_check(data@.len() as int, width as int, height as int, stride as int,
                old(self).enc_width() as int, old(self).enc_height() as int) {
                Err(e) => {
                    &&& res matches Err(EncoderError::Frame(f)) && f == e
                    &&& final(self).picture() == old(self).picture()
                    &&& final(self).keyframe_pending() == old(self).keyframe_pending()
                },
                Ok(_) => {
                    &&& padded_i420_picture(final(self).picture(), data@, width, height, stride,
                        old(self).enc_width(), old(self).enc_height())
                    &&& ({
                        let (y, u, v) = i420_planes(final(self).picture(), old(self).enc_width(), old(self).enc_height());
                        last_picture(final(self).main_encoder()) == (old(self).keyframe_pending()
                            || idr_requested(old(self).main_encoder()), y, u, v)
                    })
                    &&& final(self).aux_encoder() == old(self).aux_encoder()
                    &&& !final(self).keyframe_pending()
                    &&& (res is Err ==> res matches Err(EncoderError::Encode(_)))
                    &&& (res matches Ok(f) ==> f.width == old(self).enc_width() && f.height == old(self).enc_height())
                },
            },
    {
        match validate_bgra(data, width, height, stride, self.width, self.height) {
            Err(e) => {
                return Err(EncoderError::Frame(e));
            },
            Ok(()) => {},
        }
        proof {
            lemma_checked_frame_is_covered(data@.len() as int, width as int, height as int,
                stride as int, self.width as int, self.height as int);
            lemma_mul_le(self.width as int, self.height as int, self.width as int, self.height as int);
            lemma_mul_le((self.width / 2) as int, self.height as int, self.width as int, self.height as int);
        }
        let ghost len = self.yuv_buf@.len();
        let w = self.width;
        let h = self.height;
        proof {
            assert((w / 2 * h) / 2 == quarter(w, h)) by (nonlinear_arith)
                requires w % 2 == 0, h % 2 == 0;
        }
        reset_i420(self.yuv_buf.as_mut_slice(), w, h);
        proof {
            assert(self.yuv_buf@ =~= black_i420(len as int, w * h));
        }
        let ghost reset = self.yuv_buf@;
        bgra_to_yuv420_padded(data, width, height, stride, w, h, self.yuv_buf.as_mut_slice());
        if self.force_keyframe {
            force_intra_frame(&mut self.encoder);
            self.force_keyframe = false;
        }
        let y_size = (w * h) as usize;
        let uv_size = (w / 2 * (h / 2)) as usize;
        let wu = w as usize;
        let hu = h as usize;
        proof {
            assert(y_size == hu * wu) by (nonlinear_arith)
                requires y_size == w * h, wu == w, hu == h;
            assert(uv_size == (hu / 2) * (wu / 2)) by (nonlinear_arith)
                requires uv_size == (w / 2) * (h / 2), wu == w, hu == h;
        }
        let buf = self.yuv_buf.as_slice();
        let y = slice_subrange(buf, 0, y_size);
        let u = slice_subrange(buf, y_size, y_size + uv_size);
        let v = slice_subrange(buf, y_size + uv_size, y_size + 2 * uv_size);
        match encode_planes(&mut self.encoder, y, u, v, wu, hu, wu, wu / 2) {
            Ok((nal, kind)) => Ok(frame_from_bitstream(nal, kind, w, h)),
            Err(e) => Err(EncoderError::Encode(e)),
        }
    }

    /// AVC444 dual-stream encode: checks the BGRA frame, converts it into
    /// encoder-sized YUV444 planes (black padding), splits them into the main
    /// and auxiliary YUV420 views and encodes each with its own encoder, first
    /// forcing an IDR on both when one was requested.
    pub fn encode_bgra_444(&mut self, data: &[u8], width: u32, height: u32, stride: usize) -> (res: Result<Avc444EncodedFrame, EncoderError>)
        requires
            old(self).wf(),
        ensures
            final(self).wf(),
            final(self).enc_width() == old(self).enc_width(),
            final(self).enc_height() == old(self).enc_height(),
            final(self).target() == old(self).target(),
            final(self).is_444() == old(self).is_444(),
            final(self).has_aux_encoder() == old(self).has_aux_encoder(),
            final(self).picture() == old(self).picture(),
            final(self).split_buffers() is Some == old(self).split_buffers() is Some,
            match bgra_check(data@.len() as int, width as int, height as int, stride as int,
                old(self).enc_width() as int, old(self).enc_height() as int) {
                Err(e) => {
                    &&& res matches Err(EncoderError::Frame(f)) && f == e
                    &&& final(self).split_buffers() == old(self).split_buffers()
                    &&& final(self).keyframe_pending() == old(self).keyframe_pending()
                },
                Ok(_) => if !old(self).has_aux_encoder() {
                    &&& res matches Err(EncoderError::NoAuxEncoder)
                    &&& final(self).split_buffers() == old(self).split_buffers()
                    &&& final(self).keyframe_pending() == old(self).keyframe_pending()
                } else if old(self).split_buffers() is None {
                    &&& res matches Err(EncoderError::NoYuv444Buffers)
                    &&& final(self).keyframe_pending() == old(self).keyframe_pending()
                } else {
                    let w = old(self).enc_width();
                    let h = old(self).enc_height();
                    let b = final(self).split_buffers()->Some_0;
                    &&& padded_yuv444(b.y444@, b.u444@, b.v444@, data@, width, height, stride, w)
                    &&& split_views(b.y444@, b.u444@, b.v444@, w, h, b.main_view, b.aux_view)
                    &&& last_picture(final(self).main_encoder()) == (old(self).keyframe_pending()
                        || idr_requested(old(self).main_encoder()), b.main_view.y@, b.main_view.u@, b.main_view.v@)
                    &&& (!(res matches Err(EncoderError::MainEncode(_))) ==> last_picture(
                        final(self).aux_encoder()->Some_0) == (old(self).keyframe_pending()
                        || idr_requested(old(self).aux_encoder()->Some_0), b.aux_view.y@, b.aux_view.u@,
                        b.aux_view.v@))
                    &&& !final(self).keyframe_pending()
                    &&& (res is Err ==> res matches Err(EncoderError::MainEncode(_)) || res matches Err(EncoderError::AuxEncode(_)))
                    &&& (res matches Ok(f) ==> f.main_view.width == w && f.main_view.height == h
                        && f.aux_view.width == w && f.aux_view.height == h)
                },
            },
    {
        match validate_bgra(data, width, height, stride, self.width, self.height) {
            Err(e) => {
                return Err(EncoderError::Frame(e));
            },
            Ok(()) => {},
        }
        proof {
        }
        let w = self.width;
        let h = self.height;
        let encoder_aux = match &mut self.encoder_aux {
            Some(aux) => aux,
            None => {
                return Err(EncoderError::NoAuxEncoder);
            },
        };
        let bufs = match &mut self.yuv444_bufs {
            Some(b) => b,
            None => {
                return Err(EncoderError::NoYuv444Buffers);
            },
        };
        prepare_avc444_views(bufs, data, width, height, stride, w, h);
        if self.force_keyframe {
            force_intra_frame(&mut self.encoder);
            force_intra_frame(encoder_aux);
            self.force_keyframe = false;
        }
        let wu = w as usize;
        let hu = h as usize;
        proof {
            assert(w * h == hu * wu) by (nonlinear_arith)
                requires wu == w, hu == h;
            assert(quarter(w, h) == (hu / 2) * (wu / 2)) by (nonlinear_arith)
                requires wu == w, hu == h;
        }
        let main_bitstream = encode_planes(&mut self.encoder, bufs.main_view.y.as_slice(),
            bufs.main_view.u.as_slice(), bufs.main_view.v.as_slice(), wu, hu, wu, wu / 2);
        let (main_nal, main_kind) = match main_bitstream {
            Ok(out) => out,
            Err(e) => {
                return Err(EncoderError::MainEncode(e));
            },
        };
        let aux_bitstream = encode_planes(encoder_aux, bufs.aux_view.y.as_slice(),
            bufs.aux_view.u.as_slice(), bufs.aux_view.v.as_slice(), wu, hu, wu, wu / 2);
        let (aux_nal, aux_kind) = match aux_bitstream {
            Ok(out) => out,
            Err(e) => {
                return Err(EncoderError::AuxEncode(e));
            },
        };
        Ok(Avc444EncodedFrame {
            main_view: frame_from_bitstream(main_nal, main_kind, w, h),
            aux_view: frame_from_bitstream(aux_nal, aux_kind, w, h),
        })
    }
}

} // verus!
