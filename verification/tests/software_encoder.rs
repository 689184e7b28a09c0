use macrdp::avc444::{prepare_avc444_views, Yuv444Buffers, Yuv444SplitBufs};
use macrdp::convert::FrameError;
use macrdp::openh264_enc::{frame_from_bitstream, EncodedFrameType, EncoderError, OpenH264Encoder};
use openh264::encoder::Encoder;

fn encoder(mode_444: bool) -> OpenH264Encoder {
    let main = Encoder::new().unwrap();
    let aux = if mode_444 { Some(Encoder::new().unwrap()) } else { None };
    OpenH264Encoder::from_encoders(main, aux, 32, 32, 2_000_000, mode_444)
}

#[test]
fn frame_from_bitstream_marks_intra_pictures() {
    assert!(frame_from_bitstream(vec![1], EncodedFrameType::Idr, 16, 16).is_keyframe);
    assert!(frame_from_bitstream(vec![1], EncodedFrameType::I, 16, 16).is_keyframe);
    assert!(!frame_from_bitstream(vec![1], EncodedFrameType::P, 16, 16).is_keyframe);
    assert!(!frame_from_bitstream(vec![1], EncodedFrameType::Skip, 16, 16).is_keyframe);
    let f = frame_from_bitstream(vec![7, 8], EncodedFrameType::P, 32, 16);
    assert_eq!((f.data, f.width, f.height), (vec![7, 8], 32, 16));
}

#[test]
fn first_encoded_frame_is_a_keyframe_with_annex_b_data() {
    let mut enc = encoder(false);
    let bgra = vec![128u8; 30 * 20 * 4];
    let frame = enc.encode_bgra(&bgra, 30, 20, 30 * 4).unwrap();
    assert!(frame.is_keyframe);
    assert_eq!((frame.width, frame.height), (32, 32));
    assert!(frame.data.len() > 4);
    assert_eq!(&frame.data[0..3], &[0, 0, 0]);
}

#[test]
fn forced_keyframe_after_delta_frames() {
    let mut enc = encoder(false);
    let bgra = vec![90u8; 32 * 32 * 4];
    let first = enc.encode_bgra(&bgra, 32, 32, 128).unwrap();
    assert!(first.is_keyframe);
    let second = enc.encode_bgra(&bgra, 32, 32, 128).unwrap();
    assert!(!second.is_keyframe);
    enc.force_keyframe();
    let third = enc.encode_bgra(&bgra, 32, 32, 128).unwrap();
    assert!(third.is_keyframe);
}

#[test]
fn frame_larger_than_encoder_is_refused() {
    let mut enc = encoder(false);
    let bgra = vec![0u8; 40 * 40 * 4];
    assert!(matches!(
        enc.encode_bgra(&bgra, 40, 40, 160),
        Err(EncoderError::Frame(FrameError::ExceedsEncoder))
    ));
}

#[test]
fn avc444_needs_auxiliary_encoder() {
    let mut enc = encoder(false);
    assert!(!enc.supports_444());
    let bgra = vec![0u8; 32 * 32 * 4];
    assert!(matches!(enc.encode_bgra_444(&bgra, 32, 32, 128), Err(EncoderError::NoAuxEncoder)));
}

#[test]
fn avc444_encodes_two_streams() {
    let mut enc = encoder(true);
    assert!(enc.supports_444());
    let bgra = vec![200u8; 24 * 24 * 4];
    let frame = enc.encode_bgra_444(&bgra, 24, 24, 96).unwrap();
    assert!(frame.main_view.is_keyframe);
    assert!(frame.aux_view.is_keyframe);
    assert!(!frame.main_view.data.is_empty() && !frame.aux_view.data.is_empty());
    assert_eq!((frame.aux_view.width, frame.aux_view.height), (32, 32));
}

#[test]
fn retarget_reports_changes_only() {
    let mut enc = encoder(false);
    assert!(!enc.retarget(2_000_000));
    assert!(enc.retarget(3_000_000));
    assert!(!enc.retarget(3_000_000));
}

#[test]
fn avc444_views_of_a_padded_frame() {
    let mut bufs: Yuv444Buffers = Yuv444SplitBufs::new(4, 2);
    // A 2x1 white frame in a 4x2 encoder picture.
    let bgra = vec![255u8; 8];
    prepare_avc444_views(&mut bufs, &bgra, 2, 1, 8, 4, 2);
    assert_eq!(bufs.y444, vec![255, 255, 0, 0, 0, 0, 0, 0]);
    assert_eq!(bufs.u444, vec![128u8; 8]);
    assert_eq!(bufs.main_view.y, vec![255, 255, 0, 0, 0, 0, 0, 0]);
    assert_eq!(bufs.main_view.u, vec![128, 128]);
    assert_eq!(bufs.aux_view.u, vec![128, 128]);
}
