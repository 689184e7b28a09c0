use macrdp::convert::{
    bgra_pixel_to_yuv_limited, bgra_to_luma_rows, bgra_to_nv12_full_planes, bgra_to_nv12_planes,
    bgra_to_yuv420_padded, copy_i420_padded, copy_plane_rows, i420_to_nv12_planes, reset_i420, validate_bgra,
    FrameError,
};

#[test]
fn limited_range_pixel_values() {
    assert_eq!(bgra_pixel_to_yuv_limited(255, 255, 255), (235, 128, 128));
    assert_eq!(bgra_pixel_to_yuv_limited(0, 0, 0), (16, 128, 128));
    assert_eq!(bgra_pixel_to_yuv_limited(0, 0, 255), (82, 90, 240));
}

#[test]
fn validate_bgra_accepts_exact_buffer() {
    let data = vec![0u8; 16];
    assert_eq!(validate_bgra(&data, 2, 2, 8, 4, 4), Ok(()));
}

#[test]
fn validate_bgra_rejects_empty_frame() {
    let data = vec![0u8; 16];
    assert_eq!(validate_bgra(&data, 0, 2, 8, 4, 4), Err(FrameError::EmptyFrame));
    assert_eq!(validate_bgra(&data, 2, 0, 8, 4, 4), Err(FrameError::EmptyFrame));
}

#[test]
fn validate_bgra_rejects_frame_larger_than_encoder() {
    let data = vec![0u8; 64];
    assert_eq!(validate_bgra(&data, 5, 2, 20, 4, 4), Err(FrameError::ExceedsEncoder));
}

#[test]
fn validate_bgra_rejects_short_stride() {
    let data = vec![0u8; 64];
    assert_eq!(validate_bgra(&data, 2, 2, 4, 4, 4), Err(FrameError::StrideTooSmall));
}

#[test]
fn validate_bgra_rejects_truncated_buffer() {
    let data = vec![0u8; 15];
    assert_eq!(validate_bgra(&data, 2, 2, 8, 4, 4), Err(FrameError::Truncated));
    assert_eq!(FrameError::Truncated.message(), "BGRA buffer is truncated");
}

#[test]
fn validate_bgra_rejects_overflowing_layout() {
    let data = vec![0u8; 16];
    let stride = usize::MAX / 2 + 1;
    assert_eq!(validate_bgra(&data, 1, 3, stride, 4, 4), Err(FrameError::BufferSizeOverflow));
}

#[test]
fn reset_i420_blackens_buffer() {
    let mut buf = vec![7u8; 12];
    reset_i420(&mut buf, 4, 2);
    assert_eq!(buf, vec![0, 0, 0, 0, 0, 0, 0, 0, 128, 128, 128, 128]);
}

#[test]
fn bgra_to_yuv420_padded_writes_only_visible_area() {
    let white = vec![255u8; 16];
    let mut yuv = vec![7u8; 12];
    bgra_to_yuv420_padded(&white, 2, 2, 8, 4, 2, &mut yuv);
    assert_eq!(yuv, vec![235, 235, 7, 7, 235, 235, 7, 7, 128, 7, 128, 7]);
}

#[test]
fn bgra_to_yuv420_padded_skips_missing_pixels() {
    // The second row is missing from the buffer.
    let white = vec![255u8; 8];
    let mut yuv = vec![7u8; 6];
    bgra_to_yuv420_padded(&white, 2, 2, 8, 2, 2, &mut yuv);
    assert_eq!(yuv, vec![235, 235, 7, 7, 128, 128]);
}

#[test]
fn copy_i420_padded_places_planes_at_encoder_pitch() {
    let src = vec![1, 2, 3, 4, 5, 6];
    let mut dst = vec![0u8; 12];
    copy_i420_padded(&src, 2, 2, &mut dst, 4, 2);
    assert_eq!(dst, vec![1, 2, 0, 0, 3, 4, 0, 0, 5, 0, 6, 0]);
}

#[test]
fn copy_plane_rows_spreads_rows() {
    let src = vec![1, 2, 3, 4];
    let mut dst = vec![0u8; 6];
    copy_plane_rows(&src, 0, 2, 2, &mut dst, 1, 3);
    assert_eq!(dst, vec![0, 1, 2, 0, 3, 4]);
}

#[test]
fn bgra_to_nv12_converts_blocks() {
    // White, black / black, white: luma per pixel, chroma of the averaged color.
    let data = vec![
        255, 255, 255, 255, 0, 0, 0, 255, //
        0, 0, 0, 255, 255, 255, 255, 255,
    ];
    let mut y = vec![9u8; 4];
    let mut uv = vec![9u8; 2];
    bgra_to_nv12_planes(&data, 2, 2, 8, 2, 2, &mut y, 2, &mut uv, 2);
    assert_eq!(y, vec![255, 0, 0, 255]);
    assert_eq!(uv, vec![128, 128]);
}

#[test]
fn bgra_to_nv12_fast_path_leaves_odd_edges() {
    let data = vec![255u8; 36];
    let mut y = vec![9u8; 16];
    let mut uv = vec![9u8; 4];
    bgra_to_nv12_planes(&data, 3, 3, 12, 4, 4, &mut y, 4, &mut uv, 4);
    assert_eq!(y, vec![255, 255, 9, 9, 255, 255, 9, 9, 9, 9, 9, 9, 9, 9, 9, 9]);
    assert_eq!(uv, vec![128, 128, 9, 9]);
}

#[test]
fn bgra_to_nv12_full_planes_covers_every_pixel() {
    let data = vec![255u8; 36];
    let mut y = vec![9u8; 16];
    let mut uv = vec![9u8; 4];
    bgra_to_nv12_full_planes(&data, 3, 3, 12, 4, 4, &mut y, 4, &mut uv, 4);
    assert_eq!(y, vec![255, 255, 255, 9, 255, 255, 255, 9, 255, 255, 255, 9, 9, 9, 9, 9]);
    assert_eq!(uv, vec![128, 128, 9, 9]);
}

#[test]
fn bgra_to_luma_rows_converts_row() {
    // Red then blue.
    let data = vec![0, 0, 255, 255, 255, 0, 0, 255];
    let mut y = vec![0u8; 3];
    bgra_to_luma_rows(&data, 1, 2, 8, &mut y, 3);
    assert_eq!(y, vec![76, 28, 0]);
}

#[test]
fn i420_to_nv12_interleaves_chroma() {
    let ys = vec![1, 2, 3, 4];
    let us = vec![5];
    let vs = vec![6];
    let mut y = vec![0u8; 6];
    let mut uv = vec![0u8; 2];
    i420_to_nv12_planes(2, 2, &ys, &us, &vs, &mut y, 3, &mut uv, 2);
    assert_eq!(y, vec![1, 2, 0, 3, 4, 0]);
    assert_eq!(uv, vec![5, 6]);
}
