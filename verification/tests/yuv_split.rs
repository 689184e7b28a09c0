use macrdp::yuv444_split::{
    bgra_pixel_to_yuv_full, bgra_to_yuv444, bgra_to_yuv444_padded, clamp_to_byte, yuv444_split_to_yuv420,
    Yuv420Frame,
};

#[test]
fn yuv420_frame_new_is_black() {
    let f = Yuv420Frame::new(4, 2);
    assert_eq!(f.y, vec![0u8; 8]);
    assert_eq!(f.u, vec![128u8; 2]);
    assert_eq!(f.v, vec![128u8; 2]);
    assert_eq!((f.width, f.height), (4, 2));
}

#[test]
fn ensure_size_resizes_and_resets_planes() {
    let mut f = Yuv420Frame::new(2, 2);
    f.y[0] = 9;
    f.u[0] = 1;
    f.ensure_size(4, 4);
    assert_eq!(f.y, vec![0u8; 16]);
    assert_eq!(f.u, vec![128u8; 4]);
    assert_eq!(f.v, vec![128u8; 4]);
    assert_eq!((f.width, f.height), (4, 4));
}

#[test]
fn ensure_size_same_size_only_resets() {
    let mut f = Yuv420Frame::new(4, 4);
    f.y[3] = 200;
    f.v[1] = 7;
    f.ensure_size(4, 4);
    assert_eq!(f.y, vec![0u8; 16]);
    assert_eq!(f.v, vec![128u8; 4]);
}

#[test]
fn ensure_size_resizes_separately_resized_v_plane() {
    let mut f = Yuv420Frame::new(4, 4);
    f.v.push(7);
    f.ensure_size(4, 4);
    assert_eq!(f.u, vec![128u8; 4]);
    assert_eq!(f.v, vec![128u8; 4]);
}

#[test]
fn clamp_to_byte_bounds() {
    assert_eq!(clamp_to_byte(-5), 0);
    assert_eq!(clamp_to_byte(0), 0);
    assert_eq!(clamp_to_byte(200), 200);
    assert_eq!(clamp_to_byte(300), 255);
}

#[test]
fn full_range_pixel_values() {
    assert_eq!(bgra_pixel_to_yuv_full(255, 255, 255), (255, 128, 128));
    assert_eq!(bgra_pixel_to_yuv_full(0, 0, 0), (0, 128, 128));
    // Pure red, blue and green, with the floor shift of negative sums.
    assert_eq!(bgra_pixel_to_yuv_full(0, 0, 255), (76, 85, 255));
    assert_eq!(bgra_pixel_to_yuv_full(255, 0, 0), (28, 255, 107));
    assert_eq!(bgra_pixel_to_yuv_full(0, 255, 0), (149, 43, 21));
}

#[test]
fn bgra_to_yuv444_converts_each_pixel() {
    // Two pixels (red, blue) followed by padding up to the 12-byte stride.
    let bgra = vec![0, 0, 255, 255, 255, 0, 0, 255, 9, 9, 9, 9];
    let mut y = vec![1u8; 3];
    let mut u = vec![1u8; 3];
    let mut v = vec![1u8; 3];
    bgra_to_yuv444(&bgra, 2, 1, 12, &mut y, &mut u, &mut v);
    assert_eq!(y, vec![76, 28, 1]);
    assert_eq!(u, vec![85, 255, 1]);
    assert_eq!(v, vec![255, 107, 1]);
}

#[test]
fn bgra_to_yuv444_padded_keeps_pitch_and_black_border() {
    // A 1x1 white frame into 2x2 planes.
    let bgra = vec![255, 255, 255, 255];
    let mut y = vec![9u8; 4];
    let mut u = vec![9u8; 4];
    let mut v = vec![9u8; 4];
    bgra_to_yuv444_padded(&bgra, 1, 1, 4, 2, &mut y, &mut u, &mut v);
    assert_eq!(y, vec![255, 0, 0, 0]);
    assert_eq!(u, vec![128, 128, 128, 128]);
    assert_eq!(v, vec![128, 128, 128, 128]);
}

#[test]
fn split_main_view_averages_chroma() {
    let y444 = vec![1, 2, 3, 4];
    let u444 = vec![10, 20, 30, 40];
    let v444 = vec![50, 60, 70, 81];
    let mut main = Yuv420Frame::new(2, 2);
    let mut aux = Yuv420Frame::new(2, 2);
    yuv444_split_to_yuv420(&y444, &u444, &v444, 2, 2, &mut main, &mut aux);
    assert_eq!(main.y, vec![1, 2, 3, 4]);
    assert_eq!(main.u, vec![25]);
    // (50 + 60 + 70 + 81) / 4 rounds down.
    assert_eq!(main.v, vec![65]);
}

#[test]
fn split_aux_view_carries_odd_rows_and_columns() {
    let y444 = vec![1, 2, 3, 4];
    let u444 = vec![10, 20, 30, 40];
    let v444 = vec![50, 60, 70, 80];
    let mut main = Yuv420Frame::new(2, 2);
    let mut aux = Yuv420Frame::new(2, 2);
    yuv444_split_to_yuv420(&y444, &u444, &v444, 2, 2, &mut main, &mut aux);
    // Row 0 of the auxiliary luma holds U row 1; row 1 would hold U row 3,
    // which is past the frame.
    assert_eq!(aux.y, vec![30, 40, 0, 0]);
    assert_eq!(aux.u, vec![20]);
    assert_eq!(aux.v, vec![60]);
}

#[test]
fn split_aux_view_interleaves_v_rows_in_second_half_of_block() {
    // 2 wide, 18 high: auxiliary row 8 carries V row 1.
    let w = 2usize;
    let h = 18usize;
    let y444 = vec![0u8; w * h];
    let u444: Vec<u8> = (0..w * h).map(|i| i as u8).collect();
    let v444: Vec<u8> = (0..w * h).map(|i| 100 + i as u8).collect();
    let mut main = Yuv420Frame::new(2, 18);
    let mut aux = Yuv420Frame::new(2, 18);
    yuv444_split_to_yuv420(&y444, &u444, &v444, 2, 18, &mut main, &mut aux);
    // Row 0: U row 1; row 1: U row 3; row 8: V row 1; row 16: U row 17.
    assert_eq!(&aux.y[0..2], &[2, 3]);
    assert_eq!(&aux.y[2..4], &[6, 7]);
    assert_eq!(&aux.y[16..18], &[102, 103]);
    assert_eq!(&aux.y[32..34], &[34, 35]);
}
