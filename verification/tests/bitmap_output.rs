use macrdp::bgra::{copy_bgra_rows, yuv420_to_bgra};
use macrdp::bitmap_encoder::{BitmapEncoder, BitmapError, BitmapUpdate, PixelFormat};
use macrdp::yuv444_split::Yuv420Frame;

#[test]
fn black_i420_converts_to_black_bgra() {
    let mut f = Yuv420Frame::new(2, 2);
    f.y = vec![16; 4];
    let bgra = yuv420_to_bgra(&f);
    assert_eq!(bgra, vec![0, 0, 0, 255, 0, 0, 0, 255, 0, 0, 0, 255, 0, 0, 0, 255]);
}

#[test]
fn white_and_red_i420_convert_back() {
    let mut f = Yuv420Frame::new(2, 2);
    // Limited-range white, then a red block.
    f.y = vec![235, 235, 235, 235];
    f.u = vec![128];
    f.v = vec![128];
    assert_eq!(&yuv420_to_bgra(&f)[0..4], &[255, 255, 255, 255]);
    f.y = vec![82; 4];
    f.u = vec![90];
    f.v = vec![240];
    let px = yuv420_to_bgra(&f);
    assert_eq!(&px[0..4], &[0, 1, 255, 255]);
}

#[test]
fn missing_samples_read_as_black() {
    let f = Yuv420Frame { y: vec![], u: vec![], v: vec![], width: 1, height: 1 };
    assert_eq!(yuv420_to_bgra(&f), vec![0, 0, 0, 255]);
}

#[test]
fn bgra_rows_are_copied_at_buffer_pitch() {
    let data: Vec<u8> = (0..16).collect();
    let mut dst = vec![0u8; 20];
    copy_bgra_rows(&mut dst, 10, 2, &data, 2, 2, 8);
    assert_eq!(&dst[0..10], &[0, 1, 2, 3, 4, 5, 6, 7, 0, 0]);
    assert_eq!(&dst[10..20], &[8, 9, 10, 11, 12, 13, 14, 15, 0, 0]);
}

#[test]
fn bgra_rows_past_data_are_skipped_and_rows_truncated_to_pitch() {
    let data: Vec<u8> = (1..=12).collect();
    let mut dst = vec![0u8; 12];
    // Rows of 8 bytes cut to the 6-byte pitch; the second row is short of data.
    copy_bgra_rows(&mut dst, 6, 2, &data, 2, 2, 8);
    assert_eq!(dst, vec![1, 2, 3, 4, 5, 6, 0, 0, 0, 0, 0, 0]);
}

fn bitmap(width: u16, height: u16, stride: usize, data: Vec<u8>) -> BitmapUpdate {
    BitmapUpdate { x: 10, y: 20, width, height, format: PixelFormat::BgrX32, data, stride }
}

fn le16(bytes: &[u8], at: usize) -> u16 {
    u16::from_le_bytes([bytes[at], bytes[at + 1]])
}

#[test]
fn bitmap_update_layout() {
    let mut enc = BitmapEncoder::new();
    let mut out = vec![0u8; 4096];
    let bmp = bitmap(3, 2, 12, vec![0x40; 24]);
    let n = enc.encode(&bmp, &mut out).unwrap();
    // Header: update type 1, one rectangle.
    assert_eq!(le16(&out, 0), 1);
    assert_eq!(le16(&out, 2), 1);
    // Rectangle: left, top, right, bottom; then the padded width, height, 32 bpp.
    assert_eq!((le16(&out, 4), le16(&out, 6), le16(&out, 8), le16(&out, 10)), (10, 20, 12, 21));
    assert_eq!((le16(&out, 12), le16(&out, 14), le16(&out, 16)), (4, 2, 32));
    // Compressed, with a body of the stream plus its 8-byte header.
    assert_eq!(le16(&out, 18), 1);
    let body = le16(&out, 20) as usize;
    assert_eq!(n, 4 + 18 + body);
    // Compressed data header: first row size 0, main body, scan width, uncompressed size.
    assert_eq!(le16(&out, 22), 0);
    assert_eq!(le16(&out, 24) as usize, body - 8);
    assert_eq!(le16(&out, 26), 4);
    assert_eq!(le16(&out, 28), 32);
}

#[test]
fn tall_bitmaps_are_split_into_chunks() {
    let mut enc = BitmapEncoder::new();
    let width = 8192u16;
    let height = 3u16;
    let stride = width as usize * 4;
    let bmp = bitmap(width, height, stride, vec![0; stride * height as usize]);
    let mut out = vec![0u8; 1 << 20];
    let n = enc.encode(&BitmapUpdate { x: 0, y: 0, ..bmp }, &mut out).unwrap();
    // 65535 / (8192 * 4) = 1 row per chunk.
    assert_eq!(le16(&out, 2), 3);
    assert!(n > 4);
}

#[test]
fn bitmap_geometry_errors() {
    let mut enc = BitmapEncoder::new();
    let mut out = vec![0u8; 64];
    let wide = bitmap(16384, 1, 65536, vec![0; 65536]);
    assert!(matches!(enc.encode(&BitmapUpdate { x: 0, ..wide }, &mut out), Err(BitmapError::ScanlineTooWide)));
    let widest = bitmap(65534, 1, 262136, vec![]);
    assert!(matches!(enc.encode(&BitmapUpdate { x: 0, ..widest }, &mut out), Err(BitmapError::AlignedWidthTooLarge)));
    let short_stride = bitmap(4, 2, 8, vec![0; 64]);
    assert!(matches!(enc.encode(&short_stride, &mut out), Err(BitmapError::InvalidLayout)));
    let truncated = bitmap(4, 2, 16, vec![0; 31]);
    assert!(matches!(enc.encode(&truncated, &mut out), Err(BitmapError::InvalidLayout)));
    // Refused layouts leave the output untouched.
    let mut marked = vec![0xA5u8; 64];
    assert!(enc.encode(&truncated, &mut marked).is_err());
    assert_eq!(marked, vec![0xA5u8; 64]);
}

#[test]
fn small_output_is_refused() {
    let mut enc = BitmapEncoder::new();
    let bmp = bitmap(4, 1, 16, vec![0; 16]);
    let mut tiny = vec![0u8; 1];
    assert!(matches!(enc.encode(&bmp, &mut tiny), Err(BitmapError::Pdu(_))));
    let mut header_only = vec![0u8; 10];
    assert!(matches!(enc.encode(&bmp, &mut header_only), Err(BitmapError::Pdu(_))));
}
