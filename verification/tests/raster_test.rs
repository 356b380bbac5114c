use thermal_printer_rs::errors::PrinterError;
use thermal_printer_rs::raster::{_dither_and_encode, encode_raster_image};

fn rgba(w: usize, h: usize, pixel: [u8; 4]) -> Vec<u8> {
    let mut v = Vec::with_capacity(w * h * 4);
    for _ in 0..(w * h) {
        v.extend_from_slice(&pixel);
    }
    v
}

fn config_message(r: Result<Vec<u8>, PrinterError>) -> String {
    match r {
        Err(PrinterError::InvalidConfig(m)) => m,
        other => panic!("expected a configuration error, got {other:?}"),
    }
}

#[test]
fn dither_header_and_length() {
    let (w, h) = (16, 4);
    let cmd = _dither_and_encode(&rgba(w, h, [0, 0, 0, 255]), w, h).unwrap();
    let bpl = w.div_ceil(8);
    assert_eq!(cmd.len(), 8 + bpl * h);
    assert_eq!(&cmd[0..4], &[0x1D, 0x76, 0x30, 0x00]);
    assert_eq!(cmd[4] as usize, bpl);
    assert_eq!(cmd[6] as usize, h);
}

#[test]
fn dither_all_black_sets_all_bits() {
    let (w, h) = (16, 2);
    let cmd = _dither_and_encode(&rgba(w, h, [0, 0, 0, 255]), w, h).unwrap();
    for &b in &cmd[8..] {
        assert_eq!(b, 0xFF, "black pixel must set every bit");
    }
}

#[test]
fn dither_all_white_clears_all_bits() {
    let (w, h) = (16, 2);
    let cmd = _dither_and_encode(&rgba(w, h, [255, 255, 255, 255]), w, h).unwrap();
    for &b in &cmd[8..] {
        assert_eq!(b, 0x00, "white pixel must clear every bit");
    }
}

#[test]
fn dither_non_multiple_of_8_pads_row() {
    // width 10 → 2 bytes/line; the trailing byte keeps only its top 2 bits.
    let (w, h) = (10, 1);
    let cmd = _dither_and_encode(&rgba(w, h, [0, 0, 0, 255]), w, h).unwrap();
    assert_eq!(cmd.len(), 8 + 2);
    assert_eq!(cmd[8], 0xFF);
    assert_eq!(cmd[9], 0b1100_0000);
}

#[test]
fn dither_rejects_huge_dimensions() {
    assert!(_dither_and_encode(&[], 99_999, 1).is_err());
    assert!(_dither_and_encode(&[], 1, 99_999).is_err());
}

#[test]
fn dither_zero_dimension_message() {
    let m = config_message(_dither_and_encode(&[], 0, 5));
    assert_eq!(m, "Raster image width and height must be > 0");
    let m = config_message(_dither_and_encode(&[], 5, 0));
    assert_eq!(m, "Raster image width and height must be > 0");
}

#[test]
fn dither_overflow_message() {
    let m = config_message(_dither_and_encode(&[], usize::MAX / 2, 3));
    assert_eq!(m, "Raster image dimensions overflow");
}

#[test]
fn dither_short_buffer_message() {
    let m = config_message(_dither_and_encode(&[0u8; 10], 2, 2));
    assert_eq!(m, "RGBA buffer too small: need 16 bytes, got 10");
    let m = config_message(_dither_and_encode(&[], 99_999, 1));
    assert_eq!(m, "RGBA buffer too small: need 399996 bytes, got 0");
}

#[test]
fn dither_dimension_limit_message() {
    let w = 8193;
    let m = config_message(_dither_and_encode(&rgba(w, 1, [0, 0, 0, 255]), w, 1));
    assert_eq!(m, "Raster image dimensions exceed 8192×8192");
}

#[test]
fn dither_header_little_endian_fields() {
    // 2000 px wide → 250 bytes per line; 300 lines → 0x012C.
    let (w, h) = (2000, 300);
    let cmd = _dither_and_encode(&rgba(w, h, [255, 255, 255, 255]), w, h).unwrap();
    assert_eq!(&cmd[4..8], &[250, 0, 0x2C, 0x01]);
    assert_eq!(cmd.len(), 8 + 250 * 300);
}

#[test]
fn dither_transparent_pixels_print_white() {
    let (w, h) = (8, 1);
    let cmd = _dither_and_encode(&rgba(w, h, [0, 0, 0, 0]), w, h).unwrap();
    assert_eq!(cmd[8], 0x00);
}

#[test]
fn dither_mid_gray_diffuses_error() {
    // Gray 128 on a single row: the first pixel prints white (128 >= 128)
    // with error -127, pushing the next pixel below the threshold.
    let (w, h) = (8, 1);
    let cmd = _dither_and_encode(&rgba(w, h, [128, 128, 128, 255]), w, h).unwrap();
    // Levels: 128 → white (err -127, next gets -55 → 73), 73 → black (err 73,
    // next gets +31 → 159), 159 → white (err -96, next -42 → 86), 86 → black
    // (err 86, next +37 → 165), 165 → white (err -90, next -39 → 89),
    // 89 → black (err 89, next +38 → 166), 166 → white (err -89, next -38 → 90),
    // 90 → black.
    assert_eq!(cmd[8], 0b0101_0101);
}

#[test]
fn raster_image_bad_input_is_empty() {
    assert!(encode_raster_image(vec![], 0, 1).is_empty());
    assert!(encode_raster_image(vec![0; 16], -1, 1).is_empty());
}

#[test]
fn raster_image_matches_encoder() {
    let pixels = rgba(16, 2, [0, 0, 0, 255]);
    let direct = _dither_and_encode(&pixels, 16, 2).unwrap();
    assert_eq!(encode_raster_image(pixels, 16, 2), direct);
}

#[test]
fn later_rows_do_not_change_earlier_lines() {
    // 10 x 3 mid-gray image; the second differs only in its last row and in
    // bytes past the last pixel.
    let (w, h) = (10usize, 3usize);
    let a = rgba(w, h, [100, 100, 100, 255]);
    let mut b = a.clone();
    for i in (2 * w * 4)..(3 * w * 4) {
        b[i] = 255;
    }
    b.extend_from_slice(&[1, 2, 3, 4]);
    let ca = _dither_and_encode(&a, w, h).unwrap();
    let cb = _dither_and_encode(&b, w, h).unwrap();
    let bpl = 2;
    assert_eq!(&ca[..8 + 2 * bpl], &cb[..8 + 2 * bpl]);
    assert_ne!(ca, cb);
}
