//! Tests of the raw-bitmap decoder: round trips, row ordering, padding,
//! bit depths, and the header bounds rejection.

use cutboard::dib::{decode_dib, dib_to_png, encode_dib32, Raster};

fn dib_header(width: i32, height: i32, bit_count: u16, compression: u32) -> Vec<u8> {
    let mut h = vec![0u8; 40];
    h[0..4].copy_from_slice(&40u32.to_le_bytes());
    h[4..8].copy_from_slice(&width.to_le_bytes());
    h[8..12].copy_from_slice(&height.to_le_bytes());
    h[12..14].copy_from_slice(&1u16.to_le_bytes());
    h[14..16].copy_from_slice(&bit_count.to_le_bytes());
    h[16..20].copy_from_slice(&compression.to_le_bytes());
    h
}

#[test]
fn solid_32bit_top_down_decodes_to_solid_raster() {
    let (w, h) = (4u32, 3u32);
    let mut dib = dib_header(w as i32, -(h as i32), 32, 0);
    for _ in 0..(w * h) {
        // BGRA with opaque alpha.
        dib.extend_from_slice(&[10, 20, 30, 255]);
    }
    let raster = decode_dib(&dib).expect("header must be accepted");
    assert_eq!(raster.width, w);
    assert_eq!(raster.height, h);
    assert_eq!(raster.pixels.len(), (w * h * 4) as usize);
    for px in raster.pixels.chunks(4) {
        assert_eq!(px, &[30, 20, 10, 255]);
    }
}

#[test]
fn solid_32bit_round_trip_through_png() {
    let (w, h) = (5u32, 4u32);
    let mut dib = dib_header(w as i32, -(h as i32), 32, 0);
    for _ in 0..(w * h) {
        dib.extend_from_slice(&[1, 2, 3, 255]);
    }
    let png = dib_to_png(&dib).expect("decode and encode must succeed");
    let img = image::load_from_memory(&png).expect("valid PNG").to_rgba8();
    assert_eq!(img.width(), w);
    assert_eq!(img.height(), h);
    for p in img.pixels() {
        assert_eq!(p.0, [3, 2, 1, 255]);
    }
}

#[test]
fn bottom_up_24bit_rows_are_reordered_with_padding() {
    // Width three: nine row bytes, padded to twelve.
    let (w, h) = (3u32, 2u32);
    let mut dib = dib_header(w as i32, h as i32, 24, 0);
    // Stored first row is the bottom image row (BGR + padding).
    dib.extend_from_slice(&[9, 8, 7, 9, 8, 7, 9, 8, 7, 0, 0, 0]);
    dib.extend_from_slice(&[1, 2, 3, 1, 2, 3, 1, 2, 3, 0, 0, 0]);
    let raster = decode_dib(&dib).expect("header must be accepted");
    // The output is top-down: the second stored row comes first.
    for x in 0..w as usize {
        assert_eq!(&raster.pixels[x * 4..x * 4 + 4], &[3, 2, 1, 255]);
    }
    let row2 = (w * 4) as usize;
    for x in 0..w as usize {
        assert_eq!(&raster.pixels[row2 + x * 4..row2 + x * 4 + 4], &[7, 8, 9, 255]);
    }
}

#[test]
fn bottom_up_24bit_round_trip_through_png() {
    let (w, h) = (3u32, 2u32);
    let mut dib = dib_header(w as i32, h as i32, 24, 0);
    dib.extend_from_slice(&[9, 8, 7, 9, 8, 7, 9, 8, 7, 0, 0, 0]);
    dib.extend_from_slice(&[1, 2, 3, 1, 2, 3, 1, 2, 3, 0, 0, 0]);
    let raster = decode_dib(&dib).unwrap();
    let png = dib_to_png(&dib).expect("decode and encode must succeed");
    let img = image::load_from_memory(&png).unwrap().to_rgba8();
    assert_eq!(img.as_raw().as_slice(), raster.pixels.as_slice());
}

#[test]
fn oversized_width_is_rejected() {
    // A claimed width of five thousand must be rejected outright.
    let mut dib = dib_header(5000, 10, 32, 0);
    dib.extend_from_slice(&[0; 64]);
    assert!(decode_dib(&dib).is_none());
    assert!(dib_to_png(&dib).is_none());
}

#[test]
fn oversized_height_is_rejected() {
    let dib = dib_header(10, 5000, 32, 0);
    assert!(decode_dib(&dib).is_none());
}

#[test]
fn zero_height_is_rejected() {
    let dib = dib_header(10, 0, 32, 0);
    assert!(decode_dib(&dib).is_none());
}

#[test]
fn negative_width_is_rejected() {
    let dib = dib_header(-10, 10, 32, 0);
    assert!(decode_dib(&dib).is_none());
}

#[test]
fn short_buffer_is_rejected() {
    let dib = vec![0u8; 39];
    assert!(decode_dib(&dib).is_none());
}

#[test]
fn unsupported_compression_is_rejected() {
    let mut dib = dib_header(2, 2, 32, 1);
    dib.extend_from_slice(&[0; 16]);
    assert!(decode_dib(&dib).is_none());
}

#[test]
fn unsupported_bit_depth_is_rejected() {
    let mut dib = dib_header(2, 2, 12, 0);
    dib.extend_from_slice(&[0; 16]);
    assert!(decode_dib(&dib).is_none());
}

#[test]
fn zero_alpha_is_normalized_to_opaque() {
    // Many producers store zero alpha meaning opaque.
    let mut dib = dib_header(1, -1, 32, 0);
    dib.extend_from_slice(&[5, 6, 7, 0]);
    let raster = decode_dib(&dib).unwrap();
    assert_eq!(raster.pixels, vec![7, 6, 5, 255]);
}

#[test]
fn nonzero_alpha_is_kept() {
    let mut dib = dib_header(1, -1, 32, 0);
    dib.extend_from_slice(&[5, 6, 7, 128]);
    let raster = decode_dib(&dib).unwrap();
    assert_eq!(raster.pixels, vec![7, 6, 5, 128]);
}

#[test]
fn sixteen_bit_five_five_five_rescales_linearly() {
    // One pixel, full red in 5-5-5: red 31, green 0, blue 16.
    let value: u16 = (31 << 10) | (0 << 5) | 16;
    let mut dib = dib_header(1, -1, 16, 0);
    dib.extend_from_slice(&value.to_le_bytes());
    dib.extend_from_slice(&[0, 0]);
    let raster = decode_dib(&dib).unwrap();
    assert_eq!(raster.pixels, vec![255, 0, (16u32 * 255 / 31) as u8, 255]);
}

#[test]
fn eight_bit_palette_lookup() {
    // Two palette entries; pixels select them by index.
    let mut dib = dib_header(2, -1, 8, 0);
    dib[32..36].copy_from_slice(&2u32.to_le_bytes());
    dib.extend_from_slice(&[200, 100, 50, 0]);
    dib.extend_from_slice(&[20, 10, 5, 0]);
    dib.extend_from_slice(&[0, 1, 0, 0]);
    let raster = decode_dib(&dib).unwrap();
    assert_eq!(&raster.pixels[0..4], &[50, 100, 200, 255]);
    assert_eq!(&raster.pixels[4..8], &[5, 10, 20, 255]);
}

#[test]
fn eight_bit_truncated_palette_is_rejected() {
    let mut dib = dib_header(2, -1, 8, 0);
    dib[32..36].copy_from_slice(&2u32.to_le_bytes());
    dib.extend_from_slice(&[200, 100, 50, 0]);
    // Second palette entry and pixel rows missing.
    assert!(decode_dib(&dib).is_none());
}

#[test]
fn short_pixel_rows_decode_as_transparent_black() {
    // Top-down, two rows claimed, but only one row of data present: the
    // missing row must come out as zeros, not a fault.
    let mut dib = dib_header(1, -2, 32, 0);
    dib.extend_from_slice(&[1, 2, 3, 255]);
    let raster = decode_dib(&dib).unwrap();
    assert_eq!(&raster.pixels[0..4], &[3, 2, 1, 255]);
    assert_eq!(&raster.pixels[4..8], &[0, 0, 0, 0]);
}

#[test]
fn encode_then_decode_restores_the_raster() {
    let raster = Raster {
        width: 2,
        height: 2,
        pixels: vec![
            1, 2, 3, 255, 4, 5, 6, 200, //
            7, 8, 9, 150, 10, 11, 12, 100,
        ],
    };
    let dib = encode_dib32(&raster);
    let back = decode_dib(&dib).expect("own encoding must decode");
    assert_eq!(back.width, 2);
    assert_eq!(back.height, 2);
    assert_eq!(back.pixels, raster.pixels);
}
