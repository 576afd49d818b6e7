//! Tests of the format extractor: header parsing, text decoding, format
//! priority, and source-URL reconciliation.

use cutboard::extract::{
    decode_ansi_text, decode_unicode_text, extract_content, parse_html_payload, try_image,
    ClipboardFormats,
};

fn no_formats() -> ClipboardFormats {
    ClipboardFormats {
        html: None,
        unicode_text: None,
        ansi_text: None,
        png: None,
        dib_v5: None,
        dib: None,
    }
}

fn utf16(s: &str) -> Vec<u16> {
    s.encode_utf16().collect()
}

#[test]
fn html_header_source_url_and_fragment() {
    let payload = b"Version:0.9\r\nSourceURL: https://example.com/page\r\nStartFragment:96\r\nEndFragment:106\r\n<!--body-->HELLO HTML<!--end-->".to_vec();
    let (url, frag) = parse_html_payload(&payload);
    assert_eq!(url.as_deref(), Some("https://example.com/page"));
    assert_eq!(frag.as_deref(), Some("HELLO HTML"));
}

#[test]
fn html_header_without_source_url() {
    let payload = b"Version:0.9\r\nStartFragment:10\r\nEndFragment:12\r\n".to_vec();
    let (url, _) = parse_html_payload(&payload);
    assert!(url.is_none());
}

#[test]
fn html_fragment_rejects_reversed_offsets() {
    let payload = b"StartFragment:30\r\nEndFragment:20\r\nxxxxxxxxxxxxxxxx".to_vec();
    let (_, frag) = parse_html_payload(&payload);
    assert!(frag.is_none());
}

#[test]
fn html_fragment_rejects_blank_range() {
    let payload = b"StartFragment:36\r\nEndFragment:40\r\n      ".to_vec();
    let (_, frag) = parse_html_payload(&payload);
    assert!(frag.is_none());
}

#[test]
fn html_fragment_rejects_offsets_past_the_payload() {
    let payload = b"StartFragment:10\r\nEndFragment:9999\r\nbody".to_vec();
    let (_, frag) = parse_html_payload(&payload);
    assert!(frag.is_none());
}

#[test]
fn unicode_text_stops_at_terminator() {
    let mut units = utf16("hello");
    units.push(0);
    units.extend(utf16("junk"));
    assert_eq!(decode_unicode_text(&units).as_deref(), Some("hello"));
}

#[test]
fn ansi_text_valid_utf8_is_kept() {
    let bytes = "héllo".as_bytes().to_vec();
    assert_eq!(decode_ansi_text(&bytes).as_deref(), Some("héllo"));
}

#[test]
fn ansi_text_invalid_utf8_falls_back_to_byte_mapping() {
    // 0xE9 alone is invalid UTF-8; the fallback reads it as U+00E9.
    let bytes = vec![b'c', b'a', b'f', 0xE9];
    assert_eq!(decode_ansi_text(&bytes).as_deref(), Some("café"));
}

#[test]
fn ansi_text_stops_at_nul() {
    let bytes = vec![b'h', b'i', 0, b'x'];
    assert_eq!(decode_ansi_text(&bytes).as_deref(), Some("hi"));
}

#[test]
fn png_payload_with_magic_wins() {
    let mut f = no_formats();
    let png = vec![0x89, 0x50, 0x4E, 0x47, 0x0D, 0x0A, 0x1A, 0x0A, 0x00];
    f.png = Some(png.clone());
    assert_eq!(try_image(&f), Some(png));
}

#[test]
fn png_payload_without_magic_is_skipped() {
    let mut f = no_formats();
    f.png = Some(vec![1, 2, 3, 4, 5, 6, 7, 8, 9]);
    assert_eq!(try_image(&f), None);
}

#[test]
fn dib_fallback_produces_png() {
    let mut dib = vec![0u8; 40];
    dib[0..4].copy_from_slice(&40u32.to_le_bytes());
    dib[4..8].copy_from_slice(&1i32.to_le_bytes());
    dib[8..12].copy_from_slice(&(-1i32).to_le_bytes());
    dib[12..14].copy_from_slice(&1u16.to_le_bytes());
    dib[14..16].copy_from_slice(&32u16.to_le_bytes());
    dib.extend_from_slice(&[1, 2, 3, 255]);
    let mut f = no_formats();
    f.dib = Some(dib);
    let png = try_image(&f).expect("bitmap must decode");
    assert_eq!(&png[0..4], &[0x89, 0x50, 0x4E, 0x47]);
}

#[test]
fn newer_bitmap_format_is_tried_before_the_baseline_one() {
    // Two decodable bitmaps: the newer format's pixel must win.
    let mut v5 = vec![0u8; 40];
    v5[0..4].copy_from_slice(&40u32.to_le_bytes());
    v5[4..8].copy_from_slice(&1i32.to_le_bytes());
    v5[8..12].copy_from_slice(&(-1i32).to_le_bytes());
    v5[12..14].copy_from_slice(&1u16.to_le_bytes());
    v5[14..16].copy_from_slice(&32u16.to_le_bytes());
    let mut old = v5.clone();
    v5.extend_from_slice(&[10, 20, 30, 255]);
    old.extend_from_slice(&[90, 80, 70, 255]);
    let mut f = no_formats();
    f.dib_v5 = Some(v5);
    f.dib = Some(old);
    let png = try_image(&f).expect("the newer bitmap must decode");
    let img = image::load_from_memory(&png).unwrap().to_rgba8();
    assert_eq!(img.get_pixel(0, 0).0, [30, 20, 10, 255]);
}

#[test]
fn text_takes_priority_over_image() {
    let mut f = no_formats();
    f.unicode_text = Some(utf16("some text"));
    f.png = Some(vec![0x89, 0x50, 0x4E, 0x47, 0x0D, 0x0A, 0x1A, 0x0A, 0x00]);
    let c = extract_content(&f);
    assert_eq!(c.text.as_deref(), Some("some text"));
    assert!(c.image.is_none());
}

#[test]
fn blank_text_lets_image_through() {
    let mut f = no_formats();
    f.unicode_text = Some(utf16("   \n\t"));
    f.png = Some(vec![0x89, 0x50, 0x4E, 0x47, 0x0D, 0x0A, 0x1A, 0x0A, 0x00]);
    let c = extract_content(&f);
    assert!(c.image.is_some());
}

#[test]
fn ansi_fallback_used_when_unicode_absent() {
    let mut f = no_formats();
    f.ansi_text = Some(b"legacy".to_vec());
    let c = extract_content(&f);
    assert_eq!(c.text.as_deref(), Some("legacy"));
}

#[test]
fn non_http_header_url_is_discarded() {
    // A SourceURL of ftp://x is no HTTP(S) URL and must be dropped.
    let mut f = no_formats();
    f.html = Some(b"SourceURL: ftp://x\r\nStartFragment:46\r\nEndFragment:50\r\nbody".to_vec());
    let c = extract_content(&f);
    assert!(c.source_url.is_none());
}

#[test]
fn http_header_url_is_kept() {
    let mut f = no_formats();
    f.html = Some(b"SourceURL: http://example.com/a\r\n".to_vec());
    let c = extract_content(&f);
    assert_eq!(c.source_url.as_deref(), Some("http://example.com/a"));
}

#[test]
fn single_line_url_text_becomes_source_url() {
    // Plain URL text with no HTML header is adopted as the source URL.
    let mut f = no_formats();
    f.unicode_text = Some(utf16("  https://example.com/page  "));
    let c = extract_content(&f);
    assert_eq!(c.source_url.as_deref(), Some("https://example.com/page"));
}

#[test]
fn multi_line_url_text_is_not_adopted() {
    let mut f = no_formats();
    f.unicode_text = Some(utf16("https://example.com\nsecond line"));
    let c = extract_content(&f);
    assert!(c.source_url.is_none());
}

#[test]
fn non_url_text_gives_no_source_url() {
    let mut f = no_formats();
    f.unicode_text = Some(utf16("just some words"));
    let c = extract_content(&f);
    assert!(c.source_url.is_none());
}

#[test]
fn empty_clipboard_gives_empty_bundle() {
    let c = extract_content(&no_formats());
    assert!(c.text.is_none());
    assert!(c.image.is_none());
    assert!(c.source_url.is_none());
    assert!(c.html.is_none());
}

#[test]
fn lossy_fragment_replaces_invalid_bytes() {
    // The fragment decoder is lenient: a stray 0xFF becomes U+FFFD.
    let mut payload = b"StartFragment:38\r\nEndFragment:41\r\n    a".to_vec();
    payload.push(0xFF);
    payload.push(b'b');
    let (_, frag) = parse_html_payload(&payload);
    assert_eq!(frag.as_deref(), Some("a\u{FFFD}b"));
}
