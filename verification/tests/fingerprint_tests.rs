//! Tests of the content fingerprint and the duplicate filter.

use cutboard::fingerprint::{compute_content_hash, DedupFilter};

#[test]
fn empty_input_gives_offset_basis() {
    // FNV-1a of no bytes is the offset basis.
    assert_eq!(compute_content_hash(b""), "cbf29ce484222325");
}

#[test]
fn single_byte_known_value() {
    // The classic FNV-1a test vector for "a".
    assert_eq!(compute_content_hash(b"a"), "af63dc4c8601ec8c");
}

#[test]
fn digest_is_sixteen_lowercase_hex_digits() {
    let d = compute_content_hash(b"hello world");
    assert_eq!(d.len(), 16);
    assert!(d.chars().all(|c| c.is_ascii_hexdigit() && !c.is_ascii_uppercase()));
}

#[test]
fn equal_bytes_give_equal_digests() {
    let a = compute_content_hash("some clipboard text".as_bytes());
    let b = compute_content_hash("some clipboard text".as_bytes());
    assert_eq!(a, b);
}

#[test]
fn regression_corpus_has_no_collisions() {
    let corpus: Vec<&[u8]> = vec![
        b"",
        b"a",
        b"b",
        b"ab",
        b"ba",
        b"hello",
        b"hello ",
        b"Hello",
        b"https://example.com",
        b"https://example.com/",
        b"\x00",
        b"\x00\x00",
        b"\xff\xfe\xfd",
        b"the quick brown fox",
        b"the quick brown fox.",
    ];
    let digests: Vec<String> = corpus.iter().map(|b| compute_content_hash(b)).collect();
    for i in 0..digests.len() {
        for j in 0..digests.len() {
            if i != j {
                assert_ne!(digests[i], digests[j], "collision between corpus entries");
            }
        }
    }
}

#[test]
fn dedup_is_last_value_only() {
    // The sequence [A, A, B, A] must yield [false, true, false, false].
    let a = compute_content_hash(b"A");
    let b = compute_content_hash(b"B");
    let mut filter = DedupFilter::new();
    assert_eq!(filter.should_suppress(&a), false);
    assert_eq!(filter.should_suppress(&a), true);
    assert_eq!(filter.should_suppress(&b), false);
    assert_eq!(filter.should_suppress(&a), false);
}

#[test]
fn fresh_filter_never_suppresses_first_digest() {
    let mut filter = DedupFilter::new();
    assert!(!filter.should_suppress(&compute_content_hash(b"")));
}
