//! Tests of the change monitor: debounce coalescing, self-suppression,
//! self-origin discarding, and the classification of settled events.

use cutboard::extract::ExtractedContent;
use cutboard::monitor::{Monitor, Outcome, SettleDecision};
use cutboard::types::AppWindowInfo;

fn ctx(name: &str) -> AppWindowInfo {
    AppWindowInfo {
        name: name.to_string(),
        exe_path: format!("C:/apps/{}.exe", name),
        icon_base64: None,
        is_self: false,
    }
}

fn self_ctx() -> AppWindowInfo {
    AppWindowInfo {
        name: "own-window".to_string(),
        exe_path: "C:/apps/own.exe".to_string(),
        icon_base64: None,
        is_self: true,
    }
}

fn text_content(t: &str) -> ExtractedContent {
    ExtractedContent {
        text: Some(t.to_string()),
        image: None,
        source_url: None,
        html: None,
    }
}

fn empty_content() -> ExtractedContent {
    ExtractedContent { text: None, image: None, source_url: None, html: None }
}

#[test]
fn burst_of_signals_settles_once_with_last_context() {
    // Several raw signals within the window; the settled event must use
    // the identity captured at the last one.
    let mut m = Monitor::new();
    m.on_raw_signal(Some(ctx("first")));
    m.on_raw_signal(Some(ctx("second")));
    m.on_raw_signal(Some(ctx("third")));
    match m.begin_settled(None) {
        SettleDecision::Proceed(c) => assert_eq!(c.name, "third"),
        _ => panic!("expected the event to proceed"),
    }
    // The pending slot was consumed: a second settle without a new signal
    // has no stored context left.
    match m.begin_settled(None) {
        SettleDecision::DiscardNoContext => {},
        _ => panic!("expected no context on the second settle"),
    }
}

#[test]
fn missing_identity_keeps_earlier_context() {
    let mut m = Monitor::new();
    m.on_raw_signal(Some(ctx("app")));
    m.on_raw_signal(None);
    match m.begin_settled(None) {
        SettleDecision::Proceed(c) => assert_eq!(c.name, "app"),
        _ => panic!("expected the earlier context to survive"),
    }
}

#[test]
fn fallback_context_fills_empty_slot() {
    let mut m = Monitor::new();
    m.on_raw_signal(None);
    match m.begin_settled(Some(ctx("late"))) {
        SettleDecision::Proceed(c) => assert_eq!(c.name, "late"),
        _ => panic!("expected the fallback context"),
    }
}

#[test]
fn self_write_flag_discards_one_event_then_clears() {
    // Setting the ignore flag consumes exactly one settled event; the next
    // fires normally without re-setting it.
    let mut m = Monitor::new();
    m.set_ignore_next();
    m.on_raw_signal(Some(ctx("editor")));
    match m.begin_settled(None) {
        SettleDecision::DiscardSelfWrite => {},
        _ => panic!("expected the self-write discard"),
    }
    m.on_raw_signal(Some(ctx("editor")));
    match m.begin_settled(None) {
        SettleDecision::Proceed(c) => assert_eq!(c.name, "editor"),
        _ => panic!("expected the second event to fire"),
    }
}

#[test]
fn self_originated_event_is_discarded() {
    let mut m = Monitor::new();
    m.on_raw_signal(Some(self_ctx()));
    match m.begin_settled(None) {
        SettleDecision::DiscardSelfOrigin => {},
        _ => panic!("expected the self-origin discard"),
    }
}

#[test]
fn text_entry_is_classified_and_repeat_suppressed() {
    let mut m = Monitor::new();
    match m.classify_settled(text_content("hello"), "en") {
        Outcome::Entry(e) => {
            assert_eq!(e.text.as_deref(), Some("hello"));
            assert!(e.image_bytes.is_none());
            assert!(!e.is_sensitive);
        },
        _ => panic!("expected a text entry"),
    }
    // The identical text right after must be suppressed.
    match m.classify_settled(text_content("hello"), "en") {
        Outcome::Suppressed => {},
        _ => panic!("expected suppression of the repeat"),
    }
    // Different text passes, and the old text passes again afterwards.
    assert!(matches!(m.classify_settled(text_content("other"), "en"), Outcome::Entry(_)));
    assert!(matches!(m.classify_settled(text_content("hello"), "en"), Outcome::Entry(_)));
}

#[test]
fn sensitive_text_is_flagged_in_the_record() {
    let mut m = Monitor::new();
    match m.classify_settled(text_content("my password is 1234"), "en") {
        Outcome::Entry(e) => assert!(e.is_sensitive),
        _ => panic!("expected a text entry"),
    }
}

#[test]
fn image_entry_is_classified() {
    let mut m = Monitor::new();
    let content = ExtractedContent {
        text: None,
        image: Some(vec![0x89, 0x50, 0x4E, 0x47, 1, 2, 3]),
        source_url: None,
        html: None,
    };
    match m.classify_settled(content, "en") {
        Outcome::Entry(e) => {
            assert!(e.text.is_none());
            assert_eq!(e.image_bytes.as_deref(), Some(&[0x89, 0x50, 0x4E, 0x47, 1, 2, 3][..]));
            assert!(!e.is_sensitive);
        },
        _ => panic!("expected an image entry"),
    }
}

#[test]
fn text_and_image_duplicates_share_one_filter() {
    // The filter holds a single digest across kinds: a text observation
    // replaces an image digest, so the same image is processed again.
    let mut m = Monitor::new();
    let image = ExtractedContent {
        text: None,
        image: Some(vec![1, 2, 3]),
        source_url: None,
        html: None,
    };
    assert!(matches!(m.classify_settled(image, "en"), Outcome::Entry(_)));
    assert!(matches!(m.classify_settled(text_content("x y z"), "en"), Outcome::Entry(_)));
    let image_again = ExtractedContent {
        text: None,
        image: Some(vec![1, 2, 3]),
        source_url: None,
        html: None,
    };
    assert!(matches!(m.classify_settled(image_again, "en"), Outcome::Entry(_)));
}

#[test]
fn classified_record_carries_reconciled_source_url() {
    let mut m = Monitor::new();
    let content = ExtractedContent {
        text: Some("https://example.com/x".to_string()),
        image: None,
        source_url: Some("https://example.com/x".to_string()),
        html: Some("<b>x</b>".to_string()),
    };
    match m.classify_settled(content, "en") {
        Outcome::Entry(e) => {
            assert_eq!(e.source_url.as_deref(), Some("https://example.com/x"));
            assert_eq!(e.html_fragment.as_deref(), Some("<b>x</b>"));
        },
        _ => panic!("expected a text entry"),
    }
}

#[test]
fn empty_extraction_is_no_content() {
    let mut m = Monitor::new();
    assert!(matches!(m.classify_settled(empty_content(), "en"), Outcome::NoContent));
    // Blank text counts as no content as well.
    assert!(matches!(m.classify_settled(text_content("   "), "en"), Outcome::NoContent));
}
