//! Tests of the supporting pieces: LRU caches, domain extraction, hotkey
//! parsing, settings, locale mapping, notification strings, data URLs and
//! favicon link extraction.

use cutboard::config::{map_locale_to_language, AppConfig};
use cutboard::dataurl::{image_data_url, validate_image_path};
use cutboard::domain::extract_domain;
use cutboard::favicon::{extract_href, find_favicon, resolve_href};
use cutboard::hotkey::parse_hotkey;
use cutboard::lru::LruStringCache;
use cutboard::export::format_text_export;
use cutboard::notify::{
    cache_needs_refresh, invalidate_notification_cache, toast_body, NotificationCache,
};
use cutboard::types::ClipboardEntry;

#[test]
fn lru_evicts_least_recently_used() {
    let mut c = LruStringCache::new(2);
    c.insert("a".into(), "1".into());
    c.insert("b".into(), "2".into());
    c.insert("c".into(), "3".into());
    assert_eq!(c.get("a"), None);
    assert_eq!(c.get("b").as_deref(), Some("2"));
    assert_eq!(c.get("c").as_deref(), Some("3"));
}

#[test]
fn lru_get_refreshes_recency() {
    let mut c = LruStringCache::new(2);
    c.insert("a".into(), "1".into());
    c.insert("b".into(), "2".into());
    // Touch a so that b is the one evicted.
    assert_eq!(c.get("a").as_deref(), Some("1"));
    c.insert("c".into(), "3".into());
    assert_eq!(c.get("b"), None);
    assert_eq!(c.get("a").as_deref(), Some("1"));
}

#[test]
fn lru_insert_updates_existing_key() {
    let mut c = LruStringCache::new(2);
    c.insert("a".into(), "1".into());
    c.insert("a".into(), "9".into());
    assert_eq!(c.len(), 1);
    assert_eq!(c.get("a").as_deref(), Some("9"));
}

#[test]
fn lru_remove_drops_the_entry() {
    let mut c = LruStringCache::new(2);
    c.insert("a".into(), "1".into());
    c.remove("a");
    assert_eq!(c.get("a"), None);
    assert_eq!(c.len(), 0);
}

#[test]
fn domain_of_plain_https_url() {
    assert_eq!(extract_domain("https://www.google.com/search?q=1"), "google.com");
}

#[test]
fn domain_respects_multi_part_suffix() {
    assert_eq!(extract_domain("http://news.bbc.co.uk/page"), "bbc.co.uk");
}

#[test]
fn domain_without_scheme_or_dots() {
    assert_eq!(extract_domain("localhost:8080"), "localhost");
}

#[test]
fn domain_is_lowercased_and_port_stripped() {
    assert_eq!(extract_domain("https://Sub.Example.COM:8443/x"), "example.com");
}

#[test]
fn domain_keeps_three_labels_only_over_known_suffixes() {
    assert_eq!(extract_domain("https://a.b.example.com/"), "example.com");
    assert_eq!(extract_domain("https://shop.example.com.cn/"), "example.com.cn");
}

#[test]
fn hotkey_letter_with_modifier() {
    // Alt is bit one, the no-repeat flag is 0x4000, Q is its code.
    assert_eq!(parse_hotkey("Alt+Q"), Some((0x4001, 'Q' as u32)));
}

#[test]
fn hotkey_lowercase_letter_is_uppercased() {
    assert_eq!(parse_hotkey("Ctrl+q"), Some((0x4002, 'Q' as u32)));
}

#[test]
fn hotkey_function_key_with_two_modifiers() {
    assert_eq!(parse_hotkey("Ctrl+Shift+F5"), Some((0x4006, 0x74)));
}

#[test]
fn hotkey_digit_key() {
    assert_eq!(parse_hotkey("Win+3"), Some((0x4008, '3' as u32)));
}

#[test]
fn hotkey_without_modifier_is_rejected() {
    assert_eq!(parse_hotkey("Q"), None);
}

#[test]
fn hotkey_with_unknown_key_is_rejected() {
    assert_eq!(parse_hotkey("Alt+Foo"), None);
    assert_eq!(parse_hotkey("Alt+F13"), None);
}

#[test]
fn config_parse_reads_fields_and_skips_comments() {
    let content = "; a comment\n# another\n\ndata_path=D:/data\nlanguage = ja \nshortcut=Ctrl+V\nauto_start=true\nclose_to_tray=false\nunknown_key=x\n";
    let cfg = AppConfig::parse(content, "en");
    assert_eq!(cfg.data_path, "D:/data");
    assert_eq!(cfg.language, "ja");
    assert_eq!(cfg.shortcut, "Ctrl+V");
    assert!(cfg.auto_start);
    assert!(!cfg.close_to_tray);
    assert_eq!(cfg.theme, "system");
    assert!(cfg.show_copy_toast);
}

#[test]
fn config_parse_applies_retention_compatibility() {
    let cfg = AppConfig::parse("auto_clear_midnight=true\n", "en");
    assert!(cfg.auto_clear_midnight);
    assert_eq!(cfg.retention_policy, "midnight");
    let cfg2 = AppConfig::parse("auto_clear_midnight=true\nretention_policy=7days\n", "en");
    assert_eq!(cfg2.retention_policy, "7days");
}

#[test]
fn config_defaults_when_empty() {
    let cfg = AppConfig::parse("", "ko");
    assert_eq!(cfg.language, "ko");
    assert_eq!(cfg.shortcut, "Alt+Q");
    assert!(cfg.close_to_tray);
    assert_eq!(cfg.retention_policy, "none");
}

#[test]
fn config_render_then_parse_round_trips() {
    let cfg = AppConfig {
        data_path: "D:/store".to_string(),
        auto_clear_midnight: false,
        auto_start: true,
        close_to_tray: false,
        language: "fr".to_string(),
        shortcut: "Alt+X".to_string(),
        theme: "dark".to_string(),
        show_copy_toast: false,
        retention_policy: "none".to_string(),
    };
    let text = cfg.render();
    let back = AppConfig::parse(&text, "en");
    assert_eq!(back.data_path, "D:/store");
    assert!(!back.auto_clear_midnight);
    assert!(back.auto_start);
    assert!(!back.close_to_tray);
    assert_eq!(back.language, "fr");
    assert_eq!(back.shortcut, "Alt+X");
    assert_eq!(back.theme, "dark");
    assert!(!back.show_copy_toast);
    assert_eq!(back.retention_policy, "none");
}

#[test]
fn locale_exact_match_ignores_case_and_underscore() {
    assert_eq!(map_locale_to_language("zh_CN"), "zh-CN");
    assert_eq!(map_locale_to_language("ZH-TW"), "zh-TW");
}

#[test]
fn locale_regional_chinese_maps_to_traditional() {
    assert_eq!(map_locale_to_language("zh-HK"), "zh-TW");
    assert_eq!(map_locale_to_language("zh-Hant-TW"), "zh-TW");
    assert_eq!(map_locale_to_language("zh-SG"), "zh-CN");
}

#[test]
fn locale_prefix_match() {
    assert_eq!(map_locale_to_language("en-US"), "en");
    assert_eq!(map_locale_to_language("PT_br"), "pt");
    assert_eq!(map_locale_to_language("fr-CA"), "fr");
}

#[test]
fn locale_unknown_falls_back_to_english() {
    assert_eq!(map_locale_to_language("tlh-KX"), "en");
    assert_eq!(map_locale_to_language(""), "en");
}

#[test]
fn notification_cache_refresh_rules() {
    let cache = NotificationCache {
        language: "en".to_string(),
        show_toast: true,
        title: "board".to_string(),
        text_label: "Text".to_string(),
        image_label: "Image".to_string(),
        body_tpl: "Recorded: {type}".to_string(),
    };
    let slot = Some(cache);
    assert!(!cache_needs_refresh(&slot, "en", true));
    assert!(cache_needs_refresh(&slot, "ja", true));
    assert!(cache_needs_refresh(&slot, "en", false));
    assert!(cache_needs_refresh(&None, "en", true));
}

#[test]
fn notification_body_substitutes_the_kind_label() {
    let cache = NotificationCache {
        language: "en".to_string(),
        show_toast: true,
        title: "board".to_string(),
        text_label: "Text".to_string(),
        image_label: "Image".to_string(),
        body_tpl: "Recorded: {type} ({type})".to_string(),
    };
    assert_eq!(toast_body(&cache, false), "Recorded: Text (Text)");
    assert_eq!(toast_body(&cache, true), "Recorded: Image (Image)");
}

#[test]
fn notification_cache_invalidation_empties_the_slot() {
    let mut slot = Some(NotificationCache {
        language: "en".to_string(),
        show_toast: true,
        title: "t".to_string(),
        text_label: "a".to_string(),
        image_label: "b".to_string(),
        body_tpl: "c".to_string(),
    });
    invalidate_notification_cache(&mut slot);
    assert!(slot.is_none());
}

#[test]
fn data_url_has_prefix_and_standard_base64() {
    // Three zero bytes encode to AAAA under the standard alphabet.
    assert_eq!(image_data_url(&vec![0, 0, 0]), "data:image/png;base64,AAAA");
    // Padding appears for a lone byte; fails if the encoder echoed input.
    assert_eq!(image_data_url(&vec![0xFF]), "data:image/png;base64,/w==");
}

#[test]
fn image_path_validation() {
    assert!(validate_image_path("shot_1234.png"));
    assert!(!validate_image_path("../secret.png"));
    assert!(!validate_image_path("a/b.png"));
    assert!(!validate_image_path("a\\b.png"));
    assert!(!validate_image_path("x..png"));
}

#[test]
fn href_extraction_quoted_and_bare() {
    assert_eq!(
        extract_href(r#"<link rel="icon" href="/favicon.ico">"#).as_deref(),
        Some("/favicon.ico"),
    );
    assert_eq!(
        extract_href("<link rel='icon' href='/fav.png'>").as_deref(),
        Some("/fav.png"),
    );
    assert_eq!(
        extract_href("<link rel=icon href=f.ico >").as_deref(),
        Some("f.ico"),
    );
    assert_eq!(extract_href("<link rel=icon>"), None);
}

#[test]
fn text_export_lists_dated_entries_and_skips_images() {
    let entry = |id: i64, text: Option<&str>, at: &str| ClipboardEntry {
        id,
        app_id: 1,
        content_type: if text.is_some() { "text".into() } else { "image".into() },
        text_content: text.map(|t| t.to_string()),
        image_path: None,
        created_at: at.to_string(),
        source_url: None,
        is_favorite: false,
        is_sensitive: false,
        html_content: None,
    };
    let entries = vec![
        entry(1, Some("first"), "2024-01-01 10:00:00"),
        entry(2, None, "2024-01-01 11:00:00"),
        entry(3, Some("second"), "2024-01-02 09:30:00"),
    ];
    let doc = format_text_export(&entries, "Editor");
    assert_eq!(
        doc,
        "# Editor - text entries\n\n### 2024-01-01 10:00:00\n\nfirst\n\n### 2024-01-02 09:30:00\n\nsecond\n\n",
    );
}

#[test]
fn href_resolution_against_domain() {
    assert_eq!(resolve_href("https://cdn.x/i.png", "example.com"), "https://cdn.x/i.png");
    assert_eq!(resolve_href("//cdn.x/i.png", "example.com"), "https://cdn.x/i.png");
    assert_eq!(resolve_href("/i.png", "example.com"), "https://example.com/i.png");
    assert_eq!(resolve_href("i.png", "example.com"), "https://example.com/i.png");
}

#[test]
fn favicon_found_in_markup_and_resolved() {
    let body = r#"<html><head><LINK REL="icon" href="/fav.ico"><title>x</title></head>"#;
    assert_eq!(
        find_favicon(body, "example.com").as_deref(),
        Some("https://example.com/fav.ico"),
    );
}

#[test]
fn favicon_shortcut_spelling_and_single_quotes() {
    let body = "<link rel='shortcut icon' href='https://static.example.com/i.ico'>";
    assert_eq!(
        find_favicon(body, "example.com").as_deref(),
        Some("https://static.example.com/i.ico"),
    );
}

#[test]
fn favicon_absent_when_no_icon_rel() {
    let body = "<html><head><link rel=\"stylesheet\" href=\"/a.css\"></head></html>";
    assert_eq!(find_favicon(body, "example.com"), None);
}
