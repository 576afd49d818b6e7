//! Application settings: the line-based settings file format and the
//! mapping from an OS locale tag to a supported UI language.
//!
//! The surrounding program reads and writes the settings file; this module
//! parses its content and renders it back, line by line: blank lines and
//! lines opening with `#` or `;` are comments, everything else is
//! `key=value` with both sides trimmed, and the last assignment of a key
//! wins.

use vstd::prelude::*;

use crate::domain::{ascii_lower, ascii_lower_vec, cut_at, find_char, find_char_vec, chars_range};
use crate::text::{chars_eq, chars_to_string, str_eq, str_to_chars, trim_chars, trim_spaces};
use vstd::string::StringExecFns;

verus! {

/// The settings as plain values.
pub struct AppConfig {
    pub data_path: String,
    pub auto_clear_midnight: bool,
    pub auto_start: bool,
    pub close_to_tray: bool,
    pub language: String,
    pub shortcut: String,
    pub theme: String,
    pub show_copy_toast: bool,
    pub retention_policy: String,
}

/// The abstract value of a settings record.
pub struct ConfigView {
    pub data_path: Seq<char>,
    pub auto_clear_midnight: bool,
    pub auto_start: bool,
    pub close_to_tray: bool,
    pub language: Seq<char>,
    pub shortcut: Seq<char>,
    pub theme: Seq<char>,
    pub show_copy_toast: bool,
    pub retention_policy: Seq<char>,
}

impl AppConfig {
    /// The abstract value of this record.
    pub open spec fn view(&self) -> ConfigView {
        ConfigView {
            data_path: self.data_path@,
            auto_clear_midnight: self.auto_clear_midnight,
            auto_start: self.auto_start,
            close_to_tray: self.close_to_tray,
            language: self.language@,
            shortcut: self.shortcut@,
            theme: self.theme@,
            show_copy_toast: self.show_copy_toast,
            retention_policy: self.retention_policy@,
        }
    }
}

/// The defaults a parse starts from: empty data path, automatic clearing
/// off, autostart off, close-to-tray on, the given language, the `Alt+Q`
/// shortcut, the system theme, toasts on, no retention policy.
pub open spec fn default_view(language: Seq<char>) -> ConfigView {
    ConfigView {
        data_path: Seq::empty(),
        auto_clear_midnight: false,
        auto_start: false,
        close_to_tray: true,
        language: language,
        shortcut: "Alt+Q"@,
        theme: "system"@,
        show_copy_toast: true,
        retention_policy: "none"@,
    }
}

/// One settings line applied to the accumulated record.
pub open spec fn apply_line(v: ConfigView, line: Seq<char>) -> ConfigView {
    let l = trim_spaces(line);
    if l.len() == 0 || l[0] == '#' || l[0] == ';' {
        v
    } else {
        let e = find_char(l, '=', 0);
        if e >= l.len() {
            v
        } else {
            let key = trim_spaces(l.subrange(0, e));
            let val = trim_spaces(l.subrange(e + 1, l.len() as int));
            if key == "data_path"@ {
                ConfigView { data_path: val, ..v }
            } else if key == "auto_clear_midnight"@ {
                ConfigView { auto_clear_midnight: val == "true"@, ..v }
            } else if key == "auto_start"@ {
                ConfigView { auto_start: val == "true"@, ..v }
            } else if key == "close_to_tray"@ {
                ConfigView { close_to_tray: val != "false"@, ..v }
            } else if key == "language"@ {
                ConfigView { language: val, ..v }
            } else if key == "shortcut"@ {
                ConfigView { shortcut: val, ..v }
            } else if key == "theme"@ {
                ConfigView { theme: val, ..v }
            } else if key == "show_copy_toast"@ {
                ConfigView { show_copy_toast: val != "false"@, ..v }
            } else if key == "retention_policy"@ {
                ConfigView { retention_policy: val, ..v }
            } else {
                v
            }
        }
    }
}

/// The settings lines folded from `pos` on.
pub open spec fn fold_lines(content: Seq<char>, pos: int, v: ConfigView) -> ConfigView
    decreases content.len() - pos,
    via fold_lines_decreases
{
    if pos < 0 || pos >= content.len() {
        v
    } else {
        let nl = find_char(content, '\n', pos);
        let v2 = apply_line(v, content.subrange(pos, nl));
        if nl >= content.len() {
            v2
        } else {
            fold_lines(content, nl + 1, v2)
        }
    }
}

#[via_fn]
proof fn fold_lines_decreases(content: Seq<char>, pos: int, v: ConfigView) {
    if 0 <= pos < content.len() {
        crate::domain::lemma_find_char_bounds(content, '\n', pos);
    }
}

/// What parsing a settings text yields, before the compatibility rule.
pub open spec fn parsed_view(content: Seq<char>, language: Seq<char>) -> ConfigView {
    fold_lines(content, 0, default_view(language))
}

/// The compatibility rule: automatic midnight clearing with no explicit
/// retention policy means the midnight policy.
pub open spec fn with_compat(v: ConfigView) -> ConfigView {
    if v.auto_clear_midnight && v.retention_policy == "none"@ {
        ConfigView { retention_policy: "midnight"@, ..v }
    } else {
        v
    }
}

/// What the whole parse yields.
pub open spec fn spec_parse_config(content: Seq<char>, language: Seq<char>) -> ConfigView {
    with_compat(parsed_view(content, language))
}

/// Reads a `true` comparison.
fn val_is(val: &Vec<char>, lit: &str) -> (r: bool)
    ensures
        r == (val@ == lit@),
{
    chars_eq(val, &str_to_chars(lit))
}

impl AppConfig {
    /// The settings with everything at its default: the given data path,
    /// English UI, and the stock shortcut, theme and policies.
    pub fn with_default_path(default: &str) -> (r: AppConfig)
        ensures
            r.view() == default_view("en"@).data_path_replaced(default@),
    {
        AppConfig {
            data_path: default.to_owned(),
            auto_clear_midnight: false,
            auto_start: false,
            close_to_tray: true,
            language: "en".to_owned(),
            shortcut: "Alt+Q".to_owned(),
            theme: "system".to_owned(),
            show_copy_toast: true,
            retention_policy: "none".to_owned(),
        }
    }

    /// Parses a settings text against the defaults for the given language,
    /// line by line, last assignment winning, and applies the
    /// retention-policy compatibility rule.
    pub fn parse(content: &str, default_language: &str) -> (r: AppConfig)
        ensures
            r.view() == spec_parse_config(content@, default_language@),
    {
        let chars = str_to_chars(content);
        let n = chars.len();
        let mut data_path: String = String::new();
        let mut auto_clear_midnight: bool = false;
        let mut auto_start: bool = false;
        let mut close_to_tray: bool = true;
        let mut language: String = default_language.to_owned();
        let mut shortcut: String = "Alt+Q".to_owned();
        let mut theme: String = "system".to_owned();
        let mut show_copy_toast: bool = true;
        let mut retention_policy: String = "none".to_owned();
        let mut pos: usize = 0;
        proof {
            let v0 = ConfigView {
                data_path: data_path@,
                auto_clear_midnight,
                auto_start,
                close_to_tray,
                language: language@,
                shortcut: shortcut@,
                theme: theme@,
                show_copy_toast,
                retention_policy: retention_policy@,
            };
            assert(v0 == default_view(default_language@));
        }
        while pos < n
            invariant
                0 <= pos <= n,
                n == chars@.len(),
                chars@ == content@,
                parsed_view(content@, default_language@) == fold_lines(
                    content@,
                    pos as int,
                    ConfigView {
                        data_path: data_path@,
                        auto_clear_midnight,
                        auto_start,
                        close_to_tray,
                        language: language@,
                        shortcut: shortcut@,
                        theme: theme@,
                        show_copy_toast,
                        retention_policy: retention_policy@,
                    },
                ),
            decreases n - pos,
        {
            let nl = find_char_vec(&chars, '\n', pos);
            let raw = chars_range(&chars, pos, nl);
            let l = trim_chars(&raw);
            let ghost before = ConfigView {
                data_path: data_path@,
                auto_clear_midnight,
                auto_start,
                close_to_tray,
                language: language@,
                shortcut: shortcut@,
                theme: theme@,
                show_copy_toast,
                retention_policy: retention_policy@,
            };
            if l.len() == 0 || l[0] == '#' || l[0] == ';' {
            } else {
                let e = find_char_vec(&l, '=', 0);
                if e < l.len() {
                    let key = trim_chars(&chars_range(&l, 0, e));
                    let val = trim_chars(&chars_range(&l, e + 1, l.len()));
                    if val_is(&key, "data_path") {
                        data_path = chars_to_string(&val);
                    } else if val_is(&key, "auto_clear_midnight") {
                        auto_clear_midnight = val_is(&val, "true");
                    } else if val_is(&key, "auto_start") {
                        auto_start = val_is(&val, "true");
                    } else if val_is(&key, "close_to_tray") {
                        close_to_tray = !val_is(&val, "false");
                    } else if val_is(&key, "language") {
                        language = chars_to_string(&val);
                    } else if val_is(&key, "shortcut") {
                        shortcut = chars_to_string(&val);
                    } else if val_is(&key, "theme") {
                        theme = chars_to_string(&val);
                    } else if val_is(&key, "show_copy_toast") {
                        show_copy_toast = !val_is(&val, "false");
                    } else if val_is(&key, "retention_policy") {
                        retention_policy = chars_to_string(&val);
                    }
                }
            }
            proof {
                let after = ConfigView {
                    data_path: data_path@,
                    auto_clear_midnight,
                    auto_start,
                    close_to_tray,
                    language: language@,
                    shortcut: shortcut@,
                    theme: theme@,
                    show_copy_toast,
                    retention_policy: retention_policy@,
                };
                assert(after == apply_line(before, content@.subrange(pos as int, nl as int)));
            }
            if nl >= n {
                pos = n;
            } else {
                pos = nl + 1;
            }
        }
        let mut cfg = AppConfig {
            data_path,
            auto_clear_midnight,
            auto_start,
            close_to_tray,
            language,
            shortcut,
            theme,
            show_copy_toast,
            retention_policy,
        };
        if cfg.auto_clear_midnight && str_eq(cfg.retention_policy.as_str(), "none") {
            cfg.retention_policy = "midnight".to_owned();
        }
        cfg
    }

    /// Renders the settings back into their file format, one `key=value`
    /// line per field under a comment header.
    pub fn render(&self) -> (r: String)
        ensures
            r@ == spec_render_config(self.view()),
    {
        let mut out: String = "; settings\ndata_path=".to_owned();
        out.append(self.data_path.as_str());
        out.append("\nauto_clear_midnight=");
        out.append(bool_str(self.auto_clear_midnight));
        out.append("\nauto_start=");
        out.append(bool_str(self.auto_start));
        out.append("\nclose_to_tray=");
        out.append(bool_str(self.close_to_tray));
        out.append("\nlanguage=");
        out.append(self.language.as_str());
        out.append("\nshortcut=");
        out.append(self.shortcut.as_str());
        out.append("\ntheme=");
        out.append(self.theme.as_str());
        out.append("\nshow_copy_toast=");
        out.append(bool_str(self.show_copy_toast));
        out.append("\nretention_policy=");
        out.append(self.retention_policy.as_str());
        out.append("\n");
        out
    }
}

impl ConfigView {
    /// This record with another data path.
    pub open spec fn data_path_replaced(self, p: Seq<char>) -> ConfigView {
        ConfigView { data_path: p, ..self }
    }
}

/// The rendered settings file of a record.
pub open spec fn spec_render_config(v: ConfigView) -> Seq<char> {
    "; settings\ndata_path="@ + v.data_path + "\nauto_clear_midnight="@ + spec_bool_str(
        v.auto_clear_midnight,
    ) + "\nauto_start="@ + spec_bool_str(v.auto_start) + "\nclose_to_tray="@ + spec_bool_str(
        v.close_to_tray,
    ) + "\nlanguage="@ + v.language + "\nshortcut="@ + v.shortcut + "\ntheme="@ + v.theme
        + "\nshow_copy_toast="@ + spec_bool_str(v.show_copy_toast) + "\nretention_policy="@
        + v.retention_policy + "\n"@
}

/// `true` or `false`.
pub open spec fn spec_bool_str(b: bool) -> Seq<char> {
    if b {
        "true"@
    } else {
        "false"@
    }
}

/// The printed form of a flag.
fn bool_str(b: bool) -> (r: &'static str)
    ensures
        r@ == spec_bool_str(b),
{
    if b {
        "true"
    } else {
        "false"
    }
}

// ---------------------------------------------------------------------------
// Locale mapping.
// ---------------------------------------------------------------------------

/// Case-insensitive ASCII comparison.
pub open spec fn eq_ignore_case(a: Seq<char>, b: Seq<char>) -> bool {
    ascii_lower(a) == ascii_lower(b)
}

/// The locale tag with underscores turned into hyphens.
pub open spec fn normalized_tag(s: Seq<char>) -> Seq<char> {
    Seq::new(s.len(), |i: int| if s[i] == '_' {
        '-'
    } else {
        s[i]
    })
}

/// True when `s` begins with `p`.
pub open spec fn chars_start_with(s: Seq<char>, p: Seq<char>) -> bool {
    s.len() >= p.len() && s.subrange(0, p.len() as int) == p
}

/// The supported UI language a locale tag maps to: an exact
/// case-insensitive match first; then the traditional/simplified split of
/// regional Chinese tags; then the bare language prefix; `en` as the last
/// resort.
pub open spec fn spec_map_locale(locale: Seq<char>) -> Seq<char> {
    let n = normalized_tag(locale);
    if eq_ignore_case(n, "zh-CN"@) {
        "zh-CN"@
    } else if eq_ignore_case(n, "zh-TW"@) {
        "zh-TW"@
    } else if eq_ignore_case(n, "en"@) {
        "en"@
    } else if eq_ignore_case(n, "ja"@) {
        "ja"@
    } else if eq_ignore_case(n, "ko"@) {
        "ko"@
    } else if eq_ignore_case(n, "fr"@) {
        "fr"@
    } else if eq_ignore_case(n, "de"@) {
        "de"@
    } else if eq_ignore_case(n, "es"@) {
        "es"@
    } else if eq_ignore_case(n, "pt"@) {
        "pt"@
    } else if eq_ignore_case(n, "ru"@) {
        "ru"@
    } else if eq_ignore_case(n, "ar"@) {
        "ar"@
    } else if eq_ignore_case(n, "th"@) {
        "th"@
    } else if eq_ignore_case(n, "vi"@) {
        "vi"@
    } else if eq_ignore_case(n, "it"@) {
        "it"@
    } else if eq_ignore_case(n, "nl"@) {
        "nl"@
    } else if eq_ignore_case(n, "pl"@) {
        "pl"@
    } else if eq_ignore_case(n, "tr"@) {
        "tr"@
    } else if eq_ignore_case(n, "uk"@) {
        "uk"@
    } else if eq_ignore_case(n, "id"@) {
        "id"@
    } else if eq_ignore_case(n, "hi"@) {
        "hi"@
    } else {
        let lower = ascii_lower(n);
        if chars_start_with(lower, "zh-hk"@) || chars_start_with(lower, "zh-mo"@)
            || chars_start_with(lower, "zh-hant"@) {
            "zh-TW"@
        } else if chars_start_with(lower, "zh"@) {
            "zh-CN"@
        } else {
            let prefix = ascii_lower(cut_at(n, '-'));
            if prefix == "en"@ {
                "en"@
            } else if prefix == "ja"@ {
                "ja"@
            } else if prefix == "ko"@ {
                "ko"@
            } else if prefix == "fr"@ {
                "fr"@
            } else if prefix == "de"@ {
                "de"@
            } else if prefix == "es"@ {
                "es"@
            } else if prefix == "pt"@ {
                "pt"@
            } else if prefix == "ru"@ {
                "ru"@
            } else if prefix == "ar"@ {
                "ar"@
            } else if prefix == "th"@ {
                "th"@
            } else if prefix == "vi"@ {
                "vi"@
            } else if prefix == "it"@ {
                "it"@
            } else if prefix == "nl"@ {
                "nl"@
            } else if prefix == "pl"@ {
                "pl"@
            } else if prefix == "tr"@ {
                "tr"@
            } else if prefix == "uk"@ {
                "uk"@
            } else if prefix == "id"@ {
                "id"@
            } else if prefix == "hi"@ {
                "hi"@
            } else {
                "en"@
            }
        }
    }
}

/// Case-insensitive match of a tag against a code.
fn tag_matches(n: &Vec<char>, code: &str) -> (r: bool)
    ensures
        r == eq_ignore_case(n@, code@),
{
    let a = ascii_lower_vec(n);
    let b = ascii_lower_vec(&str_to_chars(code));
    chars_eq(&a, &b)
}

/// Maps an OS locale tag to the supported UI language that serves it,
/// falling back to English.
pub fn map_locale_to_language(locale: &str) -> (r: String)
    ensures
        r@ == spec_map_locale(locale@),
{
    let chars = str_to_chars(locale);
    let mut n: Vec<char> = Vec::new();
    let mut i: usize = 0;
    while i < chars.len()
        invariant
            0 <= i <= chars@.len(),
            n@.len() == i,
            forall|k: int|
                0 <= k < i ==> n@[k] == (if chars@[k] == '_' {
                    '-'
                } else {
                    chars@[k]
                }),
        decreases chars@.len() - i,
    {
        let c = chars[i];
        n.push(
            if c == '_' {
                '-'
            } else {
                c
            },
        );
        i += 1;
    }
    proof {
        assert(n@ =~= normalized_tag(locale@));
    }
    if tag_matches(&n, "zh-CN") {
        return "zh-CN".to_owned();
    }
    if tag_matches(&n, "zh-TW") {
        return "zh-TW".to_owned();
    }
    if tag_matches(&n, "en") {
        return "en".to_owned();
    }
    if tag_matches(&n, "ja") {
        return "ja".to_owned();
    }
    if tag_matches(&n, "ko") {
        return "ko".to_owned();
    }
    if tag_matches(&n, "fr") {
        return "fr".to_owned();
    }
    if tag_matches(&n, "de") {
        return "de".to_owned();
    }
    if tag_matches(&n, "es") {
        return "es".to_owned();
    }
    if tag_matches(&n, "pt") {
        return "pt".to_owned();
    }
    if tag_matches(&n, "ru") {
        return "ru".to_owned();
    }
    if tag_matches(&n, "ar") {
        return "ar".to_owned();
    }
    if tag_matches(&n, "th") {
        return "th".to_owned();
    }
    if tag_matches(&n, "vi") {
        return "vi".to_owned();
    }
    if tag_matches(&n, "it") {
        return "it".to_owned();
    }
    if tag_matches(&n, "nl") {
        return "nl".to_owned();
    }
    if tag_matches(&n, "pl") {
        return "pl".to_owned();
    }
    if tag_matches(&n, "tr") {
        return "tr".to_owned();
    }
    if tag_matches(&n, "uk") {
        return "uk".to_owned();
    }
    if tag_matches(&n, "id") {
        return "id".to_owned();
    }
    if tag_matches(&n, "hi") {
        return "hi".to_owned();
    }
    let lower = ascii_lower_vec(&n);
    if crate::text::matches_prefix(&lower, &str_to_chars("zh-hk")) || crate::text::matches_prefix(
        &lower,
        &str_to_chars("zh-mo"),
    ) || crate::text::matches_prefix(&lower, &str_to_chars("zh-hant")) {
        return "zh-TW".to_owned();
    }
    if crate::text::matches_prefix(&lower, &str_to_chars("zh")) {
        return "zh-CN".to_owned();
    }
    let c = find_char_vec(&n, '-', 0);
    let prefix = ascii_lower_vec(&chars_range(&n, 0, c));
    if chars_eq(&prefix, &str_to_chars("en")) {
        return "en".to_owned();
    }
    if chars_eq(&prefix, &str_to_chars("ja")) {
        return "ja".to_owned();
    }
    if chars_eq(&prefix, &str_to_chars("ko")) {
        return "ko".to_owned();
    }
    if chars_eq(&prefix, &str_to_chars("fr")) {
        return "fr".to_owned();
    }
    if chars_eq(&prefix, &str_to_chars("de")) {
        return "de".to_owned();
    }
    if chars_eq(&prefix, &str_to_chars("es")) {
        return "es".to_owned();
    }
    if chars_eq(&prefix, &str_to_chars("pt")) {
        return "pt".to_owned();
    }
    if chars_eq(&prefix, &str_to_chars("ru")) {
        return "ru".to_owned();
    }
    if chars_eq(&prefix, &str_to_chars("ar")) {
        return "ar".to_owned();
    }
    if chars_eq(&prefix, &str_to_chars("th")) {
        return "th".to_owned();
    }
    if chars_eq(&prefix, &str_to_chars("vi")) {
        return "vi".to_owned();
    }
    if chars_eq(&prefix, &str_to_chars("it")) {
        return "it".to_owned();
    }
    if chars_eq(&prefix, &str_to_chars("nl")) {
        return "nl".to_owned();
    }
    if chars_eq(&prefix, &str_to_chars("pl")) {
        return "pl".to_owned();
    }
    if chars_eq(&prefix, &str_to_chars("tr")) {
        return "tr".to_owned();
    }
    if chars_eq(&prefix, &str_to_chars("uk")) {
        return "uk".to_owned();
    }
    if chars_eq(&prefix, &str_to_chars("id")) {
        return "id".to_owned();
    }
    if chars_eq(&prefix, &str_to_chars("hi")) {
        return "hi".to_owned();
    }
    "en".to_owned()
}

} // verus!
