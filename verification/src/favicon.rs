//! Favicon link extraction from fetched page markup.
//!
//! The surrounding program fetches the page; this module scans the markup
//! for an icon `rel` attribute, pulls the nearby `href` value out, and
//! resolves it against the page's domain: absolute URLs pass through,
//! scheme-relative and root-relative ones are completed, and anything
//! else is taken as relative to the domain root.

use vstd::prelude::*;

use crate::domain::{ascii_lower, ascii_lower_vec, find_char, find_char_vec, find_seq_at, chars_range};
use crate::extract::{is_http_url, starts_with_chars};
use crate::text::{chars_to_string, is_space_char, str_to_chars};

verus! {

/// The sequence with leading ASCII whitespace removed.
pub open spec fn trim_left(s: Seq<char>) -> Seq<char>
    decreases s.len(),
{
    if s.len() > 0 && is_space_char(s[0]) {
        trim_left(s.subrange(1, s.len() as int))
    } else {
        s
    }
}

/// True when `c` ends an unquoted attribute value.
pub open spec fn ends_href(c: char) -> bool {
    is_space_char(c) || c == '>' || c == '/'
}

/// The first position at or after `from` that ends an unquoted value, or
/// the length of `s`.
pub open spec fn find_href_end(s: Seq<char>, from: int) -> int
    decreases s.len() - from,
{
    if from < 0 || from >= s.len() {
        s.len() as int
    } else if ends_href(s[from]) {
        from
    } else {
        find_href_end(s, from + 1)
    }
}

/// The `href` value in a tag region: the text after the first `href=`
/// (case-insensitively), unquoted up to a delimiter or inside single or
/// double quotes.
pub open spec fn spec_extract_href(region: Seq<char>) -> Option<Seq<char>> {
    let lower = ascii_lower(region);
    let hp = find_seq_at(lower, "href="@, 0);
    if hp >= region.len() {
        None
    } else {
        let t = trim_left(region.subrange(hp + 5, region.len() as int));
        if t.len() > 0 && t[0] == '"' {
            let content = t.subrange(1, t.len() as int);
            let e = find_char(content, '"', 0);
            if e >= content.len() {
                None
            } else {
                Some(content.subrange(0, e))
            }
        } else if t.len() > 0 && t[0] == '\'' {
            let content = t.subrange(1, t.len() as int);
            let e = find_char(content, '\'', 0);
            if e >= content.len() {
                None
            } else {
                Some(content.subrange(0, e))
            }
        } else {
            let e = find_href_end(t, 0);
            if e >= t.len() {
                None
            } else {
                Some(t.subrange(0, e))
            }
        }
    }
}

/// Removes leading ASCII whitespace.
fn trim_left_vec(v: &Vec<char>) -> (r: Vec<char>)
    ensures
        r@ == trim_left(v@),
{
    let ghost s = v@;
    let mut lo: usize = 0;
    proof {
        assert(s.subrange(0, s.len() as int) =~= s);
    }
    while lo < v.len() && crate::text::is_space(v[lo])
        invariant
            0 <= lo <= s.len(),
            v@ == s,
            trim_left(s) == trim_left(s.subrange(lo as int, s.len() as int)),
        decreases s.len() - lo,
    {
        proof {
            let cur = s.subrange(lo as int, s.len() as int);
            assert(cur.subrange(1, cur.len() as int) =~= s.subrange(lo + 1, s.len() as int));
        }
        lo += 1;
    }
    let r = chars_range(v, lo, v.len());
    proof {
        let cur = s.subrange(lo as int, s.len() as int);
        assert(trim_left(cur) == cur);
    }
    r
}

/// Finds the end of an unquoted attribute value.
fn find_href_end_vec(v: &Vec<char>) -> (r: usize)
    ensures
        r == find_href_end(v@, 0),
        r <= v@.len(),
{
    let n = v.len();
    let mut i: usize = 0;
    while i < n && !(crate::text::is_space(v[i]) || v[i] == '>' || v[i] == '/')
        invariant
            0 <= i <= n,
            n == v@.len(),
            find_href_end(v@, 0) == find_href_end(v@, i as int),
        decreases n - i,
    {
        i += 1;
    }
    i
}

/// Pulls the `href` value out of a tag region.
pub fn extract_href(region: &str) -> (r: Option<String>)
    ensures
        r is Some <==> spec_extract_href(region@) is Some,
        r is Some ==> r->Some_0@ == spec_extract_href(region@)->Some_0,
{
    let chars = str_to_chars(region);
    let lower = ascii_lower_vec(&chars);
    proof {
        reveal_strlit("href=");
    }
    let pat = str_to_chars("href=");
    let hp = find_seq_vec_pub(&lower, &pat);
    if hp >= chars.len() {
        return None;
    }
    let after = chars_range(&chars, hp + 5, chars.len());
    let t = trim_left_vec(&after);
    if t.len() > 0 && t[0] == '"' {
        let content = chars_range(&t, 1, t.len());
        let e = find_char_vec(&content, '"', 0);
        if e >= content.len() {
            None
        } else {
            Some(chars_to_string(&chars_range(&content, 0, e)))
        }
    } else if t.len() > 0 && t[0] == '\'' {
        let content = chars_range(&t, 1, t.len());
        let e = find_char_vec(&content, '\'', 0);
        if e >= content.len() {
            None
        } else {
            Some(chars_to_string(&chars_range(&content, 0, e)))
        }
    } else {
        let e = find_href_end_vec(&t);
        if e >= t.len() {
            None
        } else {
            Some(chars_to_string(&chars_range(&t, 0, e)))
        }
    }
}

/// Finds the first occurrence of `pat` in `v` (shared scanner).
fn find_seq_vec_pub(v: &Vec<char>, pat: &Vec<char>) -> (r: usize)
    requires
        pat@.len() >= 1,
    ensures
        r == find_seq_at(v@, pat@, 0),
        r <= v@.len(),
        r < v@.len() ==> r + pat@.len() <= v@.len(),
{
    let n = v.len();
    let plen = pat.len();
    if plen > n {
        return n;
    }
    let mut i: usize = 0;
    while i <= n - plen
        invariant
            0 <= i <= n - plen + 1,
            n == v@.len(),
            plen == pat@.len(),
            1 <= plen <= n,
            find_seq_at(v@, pat@, 0) == find_seq_at(v@, pat@, i as int),
        decreases n - i,
    {
        if crate::text::matches_at(v, pat, i) {
            return i;
        }
        i += 1;
    }
    proof {
        assert(find_seq_at(v@, pat@, i as int) == v@.len());
    }
    n
}

/// One icon `rel` pattern tried against the markup: when the pattern
/// occurs (case-insensitively), the `href` in a window of three hundred
/// characters around it is extracted and resolved.
pub open spec fn try_icon_pattern(
    body: Seq<char>,
    domain: Seq<char>,
    pat: Seq<char>,
) -> Option<Seq<char>> {
    let p = find_seq_at(ascii_lower(body), pat, 0);
    if p >= body.len() {
        None
    } else {
        let start = if p > 300 {
            p - 300
        } else {
            0
        };
        let end = if p + 300 < body.len() {
            p + 300
        } else {
            body.len() as int
        };
        match spec_extract_href(body.subrange(start, end)) {
            None => None,
            Some(h) => Some(spec_resolve_href(h, domain)),
        }
    }
}

/// The favicon link found in the markup: the four icon `rel` spellings
/// are tried in order, and the first one whose window yields an `href`
/// wins.
pub open spec fn spec_find_favicon(body: Seq<char>, domain: Seq<char>) -> Option<Seq<char>> {
    if try_icon_pattern(body, domain, "rel=\"icon\""@) is Some {
        try_icon_pattern(body, domain, "rel=\"icon\""@)
    } else if try_icon_pattern(body, domain, "rel=\"shortcut icon\""@) is Some {
        try_icon_pattern(body, domain, "rel=\"shortcut icon\""@)
    } else if try_icon_pattern(body, domain, "rel='icon'"@) is Some {
        try_icon_pattern(body, domain, "rel='icon'"@)
    } else if try_icon_pattern(body, domain, "rel='shortcut icon'"@) is Some {
        try_icon_pattern(body, domain, "rel='shortcut icon'"@)
    } else {
        None
    }
}

/// Tries one icon `rel` spelling against the markup.
fn try_pattern_exec(chars: &Vec<char>, lower: &Vec<char>, domain: &str, pat: &str) -> (r: Option<
    String,
>)
    requires
        lower@ == ascii_lower(chars@),
        pat@.len() >= 1,
    ensures
        r is Some <==> try_icon_pattern(chars@, domain@, pat@) is Some,
        r is Some ==> r->Some_0@ == try_icon_pattern(chars@, domain@, pat@)->Some_0,
{
    let pv = str_to_chars(pat);
    let p = find_seq_vec_pub(lower, &pv);
    if p >= chars.len() {
        return None;
    }
    let start = if p > 300 {
        p - 300
    } else {
        0
    };
    let end = if 300 < chars.len() - p {
        p + 300
    } else {
        chars.len()
    };
    let region = chars_range(chars, start, end);
    let region_str = crate::text::chars_to_string(&region);
    match extract_href(region_str.as_str()) {
        Some(href) => Some(resolve_href(href.as_str(), domain)),
        None => None,
    }
}

/// Scans fetched markup for a favicon link: the icon `rel` spellings are
/// tried in order, the `href` near the first hit is pulled out, and the
/// result is resolved against the page's domain.
pub fn find_favicon(body: &str, domain: &str) -> (r: Option<String>)
    ensures
        r is Some <==> spec_find_favicon(body@, domain@) is Some,
        r is Some ==> r->Some_0@ == spec_find_favicon(body@, domain@)->Some_0,
{
    let chars = str_to_chars(body);
    let lower = ascii_lower_vec(&chars);
    proof {
        reveal_strlit("rel=\"icon\"");
        reveal_strlit("rel=\"shortcut icon\"");
        reveal_strlit("rel='icon'");
        reveal_strlit("rel='shortcut icon'");
    }
    if let Some(hit) = try_pattern_exec(&chars, &lower, domain, "rel=\"icon\"") {
        return Some(hit);
    }
    if let Some(hit) = try_pattern_exec(&chars, &lower, domain, "rel=\"shortcut icon\"") {
        return Some(hit);
    }
    if let Some(hit) = try_pattern_exec(&chars, &lower, domain, "rel='icon'") {
        return Some(hit);
    }
    if let Some(hit) = try_pattern_exec(&chars, &lower, domain, "rel='shortcut icon'") {
        return Some(hit);
    }
    None
}

/// An icon `href` resolved against the page's domain.
pub open spec fn spec_resolve_href(href: Seq<char>, domain: Seq<char>) -> Seq<char> {
    if is_http_url(href) {
        href
    } else if starts_with_chars(href, "//"@) {
        "https:"@ + href
    } else if starts_with_chars(href, "/"@) {
        "https://"@ + domain + href
    } else {
        "https://"@ + domain + "/"@ + href
    }
}

/// Resolves an icon `href` against the page's domain: absolute HTTP(S)
/// URLs pass through, scheme-relative and root-relative ones are
/// completed, anything else hangs off the domain root.
pub fn resolve_href(href: &str, domain: &str) -> (r: String)
    ensures
        r@ == spec_resolve_href(href@, domain@),
{
    let hv = str_to_chars(href);
    if crate::extract::str_is_http_url(href) {
        return href.to_owned();
    }
    let slashes = str_to_chars("//");
    let slash = str_to_chars("/");
    if crate::text::matches_prefix(&hv, &slashes) {
        let mut out: String = "https:".to_owned();
        vstd::string::StringExecFns::append(&mut out, href);
        return out;
    }
    if crate::text::matches_prefix(&hv, &slash) {
        let mut out: String = "https://".to_owned();
        vstd::string::StringExecFns::append(&mut out, domain);
        vstd::string::StringExecFns::append(&mut out, href);
        return out;
    }
    let mut out: String = "https://".to_owned();
    vstd::string::StringExecFns::append(&mut out, domain);
    vstd::string::StringExecFns::append(&mut out, "/");
    vstd::string::StringExecFns::append(&mut out, href);
    out
}

} // verus!
