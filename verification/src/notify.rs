//! The copy-toast notification strings and their cache.
//!
//! The notification title and labels come from the loaded language map and
//! are cached together with the language and toast flag they were built
//! for; a settings change invalidates the cache.  The body template names
//! the content kind through a `{type}` placeholder.

use vstd::prelude::*;

use crate::text::str_eq;
use vstd::string::StringExecFns;

verus! {

/// The placeholder replaced by the content-kind label.
pub open spec fn type_placeholder() -> Seq<char> {
    "{type}"@
}

/// `s` with every occurrence of `pat` replaced by `rep`, scanning left to
/// right.
pub open spec fn replace_seq(s: Seq<char>, pat: Seq<char>, rep: Seq<char>) -> Seq<char>
    decreases s.len(),
    when pat.len() > 0
{
    if s.len() < pat.len() {
        s
    } else if s.subrange(0, pat.len() as int) == pat {
        rep + replace_seq(s.subrange(pat.len() as int, s.len() as int), pat, rep)
    } else {
        seq![s[0]] + replace_seq(s.subrange(1, s.len() as int), pat, rep)
    }
}

/// The notification strings resolved for one language, with the settings
/// they were resolved under.
pub struct NotificationCache {
    /// The language the strings were loaded for.
    pub language: String,
    /// The toast flag at load time.
    pub show_toast: bool,
    /// The notification title.
    pub title: String,
    /// The label of text content.
    pub text_label: String,
    /// The label of image content.
    pub image_label: String,
    /// The body template, holding the `{type}` placeholder.
    pub body_tpl: String,
}

/// Drops the cached notification strings, so the next notification
/// resolves them afresh.
pub fn invalidate_notification_cache(cache: &mut Option<NotificationCache>)
    ensures
        (*final(cache)) is None,
{
    *cache = None;
}

/// True when the cache cannot serve the current settings: it is empty, or
/// was built for another language or another toast flag.
pub fn cache_needs_refresh(
    cache: &Option<NotificationCache>,
    language: &str,
    show_toast: bool,
) -> (r: bool)
    ensures
        r == match cache {
            Some(c) => c.language@ != language@ || c.show_toast != show_toast,
            None => true,
        },
{
    match cache {
        Some(c) => !str_eq(c.language.as_str(), language) || c.show_toast != show_toast,
        None => true,
    }
}

/// Builds the notification body for a content kind: the body template
/// with the `{type}` placeholder replaced by the matching label.
pub fn toast_body(cache: &NotificationCache, is_image: bool) -> (r: String)
    ensures
        is_image ==> r@ == replace_seq(cache.body_tpl@, type_placeholder(), cache.image_label@),
        !is_image ==> r@ == replace_seq(cache.body_tpl@, type_placeholder(), cache.text_label@),
{
    let label = if is_image {
        cache.image_label.clone()
    } else {
        cache.text_label.clone()
    };
    proof {
        reveal_strlit("{type}");
    }
    replace_all(cache.body_tpl.as_str(), "{type}", label.as_str())
}

/// Replaces every occurrence of `pat` in `s` by `rep`, scanning left to
/// right.
pub fn replace_all(s: &str, pat: &str, rep: &str) -> (r: String)
    requires
        pat@.len() > 0,
    ensures
        r@ == replace_seq(s@, pat@, rep@),
{
    let sv = crate::text::str_to_chars(s);
    let pv = crate::text::str_to_chars(pat);
    let ghost whole = sv@;
    let n = sv.len();
    let plen = pv.len();
    let mut out: Vec<char> = Vec::new();
    let mut i: usize = 0;
    proof {
        assert(whole.subrange(0, whole.len() as int) =~= whole);
    }
    while i < n
        invariant
            0 <= i <= n,
            n == whole.len(),
            sv@ == whole,
            pv@ == pat@,
            plen == pat@.len() > 0,
            replace_seq(whole, pat@, rep@) == out@ + replace_seq(
                whole.subrange(i as int, whole.len() as int),
                pat@,
                rep@,
            ),
        decreases n - i,
    {
        let ghost rest = whole.subrange(i as int, whole.len() as int);
        if plen <= n - i && crate::text::matches_at(&sv, &pv, i) {
            let ghost out0 = out@;
            proof {
                assert(rest.subrange(0, plen as int) =~= whole.subrange(i as int, i + plen));
                assert(rest.subrange(plen as int, rest.len() as int) =~= whole.subrange(
                    i + plen,
                    whole.len() as int,
                ));
            }
            let rv = crate::text::str_to_chars(rep);
            crate::domain::append_chars(&mut out, &rv);
            proof {
                let tail = replace_seq(
                    whole.subrange(i + plen, whole.len() as int),
                    pat@,
                    rep@,
                );
                assert(out0 + (rep@ + tail) =~= (out0 + rep@) + tail);
            }
            i += plen;
        } else {
            proof {
                if i + plen <= n {
                    assert(rest.subrange(0, plen as int) =~= whole.subrange(i as int, i + plen));
                } else {
                    assert(rest.len() < plen);
                }
                assert(rest.subrange(1, rest.len() as int) =~= whole.subrange(
                    i + 1,
                    whole.len() as int,
                ));
                if rest.len() < plen {
                    assert(replace_seq(rest, pat@, rep@) == rest);
                    assert(replace_seq(rest.subrange(1, rest.len() as int), pat@, rep@)
                        == rest.subrange(1, rest.len() as int));
                    assert(rest =~= seq![rest[0]] + rest.subrange(1, rest.len() as int));
                }
                let tail = replace_seq(whole.subrange(i + 1, whole.len() as int), pat@, rep@);
                assert(out@ + (seq![rest[0]] + tail) =~= out@.push(whole[i as int]) + tail);
            }
            out.push(sv[i]);
            i += 1;
        }
    }
    proof {
        assert(whole.subrange(n as int, whole.len() as int) =~= Seq::<char>::empty());
        assert(replace_seq(Seq::<char>::empty(), pat@, rep@) == Seq::<char>::empty());
        assert(out@ + Seq::<char>::empty() =~= out@);
    }
    crate::text::chars_to_string(&out)
}

} // verus!
