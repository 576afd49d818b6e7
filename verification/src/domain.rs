//! Source-URL domain extraction: reduces a stored source URL to its base
//! domain for grouping and filtering, respecting multi-part public
//! suffixes such as `co.uk`.

use vstd::prelude::*;

use crate::text::{chars_to_string, str_to_chars, trim_chars, trim_spaces};

verus! {

/// The first position at or after `from` holding `c`, or the length of
/// `s`.
pub open spec fn find_char(s: Seq<char>, c: char, from: int) -> int
    decreases s.len() - from,
{
    if from < 0 || from >= s.len() {
        s.len() as int
    } else if s[from] == c {
        from
    } else {
        find_char(s, c, from + 1)
    }
}

/// The first position at or after `from` where `pat` occurs, or the
/// length of `s` when it never does.
pub open spec fn find_seq_at(s: Seq<char>, pat: Seq<char>, from: int) -> int
    decreases s.len() - from,
    via find_seq_at_decreases
{
    if from < 0 || from + pat.len() > s.len() {
        s.len() as int
    } else if s.subrange(from, from + pat.len()) == pat {
        from
    } else {
        find_seq_at(s, pat, from + 1)
    }
}

#[via_fn]
proof fn find_seq_at_decreases(s: Seq<char>, pat: Seq<char>, from: int) {
    if 0 <= from && from + pat.len() <= s.len() && pat.len() == 0 {
        assert(s.subrange(from, from + pat.len()) =~= pat);
    }
}

/// `s` cut off at the first occurrence of `c`.
pub open spec fn cut_at(s: Seq<char>, c: char) -> Seq<char> {
    s.subrange(0, find_char(s, c, 0))
}

/// An ASCII letter lowered; everything else kept.
pub open spec fn ascii_lower_char(c: char) -> char {
    if 'A' <= c <= 'Z' {
        ((c as u8) + 32) as char
    } else {
        c
    }
}

/// ASCII lowercase of a character sequence.
pub open spec fn ascii_lower(s: Seq<char>) -> Seq<char> {
    Seq::new(s.len(), |i: int| ascii_lower_char(s[i]))
}

/// `s` split at every occurrence of `c`; at least one part always comes
/// out.
pub open spec fn split_char(s: Seq<char>, c: char) -> Seq<Seq<char>>
    decreases s.len(),
    via split_char_decreases
{
    let i = find_char(s, c, 0);
    if i >= s.len() {
        seq![s]
    } else {
        seq![s.subrange(0, i)] + split_char(s.subrange(i + 1, s.len() as int), c)
    }
}

#[via_fn]
proof fn split_char_decreases(s: Seq<char>, c: char) {
    lemma_find_char_bounds(s, c, 0);
}

/// `find_char` never goes backwards and never runs past the end.
pub proof fn lemma_find_char_bounds(s: Seq<char>, c: char, from: int)
    requires
        0 <= from <= s.len(),
    ensures
        from <= find_char(s, c, from) <= s.len(),
    decreases s.len() - from,
{
    if from < s.len() && s[from] != c {
        lemma_find_char_bounds(s, c, from + 1);
    }
}

/// The parts joined back with `c` between them.
pub open spec fn join_char(parts: Seq<Seq<char>>, c: char) -> Seq<char>
    decreases parts.len(),
{
    if parts.len() == 0 {
        Seq::empty()
    } else if parts.len() == 1 {
        parts[0]
    } else {
        parts[0] + seq![c] + join_char(parts.subrange(1, parts.len() as int), c)
    }
}

/// True when `t` is one of the recognized multi-part public suffixes.
pub open spec fn is_multi_tld(t: Seq<char>) -> bool {
    ||| t == "co.uk"@
    ||| t == "co.jp"@
    ||| t == "co.kr"@
    ||| t == "co.nz"@
    ||| t == "co.za"@
    ||| t == "co.in"@
    ||| t == "co.id"@
    ||| t == "co.th"@
    ||| t == "com.cn"@
    ||| t == "com.tw"@
    ||| t == "com.hk"@
    ||| t == "com.sg"@
    ||| t == "com.au"@
    ||| t == "com.br"@
    ||| t == "com.mx"@
    ||| t == "com.ar"@
    ||| t == "com.tr"@
    ||| t == "com.ua"@
    ||| t == "com.my"@
    ||| t == "com.ph"@
    ||| t == "com.vn"@
    ||| t == "com.pk"@
    ||| t == "org.cn"@
    ||| t == "org.uk"@
    ||| t == "org.au"@
    ||| t == "org.tw"@
    ||| t == "org.hk"@
    ||| t == "net.cn"@
    ||| t == "net.au"@
    ||| t == "net.tw"@
    ||| t == "gov.cn"@
    ||| t == "gov.uk"@
    ||| t == "gov.au"@
    ||| t == "edu.cn"@
    ||| t == "edu.au"@
    ||| t == "edu.tw"@
    ||| t == "edu.hk"@
    ||| t == "ac.uk"@
    ||| t == "ac.jp"@
    ||| t == "ac.kr"@
    ||| t == "ac.cn"@
}

/// The base domain of a host: the host itself (lowered) when it has at
/// most two labels, else the last two labels — or three, when the last
/// two form a multi-part public suffix.
pub open spec fn spec_base_domain(host: Seq<char>) -> Seq<char> {
    let parts = split_char(host, '.');
    if parts.len() <= 2 {
        ascii_lower(host)
    } else {
        let n = parts.len() as int;
        let last_two = ascii_lower(parts[n - 2] + seq!['.'] + parts[n - 1]);
        if is_multi_tld(last_two) {
            ascii_lower(join_char(parts.subrange(n - 3, n), '.'))
        } else {
            ascii_lower(join_char(parts.subrange(n - 2, n), '.'))
        }
    }
}

/// The characters of `www.`.
pub open spec fn www_prefix() -> Seq<char> {
    seq!['w', 'w', 'w', '.']
}

/// The host part of a URL: everything after the scheme separator, cut at
/// the first path, query or port delimiter, with a `www.` prefix
/// stripped.
pub open spec fn spec_host_of(url: Seq<char>) -> Seq<char> {
    let t = trim_spaces(url);
    let i = find_seq_at(t, "://"@, 0);
    let after = if i < t.len() {
        t.subrange(i + 3, t.len() as int)
    } else {
        t
    };
    let host0 = cut_at(cut_at(cut_at(after, '/'), '?'), ':');
    if host0.len() >= 4 && host0.subrange(0, 4) == www_prefix() {
        host0.subrange(4, host0.len() as int)
    } else {
        host0
    }
}

/// The base domain of a URL.
pub open spec fn spec_extract_domain(url: Seq<char>) -> Seq<char> {
    spec_base_domain(spec_host_of(url))
}

/// Finds the first occurrence of `pat` in `v`.
fn find_seq_vec(v: &Vec<char>, pat: &Vec<char>) -> (r: usize)
    requires
        pat@.len() >= 1,
    ensures
        r == find_seq_at(v@, pat@, 0),
        r < v@.len() ==> r + pat@.len() <= v@.len() && v@.subrange(r as int, r + pat@.len())
            == pat@,
{
    let n = v.len();
    let plen = pat.len();
    if plen > n {
        return n;
    }
    let mut i: usize = 0;
    while i <= n - plen
        invariant
            0 <= i <= n - plen + 1,
            n == v@.len(),
            plen == pat@.len(),
            1 <= plen <= n,
            find_seq_at(v@, pat@, 0) == find_seq_at(v@, pat@, i as int),
        decreases n - i,
    {
        if crate::text::matches_at(v, pat, i) {
            return i;
        }
        i += 1;
    }
    proof {
        assert(find_seq_at(v@, pat@, i as int) == v@.len());
    }
    n
}

/// Finds the first occurrence of `c` in `v` at or after `from`.
pub fn find_char_vec(v: &Vec<char>, c: char, from: usize) -> (r: usize)
    requires
        from <= v@.len(),
    ensures
        r == find_char(v@, c, from as int),
        from <= r <= v@.len(),
{
    let n = v.len();
    let mut i = from;
    while i < n && v[i] != c
        invariant
            from <= i <= n,
            n == v@.len(),
            find_char(v@, c, from as int) == find_char(v@, c, i as int),
        decreases n - i,
    {
        i += 1;
    }
    i
}

/// Copies `v[from .. to]`.
pub fn chars_range(v: &Vec<char>, from: usize, to: usize) -> (r: Vec<char>)
    requires
        from <= to <= v@.len(),
    ensures
        r@ == v@.subrange(from as int, to as int),
{
    let mut r: Vec<char> = Vec::new();
    let mut i: usize = from;
    while i < to
        invariant
            from <= i <= to <= v@.len(),
            r@ == v@.subrange(from as int, i as int),
        decreases to - i,
    {
        r.push(v[i]);
        proof {
            assert(r@ =~= v@.subrange(from as int, i + 1));
        }
        i += 1;
    }
    r
}

/// ASCII-lowers a character vector.
pub fn ascii_lower_vec(v: &Vec<char>) -> (r: Vec<char>)
    ensures
        r@ == ascii_lower(v@),
{
    let mut r: Vec<char> = Vec::new();
    let mut i: usize = 0;
    while i < v.len()
        invariant
            0 <= i <= v@.len(),
            r@.len() == i,
            forall|k: int| 0 <= k < i ==> r@[k] == ascii_lower_char(v@[k]),
        decreases v@.len() - i,
    {
        let c = v[i];
        let lc: char = if c >= 'A' && c <= 'Z' {
            (((c as u8)) + 32) as char
        } else {
            c
        };
        r.push(lc);
        i += 1;
    }
    proof {
        assert(r@ =~= ascii_lower(v@));
    }
    r
}

/// Splits `v` at every occurrence of `c`.
pub fn split_char_vec(v: &Vec<char>, c: char) -> (r: Vec<Vec<char>>)
    ensures
        r@.map_values(|p: Vec<char>| p@) == split_char(v@, c),
        r@.len() >= 1,
{
    let mut parts: Vec<Vec<char>> = Vec::new();
    let mut pos: usize = 0;
    let ghost whole = v@;
    proof {
        assert(whole.subrange(0, whole.len() as int) =~= whole);
        assert(parts@.map_values(|p: Vec<char>| p@) + split_char(whole, c) =~= split_char(
            whole,
            c,
        ));
    }
    loop
        invariant
            0 <= pos <= whole.len(),
            v@ == whole,
            split_char(whole, c) == parts@.map_values(|p: Vec<char>| p@) + split_char(
                whole.subrange(pos as int, whole.len() as int),
                c,
            ),
        decreases whole.len() - pos + 1,
    {
        let e = find_char_vec_from(v, c, pos);
        let part = chars_range(v, pos, e);
        let ghost rest = whole.subrange(pos as int, whole.len() as int);
        proof {
            lemma_find_char_sub(whole, c, pos as int);
            assert(rest.subrange(0, find_char(rest, c, 0)) =~= whole.subrange(pos as int, e as int));
        }
        parts.push(part);
        if e >= v.len() {
            proof {
                assert(split_char(rest, c) =~= seq![rest.subrange(0, rest.len() as int)]);
                assert(rest.subrange(0, rest.len() as int) =~= whole.subrange(
                    pos as int,
                    e as int,
                ));
                assert(parts@.map_values(|p: Vec<char>| p@) =~= split_char(whole, c));
            }
            return parts;
        }
        proof {
            assert(rest.subrange(find_char(rest, c, 0) + 1, rest.len() as int) =~= whole.subrange(
                e + 1,
                whole.len() as int,
            ));
            assert(parts@.map_values(|p: Vec<char>| p@) + split_char(
                whole.subrange(e + 1, whole.len() as int),
                c,
            ) =~= split_char(whole, c)) by {
                assert(parts@.map_values(|p: Vec<char>| p@).drop_last() + seq![
                    whole.subrange(pos as int, e as int),
                ] =~= parts@.map_values(|p: Vec<char>| p@));
            }
        }
        pos = e + 1;
    }
}

/// `find_char` in a suffix equals the shifted `find_char` in the whole.
proof fn lemma_find_char_sub(s: Seq<char>, c: char, pos: int)
    requires
        0 <= pos <= s.len(),
    ensures
        find_char(s.subrange(pos, s.len() as int), c, 0) == find_char(s, c, pos) - pos,
    decreases s.len() - pos,
{
    let rest = s.subrange(pos, s.len() as int);
    if pos < s.len() && s[pos] != c {
        lemma_find_char_sub(s, c, pos + 1);
        lemma_find_char_sub(rest, c, 1);
        assert(rest.subrange(1, rest.len() as int) =~= s.subrange(pos + 1, s.len() as int));
    }
}

/// Finds the first `c` at or after `from` (wrapper used by the splitter).
fn find_char_vec_from(v: &Vec<char>, c: char, from: usize) -> (r: usize)
    requires
        from <= v@.len(),
    ensures
        r == find_char(v@, c, from as int),
        from <= r <= v@.len(),
{
    find_char_vec(v, c, from)
}

/// Appends a copy of `src` to `out`.
pub fn append_chars(out: &mut Vec<char>, src: &Vec<char>)
    ensures
        final(out)@ == old(out)@ + src@,
{
    let mut i: usize = 0;
    while i < src.len()
        invariant
            0 <= i <= src@.len(),
            out@ == old(out)@ + src@.subrange(0, i as int),
        decreases src@.len() - i,
    {
        out.push(src[i]);
        proof {
            assert(old(out)@ + src@.subrange(0, i + 1) =~= (old(out)@ + src@.subrange(
                0,
                i as int,
            )).push(src@[i as int]));
        }
        i += 1;
    }
    proof {
        assert(src@.subrange(0, src@.len() as int) =~= src@);
    }
}

/// Unfolds `join_char` over a two-element part list.
proof fn lemma_join_two(a: Seq<char>, b: Seq<char>, c: char)
    ensures
        join_char(seq![a, b], c) == a + seq![c] + b,
{
    let parts: Seq<Seq<char>> = seq![a, b];
    assert(parts.subrange(1, 2) =~= seq![b]);
    assert(join_char(seq![b], c) == b);
}

/// Unfolds `join_char` over a three-element part list.
proof fn lemma_join_three(a: Seq<char>, b: Seq<char>, d: Seq<char>, c: char)
    ensures
        join_char(seq![a, b, d], c) == a + seq![c] + (b + seq![c] + d),
{
    let parts: Seq<Seq<char>> = seq![a, b, d];
    assert(parts.subrange(1, 3) =~= seq![b, d]);
    lemma_join_two(b, d, c);
}

/// Reduces a URL to its base domain: the host after the scheme, cut at
/// the first path, query or port delimiter, without a `www.` prefix, kept
/// to its last two labels (three over a multi-part public suffix) and
/// ASCII-lowered.
pub fn extract_domain(url: &str) -> (r: String)
    ensures
        r@ == spec_extract_domain(url@),
{
    let chars = str_to_chars(url);
    let t = trim_chars(&chars);
    proof {
        reveal_strlit("://");
    }
    let sep = str_to_chars("://");
    let i = find_seq_vec(&t, &sep);
    let after = if i < t.len() {
        chars_range(&t, i + 3, t.len())
    } else {
        chars_range(&t, 0, t.len())
    };
    proof {
        if i as int >= t@.len() {
            assert(t@.subrange(0, t@.len() as int) =~= t@);
        }
    }
    let c1 = find_char_vec(&after, '/', 0);
    let h1 = chars_range(&after, 0, c1);
    let c2 = find_char_vec(&h1, '?', 0);
    let h2 = chars_range(&h1, 0, c2);
    let c3 = find_char_vec(&h2, ':', 0);
    let host0 = chars_range(&h2, 0, c3);
    let www = str_to_chars("www.");
    proof {
        reveal_strlit("www.");
        assert(www@ =~= www_prefix());
    }
    let host = if host0.len() >= 4 && crate::text::matches_prefix(&host0, &www) {
        chars_range(&host0, 4, host0.len())
    } else {
        host0
    };
    let r = base_domain_chars(&host);
    chars_to_string(&r)
}

/// The base-domain computation over a host's characters.
fn base_domain_chars(host: &Vec<char>) -> (r: Vec<char>)
    ensures
        r@ == spec_base_domain(host@),
{
    let parts = split_char_vec(host, '.');
    if parts.len() <= 2 {
        return ascii_lower_vec(host);
    }
    let n = parts.len();
    let ghost pm = parts@.map_values(|p: Vec<char>| p@);
    let mut last_two: Vec<char> = Vec::new();
    append_chars(&mut last_two, &parts[n - 2]);
    last_two.push('.');
    append_chars(&mut last_two, &parts[n - 1]);
    proof {
        assert(last_two@ =~= pm[n - 2] + seq!['.'] + pm[n - 1]);
    }
    let last_two_l = ascii_lower_vec(&last_two);
    let tld = is_multi_tld_vec(&last_two_l);
    let mut joined: Vec<char> = Vec::new();
    if tld {
        append_chars(&mut joined, &parts[n - 3]);
        joined.push('.');
        append_chars(&mut joined, &parts[n - 2]);
        joined.push('.');
        append_chars(&mut joined, &parts[n - 1]);
        proof {
            assert(pm.subrange(n - 3, n as int) =~= seq![pm[n - 3], pm[n - 2], pm[n - 1]]);
            lemma_join_three(pm[n - 3], pm[n - 2], pm[n - 1], '.');
            assert(joined@ =~= join_char(pm.subrange(n - 3, n as int), '.'));
        }
    } else {
        append_chars(&mut joined, &parts[n - 2]);
        joined.push('.');
        append_chars(&mut joined, &parts[n - 1]);
        proof {
            assert(pm.subrange(n - 2, n as int) =~= seq![pm[n - 2], pm[n - 1]]);
            lemma_join_two(pm[n - 2], pm[n - 1], '.');
            assert(joined@ =~= join_char(pm.subrange(n - 2, n as int), '.'));
        }
    }
    ascii_lower_vec(&joined)
}
/// Checks the multi-part public-suffix list.
fn is_multi_tld_vec(t: &Vec<char>) -> (r: bool)
    ensures
        r == is_multi_tld(t@),
{
    let s = chars_to_string(t);
    let v = s.as_str();
    if crate::text::str_eq(v, "co.uk") {
        return true;
    }
    if crate::text::str_eq(v, "co.jp") {
        return true;
    }
    if crate::text::str_eq(v, "co.kr") {
        return true;
    }
    if crate::text::str_eq(v, "co.nz") {
        return true;
    }
    if crate::text::str_eq(v, "co.za") {
        return true;
    }
    if crate::text::str_eq(v, "co.in") {
        return true;
    }
    if crate::text::str_eq(v, "co.id") {
        return true;
    }
    if crate::text::str_eq(v, "co.th") {
        return true;
    }
    if crate::text::str_eq(v, "com.cn") {
        return true;
    }
    if crate::text::str_eq(v, "com.tw") {
        return true;
    }
    if crate::text::str_eq(v, "com.hk") {
        return true;
    }
    if crate::text::str_eq(v, "com.sg") {
        return true;
    }
    if crate::text::str_eq(v, "com.au") {
        return true;
    }
    if crate::text::str_eq(v, "com.br") {
        return true;
    }
    if crate::text::str_eq(v, "com.mx") {
        return true;
    }
    if crate::text::str_eq(v, "com.ar") {
        return true;
    }
    if crate::text::str_eq(v, "com.tr") {
        return true;
    }
    if crate::text::str_eq(v, "com.ua") {
        return true;
    }
    if crate::text::str_eq(v, "com.my") {
        return true;
    }
    if crate::text::str_eq(v, "com.ph") {
        return true;
    }
    if crate::text::str_eq(v, "com.vn") {
        return true;
    }
    if crate::text::str_eq(v, "com.pk") {
        return true;
    }
    if crate::text::str_eq(v, "org.cn") {
        return true;
    }
    if crate::text::str_eq(v, "org.uk") {
        return true;
    }
    if crate::text::str_eq(v, "org.au") {
        return true;
    }
    if crate::text::str_eq(v, "org.tw") {
        return true;
    }
    if crate::text::str_eq(v, "org.hk") {
        return true;
    }
    if crate::text::str_eq(v, "net.cn") {
        return true;
    }
    if crate::text::str_eq(v, "net.au") {
        return true;
    }
    if crate::text::str_eq(v, "net.tw") {
        return true;
    }
    if crate::text::str_eq(v, "gov.cn") {
        return true;
    }
    if crate::text::str_eq(v, "gov.uk") {
        return true;
    }
    if crate::text::str_eq(v, "gov.au") {
        return true;
    }
    if crate::text::str_eq(v, "edu.cn") {
        return true;
    }
    if crate::text::str_eq(v, "edu.au") {
        return true;
    }
    if crate::text::str_eq(v, "edu.tw") {
        return true;
    }
    if crate::text::str_eq(v, "edu.hk") {
        return true;
    }
    if crate::text::str_eq(v, "ac.uk") {
        return true;
    }
    if crate::text::str_eq(v, "ac.jp") {
        return true;
    }
    if crate::text::str_eq(v, "ac.kr") {
        return true;
    }
    if crate::text::str_eq(v, "ac.cn") {
        return true;
    }
    false
}

} // verus!
