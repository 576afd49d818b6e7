//! Small text utilities shared across the library: conversions between
//! `String` and `Vec<char>`, lowercasing, UTF-8 / UTF-16 decoding, and a
//! verified substring search.

use vstd::prelude::*;

verus! {

/// Collects the characters of a string into a vector, so that later logic can
/// index them freely.
pub fn str_to_chars(s: &str) -> (r: Vec<char>)
    ensures
        r@ == s@,
{
    let mut r: Vec<char> = Vec::new();
    for c in it: s.chars()
        invariant
            it.seq() == s@,
            r@ == it.seq().subrange(0, it.index() as int),
    {
        r.push(c);
        proof {
            assert(r@ =~= it.seq().subrange(0, it.index() + 1));
        }
    }
    proof {
        assert(r@ =~= s@);
    }
    r
}

/// What `str::to_lowercase` returns for a given character sequence; the
/// mapping depends on the characters alone.
pub uninterp spec fn lower_of(s: Seq<char>) -> Seq<char>;

/// Relies on str::to_lowercase: the result is a function of the characters
/// alone, and an empty string stays empty.
#[verifier::external_body]
pub(crate) fn to_lowercase_str(s: &str) -> (r: String)
    ensures
        r@ == lower_of(s@),
        s@.len() == 0 ==> r@.len() == 0,
{
    s.to_lowercase()
}

/// Relies on String's FromIterator over char: the collected string holds
/// exactly the given characters, in order.
#[verifier::external_body]
pub(crate) fn chars_to_string(v: &Vec<char>) -> (r: String)
    ensures
        r@ == v@,
{
    v.iter().collect()
}

/// Relies on String::from_utf8: succeeds exactly on valid UTF-8, and the
/// resulting string re-encodes to the input bytes.
#[verifier::external_body]
pub(crate) fn utf8_to_string(b: &Vec<u8>) -> (r: Option<String>)
    ensures
        r is Some <==> vstd::utf8::valid_utf8(b@),
        r is Some ==> vstd::utf8::encode_utf8(r->Some_0@) == b@,
{
    String::from_utf8(b.clone()).ok()
}

/// What `String::from_utf16_lossy` returns for a given sequence of UTF-16
/// code units; the mapping depends on the units alone.
pub uninterp spec fn utf16_lossy_of(units: Seq<u16>) -> Seq<char>;

/// Relies on String::from_utf16_lossy: the result is a function of the code
/// units alone, and an empty input gives an empty string.
#[verifier::external_body]
pub(crate) fn utf16_lossy_to_string(u: &Vec<u16>) -> (r: String)
    ensures
        r@ == utf16_lossy_of(u@),
        u@.len() == 0 ==> r@.len() == 0,
{
    String::from_utf16_lossy(u)
}

/// What `String::from_utf8_lossy` returns for a given byte sequence; the
/// mapping depends on the bytes alone.
pub uninterp spec fn utf8_lossy_of(bytes: Seq<u8>) -> Seq<char>;

/// Relies on String::from_utf8_lossy: the result is a function of the bytes
/// alone, and valid UTF-8 comes back unchanged.
#[verifier::external_body]
pub(crate) fn utf8_lossy_to_string(b: &Vec<u8>) -> (r: String)
    ensures
        r@ == utf8_lossy_of(b@),
        vstd::utf8::valid_utf8(b@) ==> vstd::utf8::encode_utf8(r@) == b@,
{
    String::from_utf8_lossy(b).into_owned()
}

/// Compares two strings by their characters.
pub fn str_eq(a: &str, b: &str) -> (r: bool)
    ensures
        r == (a@ == b@),
{
    let ab = a.as_bytes();
    let bb = b.as_bytes();
    if ab.len() != bb.len() {
        proof {
            assert(a@ != b@);
        }
        return false;
    }
    let mut i: usize = 0;
    while i < ab.len()
        invariant
            0 <= i <= ab@.len(),
            ab@.len() == bb@.len(),
            ab@ == vstd::string::StringSliceAdditionalSpecFns::spec_bytes(a),
            bb@ == vstd::string::StringSliceAdditionalSpecFns::spec_bytes(b),
            forall|k: int| 0 <= k < i ==> ab@[k] == bb@[k],
        decreases ab@.len() - i,
    {
        if ab[i] != bb[i] {
            proof {
                assert(vstd::string::StringSliceAdditionalSpecFns::spec_bytes(a)[i as int]
                    != vstd::string::StringSliceAdditionalSpecFns::spec_bytes(b)[i as int]);
                assert(a@ != b@);
            }
            return false;
        }
        i += 1;
    }
    proof {
        assert(vstd::string::StringSliceAdditionalSpecFns::spec_bytes(a)
            =~= vstd::string::StringSliceAdditionalSpecFns::spec_bytes(b));
        vstd::utf8::encode_utf8_decode_utf8(a@);
        vstd::utf8::encode_utf8_decode_utf8(b@);
    }
    true
}

/// True when `needle` occurs as a contiguous subsequence of `hay`.
pub open spec fn contains_seq<T>(hay: Seq<T>, needle: Seq<T>) -> bool {
    exists|i: int|
        0 <= i && i + needle.len() <= hay.len() && #[trigger] hay.subrange(i, i + needle.len())
            == needle
}

/// Compares `hay[at .. at + needle.len()]` with `needle`.
pub fn matches_at(hay: &Vec<char>, needle: &Vec<char>, at: usize) -> (r: bool)
    requires
        at + needle@.len() <= hay@.len(),
    ensures
        r == (hay@.subrange(at as int, at + needle@.len()) == needle@),
{
    let n = hay.len();
    let mut j: usize = 0;
    while j < needle.len()
        invariant
            0 <= j <= needle@.len(),
            at + needle@.len() <= n,
            n == hay@.len(),
            forall|k: int| 0 <= k < j ==> hay@[at + k] == needle@[k],
        decreases needle@.len() - j,
    {
        if hay[at + j] != needle[j] {
            assert(hay@.subrange(at as int, at + needle@.len())[j as int] != needle@[j as int]);
            return false;
        }
        j += 1;
    }
    assert(hay@.subrange(at as int, at + needle@.len()) =~= needle@);
    true
}

/// Verified substring search: true exactly when `needle` occurs in `hay`.
pub fn contains_chars(hay: &Vec<char>, needle: &Vec<char>) -> (r: bool)
    ensures
        r == contains_seq(hay@, needle@),
{
    if needle.len() > hay.len() {
        assert(!contains_seq(hay@, needle@));
        return false;
    }
    if needle.len() == 0 {
        proof {
            assert(hay@.subrange(0, 0 + needle@.len() as int) =~= needle@);
        }
        return true;
    }
    let hn = hay.len();
    let mut i: usize = 0;
    let last = hay.len() - needle.len();
    while i <= last
        invariant
            0 <= i <= last + 1,
            last == hay@.len() - needle@.len(),
            needle@.len() >= 1,
            last < hn,
            hn == hay@.len(),
            forall|k: int|
                0 <= k < i ==> #[trigger] hay@.subrange(k, k + needle@.len()) != needle@,
        decreases last + 1 - i,
    {
        if matches_at(hay, needle, i) {
            return true;
        }
        i += 1;
    }
    false
}

/// Compares two character vectors.
pub fn chars_eq(a: &Vec<char>, b: &Vec<char>) -> (r: bool)
    ensures
        r == (a@ == b@),
{
    if a.len() != b.len() {
        return false;
    }
    let mut i: usize = 0;
    while i < a.len()
        invariant
            0 <= i <= a@.len(),
            a@.len() == b@.len(),
            forall|k: int| 0 <= k < i ==> a@[k] == b@[k],
        decreases a@.len() - i,
    {
        if a[i] != b[i] {
            return false;
        }
        i += 1;
    }
    proof {
        assert(a@ =~= b@);
    }
    true
}

/// True exactly when `v` begins with `p`.
pub fn matches_prefix(v: &Vec<char>, p: &Vec<char>) -> (r: bool)
    ensures
        r == (v@.len() >= p@.len() && v@.subrange(0, p@.len() as int) == p@),
{
    if v.len() < p.len() {
        return false;
    }
    matches_at(v, p, 0)
}

/// True when `c` is an ASCII whitespace character (space, tab, carriage
/// return, or line feed).
pub open spec fn is_space_char(c: char) -> bool {
    c == ' ' || c == '\t' || c == '\r' || c == '\n'
}

/// True when every character of `s` is ASCII whitespace.
pub open spec fn all_space(s: Seq<char>) -> bool {
    forall|i: int| 0 <= i < s.len() ==> is_space_char(s[i])
}

/// Exec counterpart of `is_space_char`.
pub fn is_space(c: char) -> (r: bool)
    ensures
        r == is_space_char(c),
{
    c == ' ' || c == '\t' || c == '\r' || c == '\n'
}

/// True exactly when the characters are all whitespace (so the text is blank).
pub fn chars_all_space(v: &Vec<char>) -> (r: bool)
    ensures
        r == all_space(v@),
{
    let mut i: usize = 0;
    while i < v.len()
        invariant
            0 <= i <= v@.len(),
            forall|k: int| 0 <= k < i ==> is_space_char(v@[k]),
        decreases v@.len() - i,
    {
        if !is_space(v[i]) {
            return false;
        }
        i += 1;
    }
    true
}

/// The sequence with leading and trailing ASCII whitespace removed.
pub open spec fn trim_spaces(s: Seq<char>) -> Seq<char>
    decreases s.len(),
{
    if s.len() == 0 {
        s
    } else if is_space_char(s[0]) {
        trim_spaces(s.subrange(1, s.len() as int))
    } else if is_space_char(s[s.len() - 1]) {
        trim_spaces(s.subrange(0, s.len() - 1))
    } else {
        s
    }
}

/// Removes leading and trailing ASCII whitespace.
pub fn trim_chars(v: &Vec<char>) -> (r: Vec<char>)
    ensures
        r@ == trim_spaces(v@),
{
    let mut lo: usize = 0;
    let mut hi: usize = v.len();
    let ghost s = v@;
    proof {
        assert(s.subrange(0, s.len() as int) =~= s);
    }
    while lo < hi && is_space(v[lo])
        invariant
            0 <= lo <= hi <= s.len(),
            v@ == s,
            trim_spaces(s) == trim_spaces(s.subrange(lo as int, hi as int)),
        decreases hi - lo,
    {
        proof {
            let cur = s.subrange(lo as int, hi as int);
            assert(cur.subrange(1, cur.len() as int) =~= s.subrange(lo + 1, hi as int));
        }
        lo += 1;
    }
    while lo < hi && is_space(v[hi - 1])
        invariant
            0 <= lo <= hi <= s.len(),
            v@ == s,
            trim_spaces(s) == trim_spaces(s.subrange(lo as int, hi as int)),
            lo < hi ==> !is_space_char(s[lo as int]),
        decreases hi - lo,
    {
        proof {
            let cur = s.subrange(lo as int, hi as int);
            assert(cur.subrange(0, cur.len() - 1) =~= s.subrange(lo as int, hi - 1));
        }
        hi -= 1;
    }
    let mut r: Vec<char> = Vec::new();
    let mut i: usize = lo;
    while i < hi
        invariant
            lo <= i <= hi <= v@.len(),
            v@ == s,
            r@ == s.subrange(lo as int, i as int),
        decreases hi - i,
    {
        r.push(v[i]);
        proof {
            assert(r@ =~= s.subrange(lo as int, i + 1));
        }
        i += 1;
    }
    proof {
        let cur = s.subrange(lo as int, hi as int);
        assert(trim_spaces(cur) == cur) by {
            if cur.len() > 0 {
                assert(cur[0] == s[lo as int]);
                assert(cur[cur.len() - 1] == s[hi - 1]);
            }
        }
        assert(r@ =~= cur);
    }
    r
}

} // verus!
