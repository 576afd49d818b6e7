//! The multi-format clipboard content extractor.
//!
//! The surrounding event loop reads the raw payload of each clipboard format
//! it finds and hands them over as plain byte (or UTF-16 unit) buffers; this
//! module negotiates between them.  An HTML-format payload contributes a
//! source URL and an HTML fragment, parsed out of its textual header.  Text
//! is taken from the Unicode format first, then from the legacy single-byte
//! format.  Only when no usable text was found is an image considered: a
//! directly registered PNG payload first, then the newer and older raw
//! bitmap variants through the bitmap decoder.  Finally the source URL is
//! reconciled: a non-HTTP header URL is discarded, and a single-line HTTP
//! URL in the text takes its place.

use vstd::prelude::*;

use crate::dib::{dib_abs_height, dib_ok, dib_raster, dib_to_png, dib_width, png_of};
use crate::text::{
    chars_to_string, str_to_chars, trim_chars, trim_spaces, utf16_lossy_of, utf16_lossy_to_string,
    utf8_lossy_of, utf8_lossy_to_string, utf8_to_string,
};
use vstd::string::StringSliceAdditionalSpecFns;

verus! {

/// Largest accepted text or HTML fragment payload, in bytes.
pub const MAX_TEXT_BYTES: usize = 5 * 1024 * 1024;

/// The raw clipboard payloads of one observation, one entry per format that
/// was present.
pub struct ClipboardFormats {
    /// The HTML clipboard format: a textual header followed by the document.
    pub html: Option<Vec<u8>>,
    /// The Unicode text format, as UTF-16 code units.
    pub unicode_text: Option<Vec<u16>>,
    /// The legacy single-byte text format.
    pub ansi_text: Option<Vec<u8>>,
    /// A directly registered PNG format payload.
    pub png: Option<Vec<u8>>,
    /// The newer raw bitmap format, with alpha support.
    pub dib_v5: Option<Vec<u8>>,
    /// The baseline raw bitmap format.
    pub dib: Option<Vec<u8>>,
}

/// The unified result of one extraction.
pub struct ExtractedContent {
    /// Extracted plain text, if any.
    pub text: Option<String>,
    /// PNG bytes of an extracted image, if any.
    pub image: Option<Vec<u8>>,
    /// The reconciled source URL, if any.
    pub source_url: Option<String>,
    /// The HTML fragment, if any.
    pub html: Option<String>,
}

// ---------------------------------------------------------------------------
// Byte-level helpers.
// ---------------------------------------------------------------------------

/// True when `b` is an ASCII whitespace byte.
pub open spec fn is_space_byte(b: u8) -> bool {
    b == 32 || b == 9 || b == 13 || b == 10
}

/// True when every byte of `s` is ASCII whitespace.
pub open spec fn all_space_bytes(s: Seq<u8>) -> bool {
    forall|i: int| 0 <= i < s.len() ==> is_space_byte(s[i])
}

/// The byte sequence with leading and trailing ASCII whitespace removed.
pub open spec fn trim_bytes(s: Seq<u8>) -> Seq<u8>
    decreases s.len(),
{
    if s.len() == 0 {
        s
    } else if is_space_byte(s[0]) {
        trim_bytes(s.subrange(1, s.len() as int))
    } else if is_space_byte(s[s.len() - 1]) {
        trim_bytes(s.subrange(0, s.len() - 1))
    } else {
        s
    }
}

/// The first position at or after `from` holding byte `b`, or the length of
/// `s` when there is none.
pub open spec fn find_byte(s: Seq<u8>, b: u8, from: int) -> int
    decreases s.len() - from,
{
    if from < 0 || from >= s.len() {
        s.len() as int
    } else if s[from] == b {
        from
    } else {
        find_byte(s, b, from + 1)
    }
}

/// `find_byte` never goes backwards and never runs past the end.
pub proof fn lemma_find_byte_bounds(s: Seq<u8>, b: u8, from: int)
    requires
        0 <= from <= s.len(),
    ensures
        from <= find_byte(s, b, from) <= s.len(),
    decreases s.len() - from,
{
    if from < s.len() && s[from] != b {
        lemma_find_byte_bounds(s, b, from + 1);
    }
}

/// True when `s` begins with `prefix`.
pub open spec fn starts_with_bytes(s: Seq<u8>, prefix: Seq<u8>) -> bool {
    s.len() >= prefix.len() && s.subrange(0, prefix.len() as int) == prefix
}

/// A line with one trailing carriage return removed.
pub open spec fn strip_cr(line: Seq<u8>) -> Seq<u8> {
    if line.len() > 0 && line[line.len() - 1] == 13 {
        line.subrange(0, line.len() - 1)
    } else {
        line
    }
}

/// Exec counterpart of `is_space_byte`.
fn is_space_b(b: u8) -> (r: bool)
    ensures
        r == is_space_byte(b),
{
    b == 32 || b == 9 || b == 13 || b == 10
}

/// Copies `d[from .. to]` out as a fresh vector.
fn bytes_range(d: &Vec<u8>, from: usize, to: usize) -> (r: Vec<u8>)
    requires
        from <= to <= d@.len(),
    ensures
        r@ == d@.subrange(from as int, to as int),
{
    let mut r: Vec<u8> = Vec::new();
    let mut i: usize = from;
    while i < to
        invariant
            from <= i <= to <= d@.len(),
            r@ == d@.subrange(from as int, i as int),
        decreases to - i,
    {
        r.push(d[i]);
        proof {
            assert(r@ =~= d@.subrange(from as int, i + 1));
        }
        i += 1;
    }
    r
}

/// Removes leading and trailing ASCII whitespace from a byte vector.
fn trim_bytes_vec(v: &Vec<u8>) -> (r: Vec<u8>)
    ensures
        r@ == trim_bytes(v@),
{
    let mut lo: usize = 0;
    let mut hi: usize = v.len();
    let ghost s = v@;
    proof {
        assert(s.subrange(0, s.len() as int) =~= s);
    }
    while lo < hi && is_space_b(v[lo])
        invariant
            0 <= lo <= hi <= s.len(),
            v@ == s,
            trim_bytes(s) == trim_bytes(s.subrange(lo as int, hi as int)),
        decreases hi - lo,
    {
        proof {
            let cur = s.subrange(lo as int, hi as int);
            assert(cur.subrange(1, cur.len() as int) =~= s.subrange(lo + 1, hi as int));
        }
        lo += 1;
    }
    while lo < hi && is_space_b(v[hi - 1])
        invariant
            0 <= lo <= hi <= s.len(),
            v@ == s,
            trim_bytes(s) == trim_bytes(s.subrange(lo as int, hi as int)),
            lo < hi ==> !is_space_byte(s[lo as int]),
        decreases hi - lo,
    {
        proof {
            let cur = s.subrange(lo as int, hi as int);
            assert(cur.subrange(0, cur.len() - 1) =~= s.subrange(lo as int, hi - 1));
        }
        hi -= 1;
    }
    let r = bytes_range(v, lo, hi);
    proof {
        let cur = s.subrange(lo as int, hi as int);
        assert(trim_bytes(cur) == cur) by {
            if cur.len() > 0 {
                assert(cur[0] == s[lo as int]);
                assert(cur[cur.len() - 1] == s[hi - 1]);
            }
        }
    }
    r
}

/// Finds the first `b` at or after `from`.
fn find_byte_from(d: &Vec<u8>, b: u8, from: usize) -> (r: usize)
    requires
        from <= d@.len(),
    ensures
        r == find_byte(d@, b, from as int),
        from <= r <= d@.len(),
        r < d@.len() ==> d@[r as int] == b,
{
    let n = d.len();
    let mut i = from;
    while i < n && d[i] != b
        invariant
            from <= i <= n,
            n == d@.len(),
            find_byte(d@, b, from as int) == find_byte(d@, b, i as int),
        decreases n - i,
    {
        i += 1;
    }
    i
}

// ---------------------------------------------------------------------------
// Decimal offsets.
// ---------------------------------------------------------------------------

/// True when `b` is an ASCII digit.
pub open spec fn is_digit_byte(b: u8) -> bool {
    48 <= b <= 57
}

/// True when `s` is a nonempty run of ASCII digits.
pub open spec fn all_digits(s: Seq<u8>) -> bool {
    s.len() > 0 && forall|i: int| 0 <= i < s.len() ==> is_digit_byte(s[i])
}

/// The decimal value of a digit run.
pub open spec fn dec_value(s: Seq<u8>) -> int
    decreases s.len(),
{
    if s.len() == 0 {
        0
    } else {
        dec_value(s.subrange(0, s.len() - 1)) * 10 + (s[s.len() - 1] - 48)
    }
}

/// Parses a decimal byte offset: succeeds exactly on a nonempty run of
/// ASCII digits whose value fits in `usize`.
fn parse_offset(s: &Vec<u8>) -> (r: Option<usize>)
    ensures
        r is Some <==> all_digits(s@) && dec_value(s@) <= usize::MAX,
        r is Some ==> r->Some_0 == dec_value(s@),
{
    if s.len() == 0 {
        return None;
    }
    let mut acc: u64 = 0;
    let mut over = false;
    let mut i: usize = 0;
    while i < s.len()
        invariant
            0 <= i <= s@.len(),
            s@.len() > 0,
            forall|k: int| 0 <= k < i ==> is_digit_byte(s@[k]),
            !over ==> acc == dec_value(s@.subrange(0, i as int)) && acc <= usize::MAX,
            over ==> dec_value(s@.subrange(0, i as int)) > usize::MAX,
        decreases s@.len() - i,
    {
        let b = s[i];
        if b < 48 || b > 57 {
            return None;
        }
        let d = (b - 48) as u64;
        proof {
            assert(s@.subrange(0, i + 1).subrange(0, i as int) =~= s@.subrange(0, i as int));
            assert(dec_value(s@.subrange(0, i + 1)) == dec_value(s@.subrange(0, i as int)) * 10 + (
            s@[i as int] - 48));
        }
        if over {
            proof {
                assert(dec_value(s@.subrange(0, i as int)) * 10 >= dec_value(
                    s@.subrange(0, i as int),
                )) by (nonlinear_arith)
                    requires
                        dec_value(s@.subrange(0, i as int)) >= 0 || dec_value(
                            s@.subrange(0, i as int),
                        ) > usize::MAX,
                ;
            }
        } else {
            let nv: u128 = (acc as u128) * 10 + (d as u128);
            if nv > (usize::MAX as u128) {
                over = true;
            } else {
                acc = nv as u64;
            }
        }
        i += 1;
    }
    proof {
        assert(s@.subrange(0, s@.len() as int) =~= s@);
    }
    if over {
        None
    } else {
        Some(acc as usize)
    }
}

// ---------------------------------------------------------------------------
// The HTML-format header.
// ---------------------------------------------------------------------------

/// The bytes of `SourceURL:`.
pub open spec fn source_url_prefix() -> Seq<u8> {
    seq![83u8, 111u8, 117u8, 114u8, 99u8, 101u8, 85u8, 82u8, 76u8, 58u8]
}

/// The bytes of `StartFragment:`.
pub open spec fn start_fragment_prefix() -> Seq<u8> {
    seq![83u8, 116u8, 97u8, 114u8, 116u8, 70u8, 114u8, 97u8, 103u8, 109u8, 101u8, 110u8, 116u8,
        58u8]
}

/// The bytes of `EndFragment:`.
pub open spec fn end_fragment_prefix() -> Seq<u8> {
    seq![69u8, 110u8, 100u8, 70u8, 114u8, 97u8, 103u8, 109u8, 101u8, 110u8, 116u8, 58u8]
}

/// The trimmed value of the first header line that starts with `SourceURL:`
/// and carries a nonempty value, scanning from `pos`.
pub open spec fn source_url_from(d: Seq<u8>, pos: int) -> Option<Seq<u8>>
    decreases d.len() - pos,
    via source_url_from_decreases
{
    if pos < 0 || pos >= d.len() {
        None
    } else {
        let e = find_byte(d, 10, pos);
        let line = strip_cr(d.subrange(pos, e));
        let val = trim_bytes(line.subrange(10, line.len() as int));
        if starts_with_bytes(line, source_url_prefix()) && val.len() > 0 {
            Some(val)
        } else if e >= d.len() {
            None
        } else {
            source_url_from(d, e + 1)
        }
    }
}

#[via_fn]
proof fn source_url_from_decreases(d: Seq<u8>, pos: int) {
    if 0 <= pos < d.len() {
        lemma_find_byte_bounds(d, 10, pos);
    }
}

/// The raw source URL named by the header, if any.
pub open spec fn header_source_url(d: Seq<u8>) -> Option<Seq<u8>> {
    source_url_from(d, 0)
}

/// The value carried by a header line after a given prefix: the trimmed
/// remainder, parsed as a decimal offset, or `None` when it does not parse.
pub open spec fn line_offset_value(line: Seq<u8>, prefix_len: int) -> Option<int> {
    let val = trim_bytes(line.subrange(prefix_len, line.len() as int));
    if all_digits(val) && dec_value(val) <= usize::MAX {
        Some(dec_value(val))
    } else {
        None
    }
}

/// Folds the header lines from `pos` on, tracking the latest
/// `StartFragment:` and `EndFragment:` values; a line that fails to parse
/// clears the value, as the last assignment wins.
pub open spec fn frag_bounds_from(
    d: Seq<u8>,
    pos: int,
    s: Option<int>,
    e: Option<int>,
) -> (Option<int>, Option<int>)
    decreases d.len() - pos,
    via frag_bounds_from_decreases
{
    if pos < 0 || pos >= d.len() {
        (s, e)
    } else {
        let nl = find_byte(d, 10, pos);
        let line = strip_cr(d.subrange(pos, nl));
        let s2 = if starts_with_bytes(line, start_fragment_prefix()) {
            line_offset_value(line, 14)
        } else {
            s
        };
        let e2 = if starts_with_bytes(line, end_fragment_prefix()) {
            line_offset_value(line, 12)
        } else {
            e
        };
        if nl >= d.len() {
            (s2, e2)
        } else {
            frag_bounds_from(d, nl + 1, s2, e2)
        }
    }
}

#[via_fn]
proof fn frag_bounds_from_decreases(d: Seq<u8>, pos: int, s: Option<int>, e: Option<int>) {
    if 0 <= pos < d.len() {
        lemma_find_byte_bounds(d, 10, pos);
    }
}

/// The fragment byte range named by the header.
pub open spec fn header_frag_bounds(d: Seq<u8>) -> (Option<int>, Option<int>) {
    frag_bounds_from(d, 0, None, None)
}

/// The HTML fragment carried by the payload: the bytes between the
/// `StartFragment` and `EndFragment` offsets, accepted only when the range
/// is ordered, lies inside the payload, is not oversized and is not blank.
pub open spec fn header_fragment(d: Seq<u8>) -> Option<Seq<u8>> {
    let (s, e) = header_frag_bounds(d);
    match (s, e) {
        (Some(s), Some(e)) => {
            if s < e && e <= d.len() && e - s <= MAX_TEXT_BYTES && !all_space_bytes(
                d.subrange(s, e),
            ) {
                Some(d.subrange(s, e))
            } else {
                None
            }
        },
        _ => None,
    }
}

/// Checks whether the line `d[pos .. end]` starts with `prefix`.
fn line_has_prefix(d: &Vec<u8>, pos: usize, end: usize, prefix: &Vec<u8>) -> (r: bool)
    requires
        pos <= end <= d@.len(),
    ensures
        r == starts_with_bytes(d@.subrange(pos as int, end as int), prefix@),
{
    let plen = prefix.len();
    if end - pos < plen {
        return false;
    }
    let mut k: usize = 0;
    while k < plen
        invariant
            0 <= k <= plen,
            plen == prefix@.len(),
            pos + plen <= end <= d@.len(),
            forall|j: int| 0 <= j < k ==> d@[pos + j] == prefix@[j],
        decreases plen - k,
    {
        if d[pos + k] != prefix[k] {
            proof {
                assert(d@.subrange(pos as int, end as int)[k as int] != prefix@[k as int]);
            }
            return false;
        }
        k += 1;
    }
    proof {
        assert(d@.subrange(pos as int, end as int).subrange(0, plen as int) =~= prefix@);
    }
    true
}

/// The exec bytes of `SourceURL:`.
fn source_url_prefix_vec() -> (r: Vec<u8>)
    ensures
        r@ == source_url_prefix(),
{
    let mut v: Vec<u8> = Vec::new();
    v.push(83);
    v.push(111);
    v.push(117);
    v.push(114);
    v.push(99);
    v.push(101);
    v.push(85);
    v.push(82);
    v.push(76);
    v.push(58);
    proof {
        assert(v@ =~= source_url_prefix());
    }
    v
}

/// The exec bytes of `StartFragment:`.
fn start_fragment_prefix_vec() -> (r: Vec<u8>)
    ensures
        r@ == start_fragment_prefix(),
{
    let mut v: Vec<u8> = Vec::new();
    v.push(83);
    v.push(116);
    v.push(97);
    v.push(114);
    v.push(116);
    v.push(70);
    v.push(114);
    v.push(97);
    v.push(103);
    v.push(109);
    v.push(101);
    v.push(110);
    v.push(116);
    v.push(58);
    proof {
        assert(v@ =~= start_fragment_prefix());
    }
    v
}

/// The exec bytes of `EndFragment:`.
fn end_fragment_prefix_vec() -> (r: Vec<u8>)
    ensures
        r@ == end_fragment_prefix(),
{
    let mut v: Vec<u8> = Vec::new();
    v.push(69);
    v.push(110);
    v.push(100);
    v.push(70);
    v.push(114);
    v.push(97);
    v.push(103);
    v.push(109);
    v.push(101);
    v.push(110);
    v.push(116);
    v.push(58);
    proof {
        assert(v@ =~= end_fragment_prefix());
    }
    v
}

/// The end of the line starting at `pos`, with a trailing carriage return
/// stripped: returns the newline position and the stripped line end.
fn line_bounds(d: &Vec<u8>, pos: usize) -> (r: (usize, usize))
    requires
        pos <= d@.len(),
    ensures
        r.0 == find_byte(d@, 10, pos as int),
        pos <= r.1 <= r.0 <= d@.len(),
        d@.subrange(pos as int, r.1 as int) == strip_cr(
            d@.subrange(pos as int, r.0 as int),
        ),
{
    let nl = find_byte_from(d, 10, pos);
    let end = if nl > pos && d[nl - 1] == 13 {
        nl - 1
    } else {
        nl
    };
    proof {
        let raw = d@.subrange(pos as int, nl as int);
        if nl > pos && d@[nl - 1] == 13 {
            assert(raw[raw.len() - 1] == 13);
            assert(d@.subrange(pos as int, end as int) =~= raw.subrange(0, raw.len() - 1));
        } else {
            if raw.len() > 0 {
                assert(raw[raw.len() - 1] == d@[nl - 1]);
            }
            assert(d@.subrange(pos as int, end as int) =~= raw);
        }
    }
    (nl, end)
}

/// Scans the header for the first nonempty `SourceURL:` value.
fn scan_source_url(d: &Vec<u8>) -> (r: Option<Vec<u8>>)
    ensures
        r is Some <==> header_source_url(d@) is Some,
        r is Some ==> r->Some_0@ == header_source_url(d@)->Some_0,
{
    let prefix = source_url_prefix_vec();
    let n = d.len();
    let mut pos: usize = 0;
    while pos < n
        invariant
            0 <= pos <= n,
            n == d@.len(),
            prefix@ == source_url_prefix(),
            header_source_url(d@) == source_url_from(d@, pos as int),
        decreases n - pos,
    {
        let (nl, end) = line_bounds(d, pos);
        let ghost line = strip_cr(d@.subrange(pos as int, nl as int));
        if line_has_prefix(d, pos, end, &prefix) {
            let raw_val = bytes_range(d, pos + 10, end);
            let val = trim_bytes_vec(&raw_val);
            proof {
                assert(line.subrange(10, line.len() as int) =~= d@.subrange(pos + 10, end as int));
            }
            if val.len() > 0 {
                return Some(val);
            }
        }
        if nl >= n {
            return None;
        }
        pos = nl + 1;
    }
    None
}

/// Scans the header for the last `StartFragment:` and `EndFragment:`
/// values.
fn scan_frag_bounds(d: &Vec<u8>) -> (r: (Option<usize>, Option<usize>))
    ensures
        (match r.0 {
            Some(v) => Some(v as int),
            None => None,
        }) == header_frag_bounds(d@).0,
        (match r.1 {
            Some(v) => Some(v as int),
            None => None,
        }) == header_frag_bounds(d@).1,
{
    let start_prefix = start_fragment_prefix_vec();
    let end_prefix = end_fragment_prefix_vec();
    let n = d.len();
    let mut pos: usize = 0;
    let mut cur_s: Option<usize> = None;
    let mut cur_e: Option<usize> = None;
    while pos < n
        invariant
            0 <= pos <= n,
            n == d@.len(),
            start_prefix@ == start_fragment_prefix(),
            end_prefix@ == end_fragment_prefix(),
            header_frag_bounds(d@) == frag_bounds_from(
                d@,
                pos as int,
                match cur_s {
                    Some(v) => Some(v as int),
                    None => None,
                },
                match cur_e {
                    Some(v) => Some(v as int),
                    None => None,
                },
            ),
        decreases n - pos,
    {
        let (nl, end) = line_bounds(d, pos);
        let ghost line = strip_cr(d@.subrange(pos as int, nl as int));
        if line_has_prefix(d, pos, end, &start_prefix) {
            let raw_val = bytes_range(d, pos + 14, end);
            let val = trim_bytes_vec(&raw_val);
            proof {
                assert(line.subrange(14, line.len() as int) =~= d@.subrange(pos + 14, end as int));
            }
            cur_s = parse_offset(&val);
        }
        if line_has_prefix(d, pos, end, &end_prefix) {
            let raw_val = bytes_range(d, pos + 12, end);
            let val = trim_bytes_vec(&raw_val);
            proof {
                assert(line.subrange(12, line.len() as int) =~= d@.subrange(pos + 12, end as int));
            }
            cur_e = parse_offset(&val);
        }
        if nl >= n {
            return (cur_s, cur_e);
        }
        pos = nl + 1;
    }
    (cur_s, cur_e)
}

/// Checks that a byte range is entirely ASCII whitespace.
fn range_all_space(d: &Vec<u8>, from: usize, to: usize) -> (r: bool)
    requires
        from <= to <= d@.len(),
    ensures
        r == all_space_bytes(d@.subrange(from as int, to as int)),
{
    let mut i = from;
    while i < to
        invariant
            from <= i <= to <= d@.len(),
            forall|k: int| from <= k < i ==> is_space_byte(d@[k]),
        decreases to - i,
    {
        if !is_space_b(d[i]) {
            proof {
                assert(d@.subrange(from as int, to as int)[i - from] == d@[i as int]);
            }
            return false;
        }
        i += 1;
    }
    true
}

/// Parses the HTML-format payload: the header's source URL (decoded
/// leniently from UTF-8) and the HTML fragment between the header's byte
/// offsets, subject to the size and non-blank rules.
pub fn parse_html_payload(d: &Vec<u8>) -> (r: (Option<String>, Option<String>))
    ensures
        r.0 is Some <==> header_source_url(d@) is Some,
        r.0 is Some ==> r.0->Some_0@ == utf8_lossy_of(header_source_url(d@)->Some_0),
        r.1 is Some <==> header_fragment(d@) is Some,
        r.1 is Some ==> r.1->Some_0@ == utf8_lossy_of(header_fragment(d@)->Some_0),
{
    let url = match scan_source_url(d) {
        Some(raw) => Some(utf8_lossy_to_string(&raw)),
        None => None,
    };
    let (s, e) = scan_frag_bounds(d);
    let frag = match (s, e) {
        (Some(s), Some(e)) => {
            if s < e && e <= d.len() && e - s <= MAX_TEXT_BYTES && !range_all_space(d, s, e) {
                let raw = bytes_range(d, s, e);
                Some(utf8_lossy_to_string(&raw))
            } else {
                None
            }
        },
        _ => None,
    };
    (url, frag)
}

// ---------------------------------------------------------------------------
// Text decoding.
// ---------------------------------------------------------------------------

/// The first position at or after `from` holding a zero code unit, or the
/// length of `units` when there is none.
pub open spec fn find_nul_u16(units: Seq<u16>, from: int) -> int
    decreases units.len() - from,
{
    if from < 0 || from >= units.len() {
        units.len() as int
    } else if units[from] == 0 {
        from
    } else {
        find_nul_u16(units, from + 1)
    }
}

/// The text carried by the Unicode format: the code units up to the first
/// terminator, decoded leniently.
pub open spec fn utf16_text_of(units: Seq<u16>) -> Seq<char> {
    utf16_lossy_of(units.subrange(0, find_nul_u16(units, 0)))
}

/// Whether the Unicode text is accepted: its UTF-8 size is within bounds.
pub open spec fn unicode_accepted(units: Seq<u16>) -> bool {
    vstd::utf8::encode_utf8(utf16_text_of(units)).len() <= MAX_TEXT_BYTES
}

/// Each byte read as the character with the same code point, the classic
/// single-byte fallback mapping.
pub open spec fn latin1_of(p: Seq<u8>) -> Seq<char> {
    Seq::new(p.len(), |i: int| p[i] as char)
}

/// The bytes of the legacy text format up to its first terminator.
pub open spec fn ansi_prefix(bytes: Seq<u8>) -> Seq<u8> {
    bytes.subrange(0, find_byte(bytes, 0, 0))
}

/// The text carried by the legacy format: decoded as UTF-8 when valid,
/// otherwise through the byte-to-character fallback.
pub open spec fn ansi_text_of(bytes: Seq<u8>) -> Seq<char> {
    let p = ansi_prefix(bytes);
    if vstd::utf8::valid_utf8(p) {
        vstd::utf8::decode_utf8(p)
    } else {
        latin1_of(p)
    }
}

/// Whether the legacy text is accepted: its byte length is within bounds.
pub open spec fn ansi_accepted(bytes: Seq<u8>) -> bool {
    ansi_prefix(bytes).len() <= MAX_TEXT_BYTES
}

/// Decodes the Unicode text payload: the code units up to the first
/// terminator, decoded leniently, accepted when the result is not
/// oversized.
pub fn decode_unicode_text(units: &Vec<u16>) -> (r: Option<String>)
    ensures
        r is Some <==> unicode_accepted(units@),
        r is Some ==> r->Some_0@ == utf16_text_of(units@),
{
    let n = units.len();
    let mut i: usize = 0;
    while i < n && units[i] != 0
        invariant
            0 <= i <= n,
            n == units@.len(),
            find_nul_u16(units@, 0) == find_nul_u16(units@, i as int),
        decreases n - i,
    {
        i += 1;
    }
    let mut prefix: Vec<u16> = Vec::new();
    let mut k: usize = 0;
    while k < i
        invariant
            0 <= k <= i <= units@.len(),
            prefix@ == units@.subrange(0, k as int),
        decreases i - k,
    {
        prefix.push(units[k]);
        proof {
            assert(prefix@ =~= units@.subrange(0, k + 1));
        }
        k += 1;
    }
    proof {
        assert(i as int == find_nul_u16(units@, 0));
    }
    let s = utf16_lossy_to_string(&prefix);
    proof {
        assert(s@ == utf16_text_of(units@));
    }
    let b = s.as_str().as_bytes();
    proof {
        assert(b@ == vstd::utf8::encode_utf8(s@));
    }
    if b.len() <= MAX_TEXT_BYTES {
        Some(s)
    } else {
        None
    }
}

/// Decodes the legacy text payload: the bytes up to the first terminator,
/// as UTF-8 when valid and through the byte-to-character fallback
/// otherwise, accepted when not oversized.
pub fn decode_ansi_text(bytes: &Vec<u8>) -> (r: Option<String>)
    ensures
        r is Some <==> ansi_accepted(bytes@),
        r is Some ==> r->Some_0@ == ansi_text_of(bytes@),
{
    let end = find_byte_from(bytes, 0, 0);
    if end > MAX_TEXT_BYTES {
        return None;
    }
    let prefix = bytes_range(bytes, 0, end);
    match utf8_to_string(&prefix) {
        Some(s) => {
            proof {
                vstd::utf8::encode_utf8_decode_utf8(s@);
            }
            Some(s)
        },
        None => {
            let mut chars: Vec<char> = Vec::new();
            let mut i: usize = 0;
            while i < prefix.len()
                invariant
                    0 <= i <= prefix@.len(),
                    chars@.len() == i,
                    forall|k: int| 0 <= k < i ==> chars@[k] == prefix@[k] as char,
                decreases prefix@.len() - i,
            {
                chars.push(prefix[i] as char);
                i += 1;
            }
            proof {
                assert(chars@ =~= latin1_of(prefix@));
            }
            Some(chars_to_string(&chars))
        },
    }
}

// ---------------------------------------------------------------------------
// Image negotiation.
// ---------------------------------------------------------------------------

/// True when the payload is large enough to be a PNG file and begins with
/// the PNG signature.
pub open spec fn png_magic_ok(d: Seq<u8>) -> bool {
    d.len() > 8 && d[0] == 0x89 && d[1] == 0x50 && d[2] == 0x4e && d[3] == 0x47
}

/// Checks the PNG signature.
fn png_magic(d: &Vec<u8>) -> (r: bool)
    ensures
        r == png_magic_ok(d@),
{
    d.len() > 8 && d[0] == 0x89 && d[1] == 0x50 && d[2] == 0x4e && d[3] == 0x47
}

/// The PNG view of a raw bitmap payload, as `dib_to_png` promises it.
pub open spec fn dib_png_view(d: Seq<u8>) -> Seq<u8> {
    png_of(dib_width(d), dib_abs_height(d) as u32, dib_raster(d))
}

/// What the image negotiation yields, first success winning: a PNG
/// payload with a valid signature verbatim; else the decoded newer bitmap
/// when its header is accepted; else the decoded baseline bitmap; else
/// nothing.
pub open spec fn image_choice(
    png: Option<Seq<u8>>,
    v5: Option<Seq<u8>>,
    dib: Option<Seq<u8>>,
) -> Option<Seq<u8>> {
    if png is Some && png_magic_ok(png->Some_0) {
        png
    } else if v5 is Some && dib_ok(v5->Some_0) {
        Some(dib_png_view(v5->Some_0))
    } else if dib is Some && dib_ok(dib->Some_0) {
        Some(dib_png_view(dib->Some_0))
    } else {
        None
    }
}

/// Negotiates the image formats: a registered PNG payload with a valid
/// signature wins verbatim; otherwise the newer bitmap format is decoded,
/// then the baseline one.  Returns exactly the first success.
pub fn try_image(f: &ClipboardFormats) -> (r: Option<Vec<u8>>)
    ensures
        opt_bytes_view(r) == image_choice(
            opt_bytes_view(f.png),
            opt_bytes_view(f.dib_v5),
            opt_bytes_view(f.dib),
        ),
{
    if let Some(p) = &f.png {
        if png_magic(p) {
            return Some(p.clone());
        }
    }
    if let Some(v5) = &f.dib_v5 {
        let res = dib_to_png(v5);
        if res.is_some() {
            return res;
        }
    }
    if let Some(db) = &f.dib {
        return dib_to_png(db);
    }
    None
}

// ---------------------------------------------------------------------------
// Source-URL reconciliation and the unified extraction.
// ---------------------------------------------------------------------------

/// The characters of `http://`.
pub open spec fn http_prefix() -> Seq<char> {
    seq!['h', 't', 't', 'p', ':', '/', '/']
}

/// The characters of `https://`.
pub open spec fn https_prefix() -> Seq<char> {
    seq!['h', 't', 't', 'p', 's', ':', '/', '/']
}

/// True when `s` begins with `prefix`.
pub open spec fn starts_with_chars(s: Seq<char>, prefix: Seq<char>) -> bool {
    s.len() >= prefix.len() && s.subrange(0, prefix.len() as int) == prefix
}

/// True when `s` is an absolute HTTP or HTTPS URL by its scheme prefix.
pub open spec fn is_http_url(s: Seq<char>) -> bool {
    starts_with_chars(s, http_prefix()) || starts_with_chars(s, https_prefix())
}

/// True when `s` spans a single line.
pub open spec fn single_line(s: Seq<char>) -> bool {
    forall|i: int| 0 <= i < s.len() ==> s[i] != '\n'
}

/// The source URL that survives reconciliation: the header URL when it is
/// absolute HTTP(S); otherwise the trimmed text, when that is a single-line
/// HTTP(S) URL; otherwise none.
pub open spec fn reconciled_source(
    raw: Option<Seq<char>>,
    text: Option<Seq<char>>,
) -> Option<Seq<char>> {
    if raw is Some && is_http_url(raw->Some_0) {
        raw
    } else {
        match text {
            Some(t) => {
                let tr = trim_spaces(t);
                if is_http_url(tr) && single_line(tr) {
                    Some(tr)
                } else {
                    None
                }
            },
            None => None,
        }
    }
}

/// Checks whether the vector of characters begins with `prefix`.
fn chars_have_prefix(v: &Vec<char>, prefix: &Vec<char>) -> (r: bool)
    ensures
        r == starts_with_chars(v@, prefix@),
{
    let plen = prefix.len();
    if v.len() < plen {
        return false;
    }
    let mut k: usize = 0;
    while k < plen
        invariant
            0 <= k <= plen,
            plen == prefix@.len() <= v@.len(),
            forall|j: int| 0 <= j < k ==> v@[j] == prefix@[j],
        decreases plen - k,
    {
        if v[k] != prefix[k] {
            proof {
                assert(v@.subrange(0, plen as int)[k as int] != prefix@[k as int]);
            }
            return false;
        }
        k += 1;
    }
    proof {
        assert(v@.subrange(0, plen as int) =~= prefix@);
    }
    true
}

/// The exec characters of `http://`.
fn http_prefix_vec() -> (r: Vec<char>)
    ensures
        r@ == http_prefix(),
{
    let mut v: Vec<char> = Vec::new();
    v.push('h');
    v.push('t');
    v.push('t');
    v.push('p');
    v.push(':');
    v.push('/');
    v.push('/');
    proof {
        assert(v@ =~= http_prefix());
    }
    v
}

/// The exec characters of `https://`.
fn https_prefix_vec() -> (r: Vec<char>)
    ensures
        r@ == https_prefix(),
{
    let mut v: Vec<char> = Vec::new();
    v.push('h');
    v.push('t');
    v.push('t');
    v.push('p');
    v.push('s');
    v.push(':');
    v.push('/');
    v.push('/');
    proof {
        assert(v@ =~= https_prefix());
    }
    v
}

/// Checks the HTTP(S) scheme prefix on a vector of characters.
fn chars_is_http_url(v: &Vec<char>) -> (r: bool)
    ensures
        r == is_http_url(v@),
{
    let http = http_prefix_vec();
    let https = https_prefix_vec();
    chars_have_prefix(v, &http) || chars_have_prefix(v, &https)
}

/// Checks the HTTP(S) scheme prefix on a string.
pub fn str_is_http_url(s: &str) -> (r: bool)
    ensures
        r == is_http_url(s@),
{
    let chars = str_to_chars(s);
    chars_is_http_url(&chars)
}

/// Checks that the characters span a single line.
fn chars_single_line(v: &Vec<char>) -> (r: bool)
    ensures
        r == single_line(v@),
{
    let mut i: usize = 0;
    while i < v.len()
        invariant
            0 <= i <= v@.len(),
            forall|k: int| 0 <= k < i ==> v@[k] != '\n',
        decreases v@.len() - i,
    {
        if v[i] == '\n' {
            return false;
        }
        i += 1;
    }
    true
}

/// The view of an optional UTF-16 payload.
pub open spec fn uni_view(f: &ClipboardFormats) -> Option<Seq<u16>> {
    match f.unicode_text {
        Some(ref v) => Some(v@),
        None => None,
    }
}

/// The view of an optional byte payload.
pub open spec fn opt_bytes_view(o: Option<Vec<u8>>) -> Option<Seq<u8>> {
    match o {
        Some(ref v) => Some(v@),
        None => None,
    }
}

/// The text the extractor selects: the Unicode format when present and
/// accepted, else the legacy format when present and accepted, else none.
pub open spec fn selected_text(uni: Option<Seq<u16>>, ansi: Option<Seq<u8>>) -> Option<
    Seq<char>,
> {
    if uni is Some && unicode_accepted(uni->Some_0) {
        Some(utf16_text_of(uni->Some_0))
    } else {
        match ansi {
            Some(a) => {
                if ansi_accepted(a) {
                    Some(ansi_text_of(a))
                } else {
                    None
                }
            },
            None => None,
        }
    }
}

/// The raw source URL the HTML header contributes, decoded.
pub open spec fn raw_source(html: Option<Seq<u8>>) -> Option<Seq<char>> {
    match html {
        Some(d) => match header_source_url(d) {
            Some(b) => Some(utf8_lossy_of(b)),
            None => None,
        },
        None => None,
    }
}

/// True when the selected text is usable: present and not blank.
pub open spec fn has_usable_text(t: Option<Seq<char>>) -> bool {
    t is Some && !crate::text::all_space(t->Some_0)
}

/// Extracts the unified content bundle from the raw format payloads.
///
/// Text takes priority: an image is attempted only when no usable
/// (non-blank) text was found, so at most one of `text` and `image` is a
/// usable value.  The HTML header contributes the fragment and a candidate
/// source URL, which is kept only when it is an absolute HTTP(S) URL; when
/// it is not, a single-line HTTP(S) URL in the trimmed text takes its
/// place.
pub fn extract_content(f: &ClipboardFormats) -> (r: ExtractedContent)
    ensures
        // Text selection.
        r.text is Some <==> selected_text(uni_view(f), opt_bytes_view(f.ansi_text)) is Some,
        r.text is Some ==> r.text->Some_0@ == selected_text(
            uni_view(f),
            opt_bytes_view(f.ansi_text),
        )->Some_0,
        // HTML fragment.
        (match f.html {
            Some(ref d) => (r.html is Some <==> header_fragment(d@) is Some) && (r.html is Some
                ==> r.html->Some_0@ == utf8_lossy_of(header_fragment(d@)->Some_0)),
            None => r.html is None,
        }),
        // The image: negotiated exactly when no usable text was found,
        // absent otherwise — so text and image are mutually exclusive.
        opt_bytes_view(r.image) == (if has_usable_text(
            selected_text(uni_view(f), opt_bytes_view(f.ansi_text)),
        ) {
            None
        } else {
            image_choice(opt_bytes_view(f.png), opt_bytes_view(f.dib_v5), opt_bytes_view(f.dib))
        }),
        // Source-URL reconciliation.
        ({
            let want = reconciled_source(
                raw_source(opt_bytes_view(f.html)),
                selected_text(uni_view(f), opt_bytes_view(f.ansi_text)),
            );
            (r.source_url is Some <==> want is Some) && (r.source_url is Some
                ==> r.source_url->Some_0@ == want->Some_0)
        }),
{
    let (raw_url, html) = match &f.html {
        Some(d) => parse_html_payload(d),
        None => (None, None),
    };
    let mut text: Option<String> = None;
    if let Some(u) = &f.unicode_text {
        if let Some(s) = decode_unicode_text(u) {
            text = Some(s);
        }
    }
    if text.is_none() {
        if let Some(a) = &f.ansi_text {
            if let Some(s) = decode_ansi_text(a) {
                text = Some(s);
            }
        }
    }
    let usable = match &text {
        Some(t) => {
            let ch = str_to_chars(t.as_str());
            !crate::text::chars_all_space(&ch)
        },
        None => false,
    };
    let image = if !usable {
        try_image(f)
    } else {
        None
    };
    let keep_raw = match &raw_url {
        Some(u) => str_is_http_url(u.as_str()),
        None => false,
    };
    let source_url = if keep_raw {
        raw_url
    } else {
        match &text {
            Some(t) => {
                let ch = str_to_chars(t.as_str());
                let tr = trim_chars(&ch);
                if chars_is_http_url(&tr) && chars_single_line(&tr) {
                    Some(chars_to_string(&tr))
                } else {
                    None
                }
            },
            None => None,
        }
    };
    ExtractedContent { text, image, source_url, html }
}

} // verus!

