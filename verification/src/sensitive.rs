//! Multi-locale sensitive-data detection.
//!
//! A text is scanned in three tiers, stopping at the first hit: a
//! case-insensitive keyword list covering password and secret vocabulary in
//! many languages; a universal pattern set (email addresses, card numbers
//! validated by the Luhn checksum, IPv4 addresses, access-key and
//! secret-key shapes, JWT triplets, IBAN shapes); and a locale-specific set
//! selected by the active UI language (phone numbers, national ID numbers —
//! one with a weighted mod-11 checksum — tax and passport shapes), with an
//! English fallback for unsupported locales.  A pattern may carry a
//! checksum validator; a raw regex hit that the validator rejects does not
//! count, and the scan continues at later positions.

use vstd::prelude::*;

use crate::text::{contains_chars, contains_seq, lower_of, str_eq, str_to_chars, to_lowercase_str};
use vstd::string::StringSliceAdditionalSpecFns;

verus! {

/// The fancy_regex::Regex type, carried opaquely through pattern values.
#[verifier::external_type_specification]
#[verifier::external_body]
pub struct ExRegex(fancy_regex::Regex);

/// Whether fancy_regex accepts a pattern source; acceptance depends on
/// the source alone.
pub uninterp spec fn re_compiles(pat: Seq<char>) -> bool;

/// What fancy_regex's find-from-position reports for a regex compiled
/// from a given pattern source, on a given text (as its UTF-8 bytes) and
/// start byte position: the match's byte range and matched characters, or
/// nothing; the result depends on these three alone.
pub uninterp spec fn re_find_of(pat: Seq<char>, hay: Seq<u8>, pos: int) -> Option<
    (int, int, Seq<char>),
>;

/// Relies on fancy_regex::Regex::new: whether a pattern source compiles
/// depends on the source alone.
#[verifier::external_body]
fn regex_new(pat: &str) -> (r: Option<fancy_regex::Regex>)
    ensures
        r is Some <==> re_compiles(pat@),
{
    fancy_regex::Regex::new(pat).ok()
}

/// Relies on fancy_regex::Regex::find_from_pos, called on the regex
/// compiled from this pattern's stored source (the fields are private and
/// the one constructor compiles the regex from that source, so the two
/// always correspond): the find result is a function of the pattern
/// source, the text and the position; a reported match starts at or after
/// the position, lies within the text, and its matched substring is
/// exactly that byte range of the text.
#[verifier::external_body]
fn pattern_find_from(p: &Pattern, text: &str, pos: usize) -> (r: Option<(usize, usize, String)>)
    ensures
        r is None ==> re_find_of(p.source(), text.spec_bytes(), pos as int) is None,
        r is Some ==> re_find_of(p.source(), text.spec_bytes(), pos as int) == Some(
            (r->Some_0.0 as int, r->Some_0.1 as int, r->Some_0.2@),
        ),
        r is Some ==> pos <= r->Some_0.0 <= r->Some_0.1 <= text.spec_bytes().len(),
        r is Some ==> vstd::utf8::encode_utf8(r->Some_0.2@) == text.spec_bytes().subrange(
            r->Some_0.0 as int,
            r->Some_0.1 as int,
        ),
{
    match p.re.find_from_pos(text, pos) {
        Ok(Some(m)) => Some((m.start(), m.end(), m.as_str().to_string())),
        _ => None,
    }
}

// ---------------------------------------------------------------------------
// Checksum validators.
// ---------------------------------------------------------------------------

/// True when `c` is an ASCII digit.
pub open spec fn is_digit_char(c: char) -> bool {
    '0' <= c <= '9'
}

/// The numeric value of an ASCII digit.
pub open spec fn digit_val(c: char) -> int {
    c as int - 48
}

/// The ASCII digits of `s`, in order.
pub open spec fn luhn_digits(s: Seq<char>) -> Seq<int>
    decreases s.len(),
{
    if s.len() == 0 {
        Seq::empty()
    } else if is_digit_char(s[s.len() - 1]) {
        luhn_digits(s.subrange(0, s.len() - 1)).push(digit_val(s[s.len() - 1]))
    } else {
        luhn_digits(s.subrange(0, s.len() - 1))
    }
}

/// One digit's contribution to the Luhn sum: doubled on alternate
/// positions, with a digit sum taken when doubling overflows one digit.
pub open spec fn luhn_contrib(v: int, double: bool) -> int {
    if double {
        if v * 2 > 9 {
            v * 2 - 9
        } else {
            v * 2
        }
    } else {
        v
    }
}

/// The Luhn sum of the digits from position `j` on; the rightmost digit is
/// never doubled.
pub open spec fn luhn_sum_from(d: Seq<int>, j: int) -> int
    decreases d.len() - j,
{
    if j < 0 || j >= d.len() {
        0
    } else {
        luhn_contrib(d[j], (d.len() - 1 - j) % 2 == 1) + luhn_sum_from(d, j + 1)
    }
}

/// The Luhn acceptance condition: a card-sized run of digits whose Luhn
/// sum is divisible by ten.
pub open spec fn luhn_ok(s: Seq<char>) -> bool {
    let d = luhn_digits(s);
    13 <= d.len() <= 19 && luhn_sum_from(d, 0) % 10 == 0
}

/// Checks the Luhn checksum of the digits found in `raw`: true exactly
/// when they form a card-sized run whose alternating doubled sum is
/// divisible by ten.
pub fn luhn_check(raw: &str) -> (r: bool)
    ensures
        r == luhn_ok(raw@),
{
    let chars = str_to_chars(raw);
    let mut digits: Vec<u32> = Vec::new();
    let mut i: usize = 0;
    while i < chars.len()
        invariant
            0 <= i <= chars@.len(),
            chars@ == raw@,
            digits@.map_values(|v: u32| v as int) == luhn_digits(raw@.subrange(0, i as int)),
            forall|k: int| 0 <= k < digits@.len() ==> digits@[k] < 10,
        decreases chars@.len() - i,
    {
        let c = chars[i];
        proof {
            assert(raw@.subrange(0, i + 1).subrange(0, i as int) =~= raw@.subrange(0, i as int));
            assert(raw@.subrange(0, i + 1)[i as int] == raw@[i as int]);
        }
        if c >= '0' && c <= '9' {
            let v: u32 = (c as u32) - 48;
            digits.push(v);
            proof {
                assert(digits@.map_values(|v: u32| v as int) =~= luhn_digits(
                    raw@.subrange(0, i + 1),
                ));
            }
        } else {
            proof {
                assert(digits@.map_values(|v: u32| v as int) =~= luhn_digits(
                    raw@.subrange(0, i + 1),
                ));
            }
        }
        i += 1;
    }
    proof {
        assert(raw@.subrange(0, raw@.len() as int) =~= raw@);
    }
    let n = digits.len();
    if n < 13 || n > 19 {
        return false;
    }
    let ghost dseq = digits@.map_values(|v: u32| v as int);
    let mut sum: u32 = 0;
    let mut j: usize = n;
    while j > 0
        invariant
            0 <= j <= n,
            n == digits@.len() <= 19,
            dseq == digits@.map_values(|v: u32| v as int),
            forall|k: int| 0 <= k < digits@.len() ==> digits@[k] < 10,
            sum == luhn_sum_from(dseq, j as int),
            sum <= 9 * (n - j),
        decreases j,
    {
        j -= 1;
        let v = digits[j];
        let double = (n - 1 - j) % 2 == 1;
        let c: u32 = if double {
            if v * 2 > 9 {
                v * 2 - 9
            } else {
                v * 2
            }
        } else {
            v
        };
        sum = sum + c;
    }
    sum % 10 == 0
}

/// The ASCII letters and digits of `s`, in order.
pub open spec fn cid_chars(s: Seq<char>) -> Seq<char>
    decreases s.len(),
{
    if s.len() == 0 {
        Seq::empty()
    } else if is_alnum_char(s[s.len() - 1]) {
        cid_chars(s.subrange(0, s.len() - 1)).push(s[s.len() - 1])
    } else {
        cid_chars(s.subrange(0, s.len() - 1))
    }
}

/// True when `c` is an ASCII letter or digit.
pub open spec fn is_alnum_char(c: char) -> bool {
    ('0' <= c <= '9') || ('a' <= c <= 'z') || ('A' <= c <= 'Z')
}

/// The weight of position `i` in the national-ID checksum.
pub open spec fn cid_weight(i: int) -> int {
    if i == 0 {
        7
    } else if i == 1 {
        9
    } else if i == 2 {
        10
    } else if i == 3 {
        5
    } else if i == 4 {
        8
    } else if i == 5 {
        4
    } else if i == 6 {
        2
    } else if i == 7 {
        1
    } else if i == 8 {
        6
    } else if i == 9 {
        3
    } else if i == 10 {
        7
    } else if i == 11 {
        9
    } else if i == 12 {
        10
    } else if i == 13 {
        5
    } else if i == 14 {
        8
    } else if i == 15 {
        4
    } else if i == 16 {
        2
    } else {
        0
    }
}

/// The weighted checksum of the first seventeen ID digits, from position
/// `i` on.
pub open spec fn cid_sum_from(c: Seq<char>, i: int) -> int
    decreases 17 - i,
{
    if i < 0 || i >= 17 {
        0
    } else {
        digit_val(c[i]) * cid_weight(i) + cid_sum_from(c, i + 1)
    }
}

/// The check character demanded by a weighted sum, through its remainder
/// modulo eleven.
pub open spec fn cid_check_char(m: int) -> char {
    if m == 0 {
        '1'
    } else if m == 1 {
        '0'
    } else if m == 2 {
        'X'
    } else if m == 3 {
        '9'
    } else if m == 4 {
        '8'
    } else if m == 5 {
        '7'
    } else if m == 6 {
        '6'
    } else if m == 7 {
        '5'
    } else if m == 8 {
        '4'
    } else if m == 9 {
        '3'
    } else {
        '2'
    }
}

/// The national-ID acceptance condition: exactly eighteen letters and
/// digits, the first seventeen all digits, and a final character that
/// matches the weighted mod-11 check character, case-insensitively.
pub open spec fn china_id_ok(s: Seq<char>) -> bool {
    let c = cid_chars(s);
    &&& c.len() == 18
    &&& (forall|i: int| 0 <= i < 17 ==> is_digit_char(c[i]))
    &&& {
        let expected = cid_check_char(cid_sum_from(c, 0) % 11);
        c[17] == expected || (c[17] == 'x' && expected == 'X')
    }
}

/// Checks the mod-11 weighted checksum of an eighteen-character national
/// ID: the seventeen leading digits, weighted and summed, must demand the
/// final check character.
pub fn china_id_check(raw: &str) -> (r: bool)
    ensures
        r == china_id_ok(raw@),
{
    let chars = str_to_chars(raw);
    let mut kept: Vec<char> = Vec::new();
    let mut i: usize = 0;
    while i < chars.len()
        invariant
            0 <= i <= chars@.len(),
            chars@ == raw@,
            kept@ == cid_chars(raw@.subrange(0, i as int)),
        decreases chars@.len() - i,
    {
        let c = chars[i];
        proof {
            assert(raw@.subrange(0, i + 1).subrange(0, i as int) =~= raw@.subrange(0, i as int));
            assert(raw@.subrange(0, i + 1)[i as int] == raw@[i as int]);
        }
        if (c >= '0' && c <= '9') || (c >= 'a' && c <= 'z') || (c >= 'A' && c <= 'Z') {
            kept.push(c);
        }
        i += 1;
    }
    proof {
        assert(raw@.subrange(0, raw@.len() as int) =~= raw@);
    }
    if kept.len() != 18 {
        return false;
    }
    let mut sum: u64 = 0;
    let mut k: usize = 17;
    while k > 0
        invariant
            0 <= k <= 17,
            kept@.len() == 18,
            kept@ == cid_chars(raw@),
            forall|i: int| k <= i < 17 ==> is_digit_char(kept@[i]),
            sum == cid_sum_from(kept@, k as int),
            sum <= 10 * 17 * (17 - k),
        decreases k,
    {
        k -= 1;
        let c = kept[k];
        if c < '0' || c > '9' {
            return false;
        }
        let v: u64 = (c as u64) - 48;
        let w = cid_weight_at(k);
        proof {
            assert(v * (w as u64) <= 90) by (nonlinear_arith)
                requires
                    v <= 9 && w <= 10,
            ;
            assert(sum <= 10 * 17 * (17 - (k + 1)));
            assert(sum + v * (w as u64) <= 10 * 17 * (17 - k));
        }
        sum = sum + v * (w as u64);
    }
    let m = (sum % 11) as usize;
    let expected = cid_check_char_at(m);
    let last = kept[17];
    last == expected || (last == 'x' && expected == 'X')
}

/// The checksum weight of position `i`.
fn cid_weight_at(i: usize) -> (w: u32)
    requires
        i < 17,
    ensures
        w == cid_weight(i as int),
        w <= 10,
{
    match i {
        0 => 7,
        1 => 9,
        2 => 10,
        3 => 5,
        4 => 8,
        5 => 4,
        6 => 2,
        7 => 1,
        8 => 6,
        9 => 3,
        10 => 7,
        11 => 9,
        12 => 10,
        13 => 5,
        14 => 8,
        15 => 4,
        _ => 2,
    }
}

/// The check character for a remainder.
fn cid_check_char_at(m: usize) -> (c: char)
    requires
        m < 11,
    ensures
        c == cid_check_char(m as int),
{
    match m {
        0 => '1',
        1 => '0',
        2 => 'X',
        3 => '9',
        4 => '8',
        5 => '7',
        6 => '6',
        7 => '5',
        8 => '4',
        9 => '3',
        _ => '2',
    }
}

// ---------------------------------------------------------------------------
// Patterns.
// ---------------------------------------------------------------------------

/// The checksum attached to a pattern, if any.
pub enum Validator {
    /// A raw regex hit counts.
    NoCheck,
    /// The hit must pass the Luhn card checksum.
    Luhn,
    /// The hit must pass the weighted national-ID checksum.
    ChinaId,
}

/// A compiled detection pattern: the regex, the source it was compiled
/// from, and the optional checksum validator.  The fields are private and
/// the one constructor compiles the regex from the stored source, so the
/// two always correspond.
pub struct Pattern {
    re: fancy_regex::Regex,
    src: String,
    validate: Validator,
}

/// True when some byte range of `bytes` decodes to text that passes the
/// Luhn checksum.
pub open spec fn has_luhn_match(bytes: Seq<u8>) -> bool {
    exists|i: int, j: int|
        0 <= i <= j <= bytes.len() && vstd::utf8::valid_utf8(#[trigger] bytes.subrange(i, j))
            && luhn_ok(vstd::utf8::decode_utf8(bytes.subrange(i, j)))
}

/// True when some byte range of `bytes` decodes to text that passes the
/// national-ID checksum.
pub open spec fn has_china_id_match(bytes: Seq<u8>) -> bool {
    exists|i: int, j: int|
        0 <= i <= j <= bytes.len() && vstd::utf8::valid_utf8(#[trigger] bytes.subrange(i, j))
            && china_id_ok(vstd::utf8::decode_utf8(bytes.subrange(i, j)))
}

/// Whether a validator accepts a matched text.
pub open spec fn validator_accepts(v: Validator, m: Seq<char>) -> bool {
    match v {
        Validator::NoCheck => true,
        Validator::Luhn => luhn_ok(m),
        Validator::ChinaId => china_id_ok(m),
    }
}

/// The scan a pattern performs over a text's bytes: repeated finds from
/// ascending positions, resuming past a validator-rejected hit at the hit
/// end (or one byte further for an empty hit).  True at the first
/// accepted hit; false when the find fails or the positions are
/// exhausted.
pub open spec fn scan_matches(pat: Seq<char>, v: Validator, hay: Seq<u8>, pos: int) -> bool
    decreases hay.len() - pos,
{
    if pos < 0 || pos >= hay.len() {
        false
    } else {
        match re_find_of(pat, hay, pos) {
            None => false,
            Some(m) => if validator_accepts(v, m.2) {
                true
            } else {
                let next = if m.1 > pos {
                    m.1
                } else {
                    pos + 1
                };
                scan_matches(
                    pat,
                    v,
                    hay,
                    if next > hay.len() {
                        hay.len() as int
                    } else {
                        next
                    },
                )
            },
        }
    }
}

impl Pattern {
    /// The pattern source the regex was compiled from.
    pub closed spec fn source(&self) -> Seq<char> {
        self.src@
    }

    /// The checksum the matched text must also pass.
    pub closed spec fn validator(&self) -> Validator {
        self.validate
    }

    /// Compiles a detection pattern; fails exactly on an invalid regex.
    pub fn new(pat: &str, validate: Validator) -> (r: Option<Pattern>)
        ensures
            r is Some <==> re_compiles(pat@),
            r is Some ==> r->Some_0.source() == pat@ && r->Some_0.validator() == validate,
    {
        match regex_new(pat) {
            Some(re) => Some(Pattern { re, src: pat.to_owned(), validate }),
            None => None,
        }
    }

    /// Scans `text` for a match that its validator accepts, continuing
    /// past rejected hits: true exactly when the scan over the named find
    /// result succeeds.  A true result with a checksum validator attached
    /// also guarantees that some substring of the text passes that
    /// checksum.
    pub fn matches(&self, text: &str) -> (r: bool)
        ensures
            r == scan_matches(self.source(), self.validator(), text.spec_bytes(), 0),
            r && self.validator() is Luhn ==> has_luhn_match(text.spec_bytes()),
            r && self.validator() is ChinaId ==> has_china_id_match(text.spec_bytes()),
    {
        let ghost src = self.source();
        let ghost v = self.validator();
        let ghost hay = text.spec_bytes();
        let n = text.as_bytes().len();
        let mut start: usize = 0;
        while start < n
            invariant
                0 <= start,
                n == hay.len(),
                hay == text.spec_bytes(),
                src == self.source(),
                v == self.validator(),
                scan_matches(src, v, hay, 0) == scan_matches(src, v, hay, start as int),
            decreases n - start,
        {
            match pattern_find_from(self, text, start) {
                Some((s, e, m)) => {
                    let ok = match self.validate {
                        Validator::NoCheck => true,
                        Validator::Luhn => luhn_check(m.as_str()),
                        Validator::ChinaId => china_id_check(m.as_str()),
                    };
                    proof {
                        assert(ok == validator_accepts(v, m@));
                    }
                    if ok {
                        proof {
                            vstd::utf8::encode_utf8_valid_utf8(m@);
                            vstd::utf8::encode_utf8_decode_utf8(m@);
                            assert(text.spec_bytes().subrange(s as int, e as int)
                                == vstd::utf8::encode_utf8(m@));
                            assert(scan_matches(src, v, hay, start as int));
                        }
                        return true;
                    }
                    let next = if e > start {
                        e
                    } else {
                        start + 1
                    };
                    proof {
                        assert(next <= hay.len());
                        assert(scan_matches(src, v, hay, start as int) == scan_matches(
                            src,
                            v,
                            hay,
                            next as int,
                        ));
                    }
                    start = next;
                },
                None => {
                    proof {
                        assert(!scan_matches(src, v, hay, start as int));
                    }
                    return false;
                },
            }
        }
        proof {
            assert(!scan_matches(src, v, hay, start as int));
        }
        false
    }
}

// ---------------------------------------------------------------------------
// Keyword tier.
// ---------------------------------------------------------------------------

/// True when the lowercased text contains one of the password/secret
/// keywords (password and secret vocabulary across many languages).
pub open spec fn keyword_hit(lower: Seq<char>) -> bool {
    ||| contains_seq(lower, "password"@)
    ||| contains_seq(lower, "passwd"@)
    ||| contains_seq(lower, "\u{5bc6}\u{7801}"@)
    ||| contains_seq(lower, "\u{5bc6}\u{78bc}"@)
    ||| contains_seq(lower, "secret"@)
    ||| contains_seq(lower, "token"@)
    ||| contains_seq(lower, "api_key"@)
    ||| contains_seq(lower, "apikey"@)
    ||| contains_seq(lower, "api-key"@)
    ||| contains_seq(lower, "access_key"@)
    ||| contains_seq(lower, "private_key"@)
    ||| contains_seq(lower, "client_secret"@)
    ||| contains_seq(lower, "\u{30d1}\u{30b9}\u{30ef}\u{30fc}\u{30c9}"@)
    ||| contains_seq(lower, "\u{be44}\u{bc00}\u{bc88}\u{d638}"@)
    ||| contains_seq(lower, "\u{43f}\u{430}\u{440}\u{43e}\u{43b}\u{44c}"@)
    ||| contains_seq(lower, "\u{643}\u{644}\u{645}\u{629} \u{627}\u{644}\u{645}\u{631}\u{648}\u{631}"@)
    ||| contains_seq(lower, "m\u{1ead}t kh\u{1ea9}u"@)
    ||| contains_seq(lower, "\u{e23}\u{e2b}\u{e31}\u{e2a}\u{e1c}\u{e48}\u{e32}\u{e19}"@)
    ||| contains_seq(lower, "kata sandi"@)
    ||| contains_seq(lower, "\u{15f}ifre"@)
    ||| contains_seq(lower, "has\u{142}o"@)
    ||| contains_seq(lower, "wachtwoord"@)
    ||| contains_seq(lower, "passwort"@)
    ||| contains_seq(lower, "contrase\u{f1}a"@)
    ||| contains_seq(lower, "senha"@)
    ||| contains_seq(lower, "mot de passe"@)
}

/// Checks one keyword against the lowercased text.
fn kw(hay: &Vec<char>, lit: &str) -> (r: bool)
    ensures
        r == contains_seq(hay@, lit@),
{
    let needle = str_to_chars(lit);
    contains_chars(hay, &needle)
}

/// Checks the whole keyword tier: true exactly when some keyword occurs in
/// the (already lowercased) text.
fn contains_keyword(lower: &str) -> (r: bool)
    ensures
        r == keyword_hit(lower@),
{
    let hay = str_to_chars(lower);
    if kw(&hay, "password") {
        return true;
    }
    if kw(&hay, "passwd") {
        return true;
    }
    if kw(&hay, "\u{5bc6}\u{7801}") {
        return true;
    }
    if kw(&hay, "\u{5bc6}\u{78bc}") {
        return true;
    }
    if kw(&hay, "secret") {
        return true;
    }
    if kw(&hay, "token") {
        return true;
    }
    if kw(&hay, "api_key") {
        return true;
    }
    if kw(&hay, "apikey") {
        return true;
    }
    if kw(&hay, "api-key") {
        return true;
    }
    if kw(&hay, "access_key") {
        return true;
    }
    if kw(&hay, "private_key") {
        return true;
    }
    if kw(&hay, "client_secret") {
        return true;
    }
    if kw(&hay, "\u{30d1}\u{30b9}\u{30ef}\u{30fc}\u{30c9}") {
        return true;
    }
    if kw(&hay, "\u{be44}\u{bc00}\u{bc88}\u{d638}") {
        return true;
    }
    if kw(&hay, "\u{43f}\u{430}\u{440}\u{43e}\u{43b}\u{44c}") {
        return true;
    }
    if kw(&hay, "\u{643}\u{644}\u{645}\u{629} \u{627}\u{644}\u{645}\u{631}\u{648}\u{631}") {
        return true;
    }
    if kw(&hay, "m\u{1ead}t kh\u{1ea9}u") {
        return true;
    }
    if kw(&hay, "\u{e23}\u{e2b}\u{e31}\u{e2a}\u{e1c}\u{e48}\u{e32}\u{e19}") {
        return true;
    }
    if kw(&hay, "kata sandi") {
        return true;
    }
    if kw(&hay, "\u{15f}ifre") {
        return true;
    }
    if kw(&hay, "has\u{142}o") {
        return true;
    }
    if kw(&hay, "wachtwoord") {
        return true;
    }
    if kw(&hay, "passwort") {
        return true;
    }
    if kw(&hay, "contrase\u{f1}a") {
        return true;
    }
    if kw(&hay, "senha") {
        return true;
    }
    if kw(&hay, "mot de passe") {
        return true;
    }
    false
}


// ---------------------------------------------------------------------------
// Pattern tiers and the detector.
// ---------------------------------------------------------------------------

/// One pattern's contribution to a tier: the source compiles and its scan
/// over the text's bytes finds a validated hit.
pub open spec fn pat_hit(src: Seq<char>, v: Validator, hay: Seq<u8>) -> bool {
    re_compiles(src) && scan_matches(src, v, hay, 0)
}

/// The universal tier, applied for every locale: email addresses, card
/// numbers validated by the Luhn checksum, IPv4 addresses, cloud
/// access-key shapes, API secret-key shapes, JWT triplets, and IBAN
/// shapes.
pub open spec fn universal_hit(hay: Seq<u8>) -> bool {
    ||| pat_hit(r"(?i)\b[a-z0-9._%+\-]+@[a-z0-9.\-]+\.[a-z]{2,}\b"@, Validator::NoCheck, hay)
    ||| pat_hit(r"\b\d{4}[\s\-]?\d{4}[\s\-]?\d{4}[\s\-]?\d{3,4}\b"@, Validator::Luhn, hay)
    ||| pat_hit(
        r"\b(?:25[0-5]|2[0-4]\d|[01]?\d\d?)\.(?:25[0-5]|2[0-4]\d|[01]?\d\d?)\.(?:25[0-5]|2[0-4]\d|[01]?\d\d?)\.(?:25[0-5]|2[0-4]\d|[01]?\d\d?)\b"@,
        Validator::NoCheck,
        hay,
    )
    ||| pat_hit(r"\bAKIA[0-9A-Z]{16}\b"@, Validator::NoCheck, hay)
    ||| pat_hit(r"(?i)\b(?:sk|pk)_(?:live|test)_[a-z0-9]{20,}\b"@, Validator::NoCheck, hay)
    ||| pat_hit(r"\beyJ[A-Za-z0-9\-_]+\.eyJ[A-Za-z0-9\-_]+\.[A-Za-z0-9\-_.+/=]+\b"@, Validator::NoCheck, hay)
    ||| pat_hit(
        r"\b[A-Z]{2}\d{2}[\s]?[A-Z0-9]{4}[\s]?(?:[A-Z0-9]{4}[\s]?){2,7}[A-Z0-9]{1,4}\b"@,
        Validator::NoCheck,
        hay,
    )
}

/// The `zh-CN` locale's pattern set.
pub open spec fn cn_hit(hay: Seq<u8>) -> bool {
    ||| pat_hit(r"(?<!\d)1[3-9]\d{9}(?!\d)"@, Validator::NoCheck, hay)
    ||| pat_hit(r"(?<!\d)\d{17}[\dXx](?!\d)"@, Validator::ChinaId, hay)
}

/// The `zh-TW` locale's pattern set.
pub open spec fn tw_hit(hay: Seq<u8>) -> bool {
    ||| pat_hit(r"(?<!\d)09\d{8}(?!\d)"@, Validator::NoCheck, hay)
    ||| pat_hit(r"(?<![A-Za-z])[A-Z][12]\d{8}(?!\d)"@, Validator::NoCheck, hay)
}

/// The `ja` locale's pattern set.
pub open spec fn ja_hit(hay: Seq<u8>) -> bool {
    ||| pat_hit(r"(?<!\d)0[789]0[\-\s]?\d{4}[\-\s]?\d{4}(?!\d)"@, Validator::NoCheck, hay)
    ||| pat_hit(r"(?<!\d)\d{4}[\s]?\d{4}[\s]?\d{4}(?!\d)"@, Validator::NoCheck, hay)
}

/// The `ko` locale's pattern set.
pub open spec fn ko_hit(hay: Seq<u8>) -> bool {
    ||| pat_hit(r"(?<!\d)01[016789][\-\s]?\d{3,4}[\-\s]?\d{4}(?!\d)"@, Validator::NoCheck, hay)
    ||| pat_hit(r"(?<!\d)\d{6}[\-\s]\d{7}(?!\d)"@, Validator::NoCheck, hay)
}

/// The `fr` locale's pattern set.
pub open spec fn fr_hit(hay: Seq<u8>) -> bool {
    ||| pat_hit(r"(?<!\d)(?:\+33[\s\-]?|0)[67](?:[\s\.\-]?\d{2}){4}(?!\d)"@, Validator::NoCheck, hay)
    ||| pat_hit(r"(?<!\d)[12]\s?\d{2}\s?\d{2}\s?\d{2}\s?\d{3}\s?\d{3}\s?\d{2}(?!\d)"@, Validator::NoCheck, hay)
}

/// The `de` locale's pattern set.
pub open spec fn de_hit(hay: Seq<u8>) -> bool {
    ||| pat_hit(r"(?<!\d)(?:\+49[\s\-]?|0)1[567]\d[\s\-]?\d{3,4}[\s\-]?\d{4}(?!\d)"@, Validator::NoCheck, hay)
    ||| pat_hit(r"(?<!\d)\d{11}(?!\d)"@, Validator::NoCheck, hay)
}

/// The `es` locale's pattern set.
pub open spec fn es_hit(hay: Seq<u8>) -> bool {
    ||| pat_hit(r"(?<!\d)(?:\+34[\s\-]?)?[67]\d{2}[\s\-]?\d{3}[\s\-]?\d{3}(?!\d)"@, Validator::NoCheck, hay)
    ||| pat_hit(r"(?<!\d)\d{8}[\-\s]?[A-Z](?![A-Za-z])"@, Validator::NoCheck, hay)
    ||| pat_hit(r"(?<![A-Za-z])[XYZ]\d{7}[\-\s]?[A-Z](?![A-Za-z])"@, Validator::NoCheck, hay)
}

/// The `pt` locale's pattern set.
pub open spec fn pt_hit(hay: Seq<u8>) -> bool {
    ||| pat_hit(r"(?<!\d)\d{3}\.?\d{3}\.?\d{3}[\-]?\d{2}(?!\d)"@, Validator::NoCheck, hay)
    ||| pat_hit(r"(?<!\d)\(?\d{2}\)?[\s\-]?9\d{4}[\-\s]?\d{4}(?!\d)"@, Validator::NoCheck, hay)
    ||| pat_hit(r"(?<!\d)(?:\+351[\s\-]?)?9[1236]\d[\s\-]?\d{3}[\s\-]?\d{3}(?!\d)"@, Validator::NoCheck, hay)
}

/// The `ru` locale's pattern set.
pub open spec fn ru_hit(hay: Seq<u8>) -> bool {
    ||| pat_hit(r"(?<!\d)(?:\+7|8)[\s\-]?9\d{2}[\s\-]?\d{3}[\s\-]?\d{2}[\s\-]?\d{2}(?!\d)"@, Validator::NoCheck, hay)
    ||| pat_hit(r"(?<!\d)\d{4}[\s]\d{6}(?!\d)"@, Validator::NoCheck, hay)
    ||| pat_hit(r"(?<!\d)\d{3}[\-]\d{3}[\-]\d{3}[\s]\d{2}(?!\d)"@, Validator::NoCheck, hay)
}

/// The `ar` locale's pattern set.
pub open spec fn ar_hit(hay: Seq<u8>) -> bool {
    ||| pat_hit(r"(?<!\d)(?:\+966[\s\-]?)?05\d[\s\-]?\d{3}[\s\-]?\d{4}(?!\d)"@, Validator::NoCheck, hay)
    ||| pat_hit(r"(?<!\d)(?:\+20[\s\-]?)?01[0125]\d{8}(?!\d)"@, Validator::NoCheck, hay)
    ||| pat_hit(r"(?<!\d)(?:\+971[\s\-]?)?05[0-9]\d[\s\-]?\d{3}[\s\-]?\d{4}(?!\d)"@, Validator::NoCheck, hay)
    ||| pat_hit(r"(?<!\d)[12]\d{9}(?!\d)"@, Validator::NoCheck, hay)
}

/// The `th` locale's pattern set.
pub open spec fn th_hit(hay: Seq<u8>) -> bool {
    ||| pat_hit(r"(?<!\d)(?:\+66[\s\-]?)?0[689]\d[\s\-]?\d{3}[\s\-]?\d{4}(?!\d)"@, Validator::NoCheck, hay)
    ||| pat_hit(r"(?<!\d)\d[\-\s]?\d{4}[\-\s]?\d{5}[\-\s]?\d{2}[\-\s]?\d(?!\d)"@, Validator::NoCheck, hay)
}

/// The `vi` locale's pattern set.
pub open spec fn vi_hit(hay: Seq<u8>) -> bool {
    ||| pat_hit(r"(?<!\d)(?:\+84[\s\-]?)?0[35789]\d[\s\-]?\d{3}[\s\-]?\d{3}(?!\d)"@, Validator::NoCheck, hay)
    ||| pat_hit(r"(?<!\d)0\d{2}\d{9}(?!\d)"@, Validator::NoCheck, hay)
}

/// The `it` locale's pattern set.
pub open spec fn it_hit(hay: Seq<u8>) -> bool {
    ||| pat_hit(r"(?<!\d)(?:\+39[\s\-]?)?3\d{2}[\s\-]?\d{3}[\s\-]?\d{4}(?!\d)"@, Validator::NoCheck, hay)
    ||| pat_hit(r"(?<![A-Za-z])[A-Z]{6}\d{2}[A-Z]\d{2}[A-Z]\d{3}[A-Z](?![A-Za-z])"@, Validator::NoCheck, hay)
}

/// The `nl` locale's pattern set.
pub open spec fn nl_hit(hay: Seq<u8>) -> bool {
    ||| pat_hit(r"(?<!\d)(?:\+31[\s\-]?|0)6[\s\-]?\d{2}[\s\-]?\d{2}[\s\-]?\d{2}[\s\-]?\d{2}(?!\d)"@, Validator::NoCheck, hay)
    ||| pat_hit(r"(?<!\d)\d{9}(?!\d)"@, Validator::NoCheck, hay)
}

/// The `pl` locale's pattern set.
pub open spec fn pl_hit(hay: Seq<u8>) -> bool {
    ||| pat_hit(r"(?<!\d)(?:\+48[\s\-]?)?[4-9]\d{2}[\s\-]?\d{3}[\s\-]?\d{3}(?!\d)"@, Validator::NoCheck, hay)
    ||| pat_hit(r"(?<!\d)\d{11}(?!\d)"@, Validator::NoCheck, hay)
}

/// The `tr` locale's pattern set.
pub open spec fn tr_hit(hay: Seq<u8>) -> bool {
    ||| pat_hit(r"(?<!\d)(?:\+90[\s\-]?)?5\d{2}[\s\-]?\d{3}[\s\-]?\d{2}[\s\-]?\d{2}(?!\d)"@, Validator::NoCheck, hay)
    ||| pat_hit(r"(?<!\d)[1-9]\d{10}(?!\d)"@, Validator::NoCheck, hay)
}

/// The `uk` locale's pattern set.
pub open spec fn uk_hit(hay: Seq<u8>) -> bool {
    ||| pat_hit(r"(?<!\d)(?:\+380[\s\-]?|0)[3-9]\d[\s\-]?\d{3}[\s\-]?\d{2}[\s\-]?\d{2}(?!\d)"@, Validator::NoCheck, hay)
    ||| pat_hit(r"(?<!\d)\d{10}(?!\d)"@, Validator::NoCheck, hay)
}

/// The `id` locale's pattern set.
pub open spec fn id_hit(hay: Seq<u8>) -> bool {
    ||| pat_hit(r"(?<!\d)(?:\+62[\s\-]?|0)8\d{2}[\s\-]?\d{4}[\s\-]?\d{3,4}(?!\d)"@, Validator::NoCheck, hay)
    ||| pat_hit(r"(?<!\d)\d{16}(?!\d)"@, Validator::NoCheck, hay)
}

/// The `hi` locale's pattern set.
pub open spec fn hi_hit(hay: Seq<u8>) -> bool {
    ||| pat_hit(r"(?<!\d)(?:\+91[\s\-]?)?[6-9]\d{4}[\s\-]?\d{5}(?!\d)"@, Validator::NoCheck, hay)
    ||| pat_hit(r"(?<!\d)\d{4}[\s\-]?\d{4}[\s\-]?\d{4}(?!\d)"@, Validator::NoCheck, hay)
    ||| pat_hit(r"(?<![A-Za-z])[A-Z]{5}\d{4}[A-Z](?![A-Za-z])"@, Validator::NoCheck, hay)
}

/// The English set, also the fallback for unsupported locales.
pub open spec fn en_hit(hay: Seq<u8>) -> bool {
    ||| pat_hit(r"(?<!\d)\(?\d{3}\)?[\s\-\.]\d{3}[\s\-\.]\d{4}(?!\d)"@, Validator::NoCheck, hay)
    ||| pat_hit(r"(?<!\d)\d{3}\-\d{2}\-\d{4}(?!\d)"@, Validator::NoCheck, hay)
    ||| pat_hit(r"(?i)\b[A-CEGHJ-PR-TW-Z][A-CEGHJ-NPR-TW-Z]\s?\d{2}\s?\d{2}\s?\d{2}\s?[A-D]\b"@, Validator::NoCheck, hay)
    ||| pat_hit(r"(?<!\d)(?:\+44[\s\-]?|0)7\d{3}[\s\-]?\d{6}(?!\d)"@, Validator::NoCheck, hay)
}

/// The locale-specific tier: phone numbers, national ID numbers (with
/// the weighted checksum where the scheme has one), tax IDs and passport
/// shapes, selected by the UI language; unsupported locales fall back to
/// the English set.
pub open spec fn regional_hit(lang: Seq<char>, hay: Seq<u8>) -> bool {
    if lang == "zh-CN"@ {
        cn_hit(hay)
    } else if lang == "zh-TW"@ {
        tw_hit(hay)
    } else if lang == "ja"@ {
        ja_hit(hay)
    } else if lang == "ko"@ {
        ko_hit(hay)
    } else if lang == "fr"@ {
        fr_hit(hay)
    } else if lang == "de"@ {
        de_hit(hay)
    } else if lang == "es"@ {
        es_hit(hay)
    } else if lang == "pt"@ {
        pt_hit(hay)
    } else if lang == "ru"@ {
        ru_hit(hay)
    } else if lang == "ar"@ {
        ar_hit(hay)
    } else if lang == "th"@ {
        th_hit(hay)
    } else if lang == "vi"@ {
        vi_hit(hay)
    } else if lang == "it"@ {
        it_hit(hay)
    } else if lang == "nl"@ {
        nl_hit(hay)
    } else if lang == "pl"@ {
        pl_hit(hay)
    } else if lang == "tr"@ {
        tr_hit(hay)
    } else if lang == "uk"@ {
        uk_hit(hay)
    } else if lang == "id"@ {
        id_hit(hay)
    } else if lang == "hi"@ {
        hi_hit(hay)
    } else {
        en_hit(hay)
    }
}

/// Runs that locale's set.
fn cn_tier(text: &str) -> (r: bool)
    ensures
        r == cn_hit(text.spec_bytes()),
{
    if try_pat(r"(?<!\d)1[3-9]\d{9}(?!\d)", Validator::NoCheck, text) {
        return true;
    }
    if try_pat(r"(?<!\d)\d{17}[\dXx](?!\d)", Validator::ChinaId, text) {
        return true;
    }
    false
}

/// Runs that locale's set.
fn tw_tier(text: &str) -> (r: bool)
    ensures
        r == tw_hit(text.spec_bytes()),
{
    if try_pat(r"(?<!\d)09\d{8}(?!\d)", Validator::NoCheck, text) {
        return true;
    }
    if try_pat(r"(?<![A-Za-z])[A-Z][12]\d{8}(?!\d)", Validator::NoCheck, text) {
        return true;
    }
    false
}

/// Runs that locale's set.
fn ja_tier(text: &str) -> (r: bool)
    ensures
        r == ja_hit(text.spec_bytes()),
{
    if try_pat(r"(?<!\d)0[789]0[\-\s]?\d{4}[\-\s]?\d{4}(?!\d)", Validator::NoCheck, text) {
        return true;
    }
    if try_pat(r"(?<!\d)\d{4}[\s]?\d{4}[\s]?\d{4}(?!\d)", Validator::NoCheck, text) {
        return true;
    }
    false
}

/// Runs that locale's set.
fn ko_tier(text: &str) -> (r: bool)
    ensures
        r == ko_hit(text.spec_bytes()),
{
    if try_pat(r"(?<!\d)01[016789][\-\s]?\d{3,4}[\-\s]?\d{4}(?!\d)", Validator::NoCheck, text) {
        return true;
    }
    if try_pat(r"(?<!\d)\d{6}[\-\s]\d{7}(?!\d)", Validator::NoCheck, text) {
        return true;
    }
    false
}

/// Runs that locale's set.
fn fr_tier(text: &str) -> (r: bool)
    ensures
        r == fr_hit(text.spec_bytes()),
{
    if try_pat(r"(?<!\d)(?:\+33[\s\-]?|0)[67](?:[\s\.\-]?\d{2}){4}(?!\d)", Validator::NoCheck, text) {
        return true;
    }
    if try_pat(r"(?<!\d)[12]\s?\d{2}\s?\d{2}\s?\d{2}\s?\d{3}\s?\d{3}\s?\d{2}(?!\d)", Validator::NoCheck, text) {
        return true;
    }
    false
}

/// Runs that locale's set.
fn de_tier(text: &str) -> (r: bool)
    ensures
        r == de_hit(text.spec_bytes()),
{
    if try_pat(r"(?<!\d)(?:\+49[\s\-]?|0)1[567]\d[\s\-]?\d{3,4}[\s\-]?\d{4}(?!\d)", Validator::NoCheck, text) {
        return true;
    }
    if try_pat(r"(?<!\d)\d{11}(?!\d)", Validator::NoCheck, text) {
        return true;
    }
    false
}

/// Runs that locale's set.
fn es_tier(text: &str) -> (r: bool)
    ensures
        r == es_hit(text.spec_bytes()),
{
    if try_pat(r"(?<!\d)(?:\+34[\s\-]?)?[67]\d{2}[\s\-]?\d{3}[\s\-]?\d{3}(?!\d)", Validator::NoCheck, text) {
        return true;
    }
    if try_pat(r"(?<!\d)\d{8}[\-\s]?[A-Z](?![A-Za-z])", Validator::NoCheck, text) {
        return true;
    }
    if try_pat(r"(?<![A-Za-z])[XYZ]\d{7}[\-\s]?[A-Z](?![A-Za-z])", Validator::NoCheck, text) {
        return true;
    }
    false
}

/// Runs that locale's set.
fn pt_tier(text: &str) -> (r: bool)
    ensures
        r == pt_hit(text.spec_bytes()),
{
    if try_pat(r"(?<!\d)\d{3}\.?\d{3}\.?\d{3}[\-]?\d{2}(?!\d)", Validator::NoCheck, text) {
        return true;
    }
    if try_pat(r"(?<!\d)\(?\d{2}\)?[\s\-]?9\d{4}[\-\s]?\d{4}(?!\d)", Validator::NoCheck, text) {
        return true;
    }
    if try_pat(r"(?<!\d)(?:\+351[\s\-]?)?9[1236]\d[\s\-]?\d{3}[\s\-]?\d{3}(?!\d)", Validator::NoCheck, text) {
        return true;
    }
    false
}

/// Runs that locale's set.
fn ru_tier(text: &str) -> (r: bool)
    ensures
        r == ru_hit(text.spec_bytes()),
{
    if try_pat(r"(?<!\d)(?:\+7|8)[\s\-]?9\d{2}[\s\-]?\d{3}[\s\-]?\d{2}[\s\-]?\d{2}(?!\d)", Validator::NoCheck, text) {
        return true;
    }
    if try_pat(r"(?<!\d)\d{4}[\s]\d{6}(?!\d)", Validator::NoCheck, text) {
        return true;
    }
    if try_pat(r"(?<!\d)\d{3}[\-]\d{3}[\-]\d{3}[\s]\d{2}(?!\d)", Validator::NoCheck, text) {
        return true;
    }
    false
}

/// Runs that locale's set.
fn ar_tier(text: &str) -> (r: bool)
    ensures
        r == ar_hit(text.spec_bytes()),
{
    if try_pat(r"(?<!\d)(?:\+966[\s\-]?)?05\d[\s\-]?\d{3}[\s\-]?\d{4}(?!\d)", Validator::NoCheck, text) {
        return true;
    }
    if try_pat(r"(?<!\d)(?:\+20[\s\-]?)?01[0125]\d{8}(?!\d)", Validator::NoCheck, text) {
        return true;
    }
    if try_pat(r"(?<!\d)(?:\+971[\s\-]?)?05[0-9]\d[\s\-]?\d{3}[\s\-]?\d{4}(?!\d)", Validator::NoCheck, text) {
        return true;
    }
    if try_pat(r"(?<!\d)[12]\d{9}(?!\d)", Validator::NoCheck, text) {
        return true;
    }
    false
}

/// Runs that locale's set.
fn th_tier(text: &str) -> (r: bool)
    ensures
        r == th_hit(text.spec_bytes()),
{
    if try_pat(r"(?<!\d)(?:\+66[\s\-]?)?0[689]\d[\s\-]?\d{3}[\s\-]?\d{4}(?!\d)", Validator::NoCheck, text) {
        return true;
    }
    if try_pat(r"(?<!\d)\d[\-\s]?\d{4}[\-\s]?\d{5}[\-\s]?\d{2}[\-\s]?\d(?!\d)", Validator::NoCheck, text) {
        return true;
    }
    false
}

/// Runs that locale's set.
fn vi_tier(text: &str) -> (r: bool)
    ensures
        r == vi_hit(text.spec_bytes()),
{
    if try_pat(r"(?<!\d)(?:\+84[\s\-]?)?0[35789]\d[\s\-]?\d{3}[\s\-]?\d{3}(?!\d)", Validator::NoCheck, text) {
        return true;
    }
    if try_pat(r"(?<!\d)0\d{2}\d{9}(?!\d)", Validator::NoCheck, text) {
        return true;
    }
    false
}

/// Runs that locale's set.
fn it_tier(text: &str) -> (r: bool)
    ensures
        r == it_hit(text.spec_bytes()),
{
    if try_pat(r"(?<!\d)(?:\+39[\s\-]?)?3\d{2}[\s\-]?\d{3}[\s\-]?\d{4}(?!\d)", Validator::NoCheck, text) {
        return true;
    }
    if try_pat(r"(?<![A-Za-z])[A-Z]{6}\d{2}[A-Z]\d{2}[A-Z]\d{3}[A-Z](?![A-Za-z])", Validator::NoCheck, text) {
        return true;
    }
    false
}

/// Runs that locale's set.
fn nl_tier(text: &str) -> (r: bool)
    ensures
        r == nl_hit(text.spec_bytes()),
{
    if try_pat(r"(?<!\d)(?:\+31[\s\-]?|0)6[\s\-]?\d{2}[\s\-]?\d{2}[\s\-]?\d{2}[\s\-]?\d{2}(?!\d)", Validator::NoCheck, text) {
        return true;
    }
    if try_pat(r"(?<!\d)\d{9}(?!\d)", Validator::NoCheck, text) {
        return true;
    }
    false
}

/// Runs that locale's set.
fn pl_tier(text: &str) -> (r: bool)
    ensures
        r == pl_hit(text.spec_bytes()),
{
    if try_pat(r"(?<!\d)(?:\+48[\s\-]?)?[4-9]\d{2}[\s\-]?\d{3}[\s\-]?\d{3}(?!\d)", Validator::NoCheck, text) {
        return true;
    }
    if try_pat(r"(?<!\d)\d{11}(?!\d)", Validator::NoCheck, text) {
        return true;
    }
    false
}

/// Runs that locale's set.
fn tr_tier(text: &str) -> (r: bool)
    ensures
        r == tr_hit(text.spec_bytes()),
{
    if try_pat(r"(?<!\d)(?:\+90[\s\-]?)?5\d{2}[\s\-]?\d{3}[\s\-]?\d{2}[\s\-]?\d{2}(?!\d)", Validator::NoCheck, text) {
        return true;
    }
    if try_pat(r"(?<!\d)[1-9]\d{10}(?!\d)", Validator::NoCheck, text) {
        return true;
    }
    false
}

/// Runs that locale's set.
fn uk_tier(text: &str) -> (r: bool)
    ensures
        r == uk_hit(text.spec_bytes()),
{
    if try_pat(r"(?<!\d)(?:\+380[\s\-]?|0)[3-9]\d[\s\-]?\d{3}[\s\-]?\d{2}[\s\-]?\d{2}(?!\d)", Validator::NoCheck, text) {
        return true;
    }
    if try_pat(r"(?<!\d)\d{10}(?!\d)", Validator::NoCheck, text) {
        return true;
    }
    false
}

/// Runs that locale's set.
fn id_tier(text: &str) -> (r: bool)
    ensures
        r == id_hit(text.spec_bytes()),
{
    if try_pat(r"(?<!\d)(?:\+62[\s\-]?|0)8\d{2}[\s\-]?\d{4}[\s\-]?\d{3,4}(?!\d)", Validator::NoCheck, text) {
        return true;
    }
    if try_pat(r"(?<!\d)\d{16}(?!\d)", Validator::NoCheck, text) {
        return true;
    }
    false
}

/// Runs that locale's set.
fn hi_tier(text: &str) -> (r: bool)
    ensures
        r == hi_hit(text.spec_bytes()),
{
    if try_pat(r"(?<!\d)(?:\+91[\s\-]?)?[6-9]\d{4}[\s\-]?\d{5}(?!\d)", Validator::NoCheck, text) {
        return true;
    }
    if try_pat(r"(?<!\d)\d{4}[\s\-]?\d{4}[\s\-]?\d{4}(?!\d)", Validator::NoCheck, text) {
        return true;
    }
    if try_pat(r"(?<![A-Za-z])[A-Z]{5}\d{4}[A-Z](?![A-Za-z])", Validator::NoCheck, text) {
        return true;
    }
    false
}

/// Runs that locale's set.
fn en_tier(text: &str) -> (r: bool)
    ensures
        r == en_hit(text.spec_bytes()),
{
    if try_pat(r"(?<!\d)\(?\d{3}\)?[\s\-\.]\d{3}[\s\-\.]\d{4}(?!\d)", Validator::NoCheck, text) {
        return true;
    }
    if try_pat(r"(?<!\d)\d{3}\-\d{2}\-\d{4}(?!\d)", Validator::NoCheck, text) {
        return true;
    }
    if try_pat(r"(?i)\b[A-CEGHJ-PR-TW-Z][A-CEGHJ-NPR-TW-Z]\s?\d{2}\s?\d{2}\s?\d{2}\s?[A-D]\b", Validator::NoCheck, text) {
        return true;
    }
    if try_pat(r"(?<!\d)(?:\+44[\s\-]?|0)7\d{3}[\s\-]?\d{6}(?!\d)", Validator::NoCheck, text) {
        return true;
    }
    false
}

/// Runs the locale-specific tier for the given UI language.
pub fn regional_tier(language: &str, text: &str) -> (r: bool)
    ensures
        r == regional_hit(language@, text.spec_bytes()),
{
    if str_eq(language, "zh-CN") {
        cn_tier(text)
    } else if str_eq(language, "zh-TW") {
        tw_tier(text)
    } else if str_eq(language, "ja") {
        ja_tier(text)
    } else if str_eq(language, "ko") {
        ko_tier(text)
    } else if str_eq(language, "fr") {
        fr_tier(text)
    } else if str_eq(language, "de") {
        de_tier(text)
    } else if str_eq(language, "es") {
        es_tier(text)
    } else if str_eq(language, "pt") {
        pt_tier(text)
    } else if str_eq(language, "ru") {
        ru_tier(text)
    } else if str_eq(language, "ar") {
        ar_tier(text)
    } else if str_eq(language, "th") {
        th_tier(text)
    } else if str_eq(language, "vi") {
        vi_tier(text)
    } else if str_eq(language, "it") {
        it_tier(text)
    } else if str_eq(language, "nl") {
        nl_tier(text)
    } else if str_eq(language, "pl") {
        pl_tier(text)
    } else if str_eq(language, "tr") {
        tr_tier(text)
    } else if str_eq(language, "uk") {
        uk_tier(text)
    } else if str_eq(language, "id") {
        id_tier(text)
    } else if str_eq(language, "hi") {
        hi_tier(text)
    } else {
        en_tier(text)
    }
}

/// The verdict of the whole detector for a text and UI language: at least
/// six bytes of text, and a hit in the keyword, universal or
/// locale-specific tier.
pub open spec fn sensitive_verdict(text: Seq<char>, language: Seq<char>) -> bool {
    let bytes = vstd::utf8::encode_utf8(text);
    bytes.len() >= 6 && (keyword_hit(lower_of(text)) || universal_hit(bytes) || regional_hit(
        language,
        bytes,
    ))
}

/// Tries one pattern source against the text: true exactly when the
/// source compiles and its validated scan hits.
fn try_pat(src: &str, v: Validator, text: &str) -> (r: bool)
    ensures
        r == pat_hit(src@, v, text.spec_bytes()),
{
    match Pattern::new(src, v) {
        Some(p) => p.matches(text),
        None => false,
    }
}

/// Runs the universal tier.
pub fn universal_tier(text: &str) -> (r: bool)
    ensures
        r == universal_hit(text.spec_bytes()),
{
    if try_pat(r"(?i)\b[a-z0-9._%+\-]+@[a-z0-9.\-]+\.[a-z]{2,}\b", Validator::NoCheck, text) {
        return true;
    }
    if try_pat(r"\b\d{4}[\s\-]?\d{4}[\s\-]?\d{4}[\s\-]?\d{3,4}\b", Validator::Luhn, text) {
        return true;
    }
    if try_pat(
        r"\b(?:25[0-5]|2[0-4]\d|[01]?\d\d?)\.(?:25[0-5]|2[0-4]\d|[01]?\d\d?)\.(?:25[0-5]|2[0-4]\d|[01]?\d\d?)\.(?:25[0-5]|2[0-4]\d|[01]?\d\d?)\b",
        Validator::NoCheck,
        text,
    ) {
        return true;
    }
    if try_pat(r"\bAKIA[0-9A-Z]{16}\b", Validator::NoCheck, text) {
        return true;
    }
    if try_pat(r"(?i)\b(?:sk|pk)_(?:live|test)_[a-z0-9]{20,}\b", Validator::NoCheck, text) {
        return true;
    }
    if try_pat(r"\beyJ[A-Za-z0-9\-_]+\.eyJ[A-Za-z0-9\-_]+\.[A-Za-z0-9\-_.+/=]+\b", Validator::NoCheck, text) {
        return true;
    }
    if try_pat(
        r"\b[A-Z]{2}\d{2}[\s]?[A-Z0-9]{4}[\s]?(?:[A-Z0-9]{4}[\s]?){2,7}[A-Z0-9]{1,4}\b",
        Validator::NoCheck,
        text,
    ) {
        return true;
    }
    false
}

/// Classifies a text as sensitive for the given UI language: true exactly
/// when the text is at least six bytes and the keyword tier (over the
/// lowercased text), the universal pattern tier or the locale-specific
/// pattern tier hits.
pub fn detect_sensitive(text: &str, language: &str) -> (r: bool)
    ensures
        r == sensitive_verdict(text@, language@),
{
    if text.as_bytes().len() < 6 {
        return false;
    }
    let lower = to_lowercase_str(text);
    if contains_keyword(lower.as_str()) {
        return true;
    }
    if universal_tier(text) {
        return true;
    }
    regional_tier(language, text)
}

} // verus!
