//! Content fingerprinting and the duplicate filter.
//!
//! The fingerprint is a seedless FNV-1a hash over the raw content bytes,
//! rendered as sixteen lowercase hex digits, so the same bytes give the same
//! digest in every process and on every machine.  The filter remembers only the
//! single most recent digest and suppresses an observation exactly when it
//! repeats that digest.

use vstd::prelude::*;

use crate::text::chars_to_string;

verus! {

/// FNV-1a offset basis.
pub const FNV_OFFSET: u64 = 0xcbf29ce484222325;

/// FNV-1a prime.
pub const FNV_PRIME: u64 = 0x100000001b3;

/// FNV-1a over the first `n` bytes of `bytes`.
pub open spec fn fnv1a_at(bytes: Seq<u8>, n: int) -> u64
    decreases n,
{
    if n <= 0 {
        FNV_OFFSET
    } else {
        vstd::wrapping::u64_specs::wrapping_mul(
            fnv1a_at(bytes, n - 1) ^ (bytes[n - 1] as u64),
            FNV_PRIME,
        )
    }
}

/// FNV-1a over a whole byte sequence.
pub open spec fn fnv1a(bytes: Seq<u8>) -> u64 {
    fnv1a_at(bytes, bytes.len() as int)
}

/// The lowercase hex digit for a value below sixteen.
pub open spec fn hex_digit_char(d: u64) -> char
    recommends
        d < 16,
{
    if d < 10 {
        (('0' as u64) + d) as char
    } else {
        (('a' as u64) + (d - 10)) as char
    }
}

/// A 64-bit value as sixteen lowercase hex digits, most significant first.
pub open spec fn hex64(h: u64) -> Seq<char> {
    Seq::new(16, |i: int| hex_digit_char((h >> (((15 - i) * 4) as u64)) & 0xf))
}

/// The digest of a byte sequence: its FNV-1a hash in hex.
pub open spec fn content_hash(bytes: Seq<u8>) -> Seq<char> {
    hex64(fnv1a(bytes))
}

/// Computes the stable content fingerprint of `data`: the FNV-1a hash of the
/// bytes, formatted as sixteen lowercase hex digits.
pub fn compute_content_hash(data: &[u8]) -> (r: String)
    ensures
        r@ == content_hash(data@),
{
    let mut hash: u64 = FNV_OFFSET;
    let mut i: usize = 0;
    while i < data.len()
        invariant
            0 <= i <= data@.len(),
            hash == fnv1a_at(data@, i as int),
        decreases data@.len() - i,
    {
        hash = (hash ^ (data[i] as u64)).wrapping_mul(FNV_PRIME);
        i += 1;
    }
    let mut digits: Vec<char> = Vec::new();
    let mut k: usize = 0;
    while k < 16
        invariant
            0 <= k <= 16,
            digits@.len() == k,
            forall|j: int| 0 <= j < k ==> digits@[j] == hex64(hash)[j],
        decreases 16 - k,
    {
        let shift: u64 = ((15 - k) * 4) as u64;
        let d: u64 = (hash >> shift) & 0xf;
        assert((hash >> shift) & 0xf < 16) by (bit_vector);
        let c: char = if d < 10 {
            (('0' as u8) + (d as u8)) as char
        } else {
            (('a' as u8) + ((d - 10) as u8)) as char
        };
        assert(c == hex_digit_char(d));
        digits.push(c);
        k += 1;
    }
    proof {
        assert(digits@ =~= content_hash(data@));
    }
    chars_to_string(&digits)
}

/// One step of the filter: whether `digest` is suppressed given the previously
/// stored digest, and the digest stored afterwards.
pub open spec fn dedup_suppresses(prev: Option<Seq<char>>, digest: Seq<char>) -> bool {
    prev == Some(digest)
}

/// Suppresses an observation exactly when its digest equals the single most
/// recently seen digest; holds no history beyond that one value.
pub struct DedupFilter {
    last: Option<String>,
}

impl DedupFilter {
    /// The digest seen on the previous observation, if any.
    pub closed spec fn last_digest(&self) -> Option<Seq<char>> {
        match self.last {
            Some(ref s) => Some(s@),
            None => None,
        }
    }

    /// A fresh filter that has seen nothing; the first digest is never equal.
    pub fn new() -> (r: DedupFilter)
        ensures
            r.last_digest() is None,
    {
        DedupFilter { last: None }
    }

    /// Compares `digest` with the previously stored digest: returns true and
    /// leaves the state unchanged when they are equal, otherwise records the
    /// new digest and returns false.  Either way the stored digest afterwards
    /// is `digest`.
    pub fn should_suppress(&mut self, digest: &String) -> (suppress: bool)
        ensures
            suppress == dedup_suppresses(old(self).last_digest(), digest@),
            final(self).last_digest() == Some(digest@),
    {
        let equal = match &self.last {
            Some(prev) => prev.eq(digest),
            None => false,
        };
        if equal {
            true
        } else {
            self.last = Some(digest.clone());
            false
        }
    }
}

/// Fingerprint determinism: the digest is a pure function of the content
/// bytes, so equal byte sequences give equal digests, on every call and in
/// any order.
pub proof fn lemma_fingerprint_deterministic(b1: Seq<u8>, b2: Seq<u8>)
    requires
        b1 == b2,
    ensures
        content_hash(b1) == content_hash(b2),
{
}

/// The duplicate filter compares against the last value only: starting from a
/// fresh filter, the digest sequence [a, a, b, a] with a != b is suppressed as
/// [false, true, false, false] — the second a is suppressed, but the third,
/// no longer adjacent to an a, is processed again.
pub proof fn lemma_dedup_last_value_only(a: Seq<char>, b: Seq<char>)
    requires
        a != b,
    ensures
        !dedup_suppresses(None, a),
        dedup_suppresses(Some(a), a),
        !dedup_suppresses(Some(a), b),
        !dedup_suppresses(Some(b), a),
{
}

} // verus!
