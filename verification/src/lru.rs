//! A bounded least-recently-used string cache.
//!
//! The pipeline keeps two of these: one for image payloads re-encoded for
//! display (fifty entries) and one for extracted application icons (two
//! hundred entries).  Keys are unique; a hit moves the entry to the
//! most-recent end; an insert past capacity evicts the least recently used
//! entry.

use vstd::prelude::*;

use crate::text::str_eq;

verus! {

/// Capacity of the image re-encoding cache.
pub const IMAGE_CACHE_CAPACITY: usize = 50;

/// Capacity of the application-icon cache.
pub const ICON_CACHE_CAPACITY: usize = 200;

/// The abstract content of the cache: key/value pairs, least recently
/// used first.
pub type CacheSeq = Seq<(Seq<char>, Seq<char>)>;

/// The first position at or after `from` holding `key`, or the length of
/// `s` when the key is absent.
pub open spec fn find_key(s: CacheSeq, key: Seq<char>, from: int) -> int
    decreases s.len() - from,
{
    if from < 0 || from >= s.len() {
        s.len() as int
    } else if s[from].0 == key {
        from
    } else {
        find_key(s, key, from + 1)
    }
}

/// True when no two entries share a key.
pub open spec fn keys_unique(s: CacheSeq) -> bool {
    forall|i: int, j: int| 0 <= i < j < s.len() ==> (#[trigger] s[i]).0 != (#[trigger] s[j]).0
}

/// A bounded LRU cache from strings to strings.
pub struct LruStringCache {
    capacity: usize,
    entries: Vec<(String, String)>,
}

impl LruStringCache {
    /// The stored pairs, least recently used first.
    pub closed spec fn view_seq(&self) -> CacheSeq {
        self.entries@.map_values(|p: (String, String)| (p.0@, p.1@))
    }

    /// The configured capacity.
    pub closed spec fn cap(&self) -> int {
        self.capacity as int
    }

    /// Well-formed: keys unique, never over capacity.
    pub open spec fn wf(&self) -> bool {
        &&& 1 <= self.cap()
        &&& self.view_seq().len() <= self.cap()
        &&& keys_unique(self.view_seq())
    }

    /// An empty cache with the given capacity.
    pub fn new(capacity: usize) -> (r: LruStringCache)
        requires
            capacity >= 1,
        ensures
            r.wf(),
            r.cap() == capacity,
            r.view_seq().len() == 0,
    {
        let r = LruStringCache { capacity, entries: Vec::new() };
        proof {
            assert(r.view_seq() =~= Seq::<(Seq<char>, Seq<char>)>::empty());
        }
        r
    }

    /// How many entries the cache holds.
    pub fn len(&self) -> (r: usize)
        ensures
            r == self.view_seq().len(),
    {
        self.entries.len()
    }

    /// Finds the position of `key`, scanning from the front.
    fn position(&self, key: &str) -> (r: usize)
        ensures
            r == find_key(self.view_seq(), key@, 0),
            r <= self.view_seq().len(),
            r < self.view_seq().len() ==> self.view_seq()[r as int].0 == key@,
    {
        let n = self.entries.len();
        let mut i: usize = 0;
        while i < n
            invariant
                0 <= i <= n,
                n == self.entries@.len(),
                find_key(self.view_seq(), key@, 0) == find_key(self.view_seq(), key@, i as int),
            decreases n - i,
        {
            if str_eq(self.entries[i].0.as_str(), key) {
                proof {
                    assert(self.view_seq()[i as int].0 == key@);
                }
                return i;
            }
            proof {
                assert(self.view_seq()[i as int].0 != key@);
            }
            i += 1;
        }
        n
    }

    /// Looks `key` up: on a hit the entry moves to the most-recent end and
    /// its value is returned; on a miss nothing changes.
    pub fn get(&mut self, key: &str) -> (r: Option<String>)
        requires
            old(self).wf(),
        ensures
            final(self).wf(),
            final(self).cap() == old(self).cap(),
            ({
                let s = old(self).view_seq();
                let i = find_key(s, key@, 0);
                if i < s.len() {
                    &&& r is Some
                    &&& r->Some_0@ == s[i].1
                    &&& final(self).view_seq() == s.remove(i).push(s[i])
                } else {
                    &&& r is None
                    &&& final(self).view_seq() == s
                }
            }),
    {
        let i = self.position(key);
        if i < self.entries.len() {
            let ghost s = self.view_seq();
            let pair = self.entries.remove(i);
            let value = pair.1.clone();
            self.entries.push(pair);
            proof {
                assert(self.view_seq() =~= s.remove(i as int).push(s[i as int]));
                assert(keys_unique(self.view_seq())) by {
                    let t = self.view_seq();
                    assert forall|a: int, b: int| 0 <= a < b < t.len() implies (#[trigger] t[a]).0
                        != (#[trigger] t[b]).0 by {
                        lemma_remove_push_unique(s, i as int, a, b);
                    }
                }
            }
            Some(value)
        } else {
            None
        }
    }

    /// Inserts or refreshes `key`: an existing entry is updated and moved
    /// to the most-recent end; a new entry past capacity first evicts the
    /// least recently used one.
    pub fn insert(&mut self, key: String, value: String)
        requires
            old(self).wf(),
        ensures
            final(self).wf(),
            final(self).cap() == old(self).cap(),
            ({
                let s = old(self).view_seq();
                let i = find_key(s, key@, 0);
                if i < s.len() {
                    final(self).view_seq() == s.remove(i).push((key@, value@))
                } else if s.len() >= old(self).cap() {
                    final(self).view_seq() == s.subrange(1, s.len() as int).push((key@, value@))
                } else {
                    final(self).view_seq() == s.push((key@, value@))
                }
            }),
    {
        let ghost s = self.view_seq();
        let i = self.position(key.as_str());
        if i < self.entries.len() {
            let _ = self.entries.remove(i);
            self.entries.push((key, value));
            proof {
                assert(self.view_seq() =~= s.remove(i as int).push((key@, value@)));
                lemma_unique_after_replace(s, i as int, key@, value@, self.view_seq());
            }
        } else {
            if self.entries.len() >= self.capacity {
                let _ = self.entries.remove(0);
                self.entries.push((key, value));
                proof {
                    assert(self.view_seq() =~= s.subrange(1, s.len() as int).push(
                        (key@, value@),
                    ));
                    assert(keys_unique(self.view_seq())) by {
                        let t = self.view_seq();
                        assert(find_key(s, key@, 0) == s.len());
                        lemma_absent_key(s, key@, 0);
                        assert forall|a: int, b: int| 0 <= a < b < t.len() implies (
                        #[trigger] t[a]).0 != (#[trigger] t[b]).0 by {
                            if b < t.len() - 1 {
                                assert(t[a] == s[a + 1] && t[b] == s[b + 1]);
                            } else {
                                assert(t[a] == s[a + 1]);
                                assert(s[a + 1].0 != key@);
                            }
                        }
                    }
                }
            } else {
                self.entries.push((key, value));
                proof {
                    assert(self.view_seq() =~= s.push((key@, value@)));
                    assert(keys_unique(self.view_seq())) by {
                        let t = self.view_seq();
                        lemma_absent_key(s, key@, 0);
                        assert forall|a: int, b: int| 0 <= a < b < t.len() implies (
                        #[trigger] t[a]).0 != (#[trigger] t[b]).0 by {
                            if b < t.len() - 1 {
                                assert(t[a] == s[a] && t[b] == s[b]);
                            } else {
                                assert(t[a] == s[a]);
                                assert(s[a].0 != key@);
                            }
                        }
                    }
                }
            }
        }
    }

    /// Drops `key` if present.
    pub fn remove(&mut self, key: &str)
        requires
            old(self).wf(),
        ensures
            final(self).wf(),
            final(self).cap() == old(self).cap(),
            ({
                let s = old(self).view_seq();
                let i = find_key(s, key@, 0);
                if i < s.len() {
                    final(self).view_seq() == s.remove(i)
                } else {
                    final(self).view_seq() == s
                }
            }),
    {
        let ghost s = self.view_seq();
        let i = self.position(key);
        if i < self.entries.len() {
            let _ = self.entries.remove(i);
            proof {
                assert(self.view_seq() =~= s.remove(i as int));
                assert(keys_unique(self.view_seq())) by {
                    let t = self.view_seq();
                    assert forall|a: int, b: int| 0 <= a < b < t.len() implies (#[trigger] t[a]).0
                        != (#[trigger] t[b]).0 by {
                        let sa: int = if a < i {
                            a
                        } else {
                            a + 1
                        };
                        let sb: int = if b < i {
                            b
                        } else {
                            b + 1
                        };
                        assert(t[a] == s[sa] && t[b] == s[sb]);
                    }
                }
            }
        }
    }
}

/// In a unique-key sequence, a key scanned past is absent from every
/// position.
proof fn lemma_absent_key(s: CacheSeq, key: Seq<char>, from: int)
    requires
        0 <= from <= s.len(),
        find_key(s, key, from) == s.len(),
    ensures
        forall|j: int| from <= j < s.len() ==> (#[trigger] s[j]).0 != key,
    decreases s.len() - from,
{
    if from < s.len() {
        lemma_absent_key(s, key, from + 1);
    }
}

/// Uniqueness survives moving one entry to the back.
proof fn lemma_remove_push_unique(s: CacheSeq, i: int, a: int, b: int)
    requires
        keys_unique(s),
        0 <= i < s.len(),
        0 <= a < b < s.remove(i).push(s[i]).len(),
    ensures
        s.remove(i).push(s[i])[a].0 != s.remove(i).push(s[i])[b].0,
{
    let t = s.remove(i).push(s[i]);
    let sa: int = if a < i {
        a
    } else {
        a + 1
    };
    if b == t.len() - 1 {
        assert(t[b] == s[i]);
        assert(t[a] == s[sa]);
    } else {
        let sb: int = if b < i {
            b
        } else {
            b + 1
        };
        assert(t[a] == s[sa] && t[b] == s[sb]);
    }
}

/// Uniqueness survives replacing one entry's key with its own key at the
/// back.
proof fn lemma_unique_after_replace(s: CacheSeq, i: int, key: Seq<char>, value: Seq<char>, t: CacheSeq)
    requires
        keys_unique(s),
        0 <= i < s.len(),
        s[i].0 == key,
        t == s.remove(i).push((key, value)),
    ensures
        keys_unique(t),
{
    assert forall|a: int, b: int| 0 <= a < b < t.len() implies (#[trigger] t[a]).0 != (
    #[trigger] t[b]).0 by {
        let sa: int = if a < i {
            a
        } else {
            a + 1
        };
        if b == t.len() - 1 {
            assert(t[b].0 == key);
            assert(t[a] == s[sa]);
            assert(s[sa].0 != s[i].0);
        } else {
            let sb: int = if b < i {
                b
            } else {
                b + 1
            };
            assert(t[a] == s[sa] && t[b] == s[sb]);
        }
    }
}

} // verus!
