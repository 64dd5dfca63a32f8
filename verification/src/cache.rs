//! The key-value cache model: keys, entries with absolute expiry instants,
//! and an in-memory store with put-with-TTL / get-if-unexpired semantics.
//!
//! The store is advisory: the aggregation engine is correct with an empty or
//! missing cache, only slower.  Writes prepend, reads take the newest entry
//! for a key, so a later `put` shadows an earlier one (last write wins).

use vstd::prelude::*;

verus! {

/// A cache key: the candidate-ID list, or one story by identifier.
#[derive(PartialEq, Eq, Structural, Clone, Copy, Debug)]
pub enum Key {
    TopStories,
    Item(i32),
}

/// One stored entry: the text blob and the instant it expires.
pub struct CacheEntry {
    pub key: Key,
    pub value: String,
    pub expires_at: i64,
}

/// The newest entry for a key: its text and expiry instant.
pub open spec fn spec_find(s: Seq<CacheEntry>, k: Key) -> Option<(Seq<char>, int)>
    decreases s.len(),
{
    if s.len() == 0 {
        None
    } else if s[0].key == k {
        Some((s[0].value@, s[0].expires_at as int))
    } else {
        spec_find(s.drop_first(), k)
    }
}

/// An in-memory key-value store with per-entry expiry.
pub struct MemCache {
    entries: Vec<CacheEntry>,
}

impl View for MemCache {
    type V = Seq<CacheEntry>;

    closed spec fn view(&self) -> Seq<CacheEntry> {
        self.entries@
    }
}

impl MemCache {
    /// An empty store: every key is absent.
    pub fn new() -> (r: MemCache)
        ensures
            r@ == Seq::<CacheEntry>::empty(),
    {
        MemCache { entries: Vec::new() }
    }

    /// The stored text for `key`, present exactly when an entry exists and
    /// has not expired at `now`.
    pub fn get(&self, key: Key, now: i64) -> (r: Option<String>)
        ensures
            match spec_find(self@, key) {
                Some(e) => {
                    if now < e.1 {
                        r matches Some(v) && v@ == e.0
                    } else {
                        r is None
                    }
                },
                None => r is None,
            },
    {
        let n = self.entries.len();
        proof {
            assert(self@.skip(0) =~= self@);
        }
        let mut i: usize = 0;
        while i < n
            invariant
                i <= n,
                n == self@.len(),
                spec_find(self@, key) == spec_find(self@.skip(i as int), key),
            decreases n - i,
        {
            proof {
                assert(self@.skip(i as int).len() > 0);
                assert(self@.skip(i as int)[0] == self@[i as int]);
                assert(self@.skip(i as int).drop_first() =~= self@.skip(i as int + 1));
            }
            if self.entries[i].key == key {
                if now < self.entries[i].expires_at {
                    return Some(self.entries[i].value.clone());
                } else {
                    return None;
                }
            }
            i += 1;
        }
        proof {
            assert(self@.skip(n as int).len() == 0);
        }
        None
    }

    /// Stores `value` under `key` for `ttl` seconds from `now`.  Afterwards
    /// `key` reads as `value` until the expiry instant, and every other key
    /// is unaffected.
    pub fn put(&mut self, key: Key, value: String, ttl: u64, now: i64)
        requires
            0 <= now,
            now + ttl <= i64::MAX,
        ensures
            spec_find(final(self)@, key) == Some((value@, now + ttl as int)),
            forall|k: Key| k != key
                ==> #[trigger] spec_find(final(self)@, k) == spec_find(old(self)@, k),
            final(self)@.len() == old(self)@.len() + 1,
    {
        let expires_at: i64 = now + (ttl as i64);
        let entry = CacheEntry { key, value, expires_at };
        self.entries.insert(0, entry);
        proof {
            assert(self@[0].key == key);
            assert(self@.drop_first() =~= old(self)@);
        }
    }
}

/// The cache binding as the request handler sees it: resolved, or missing,
/// in which case the whole request hard-fails.
pub enum CacheBinding {
    Missing,
    Kv(MemCache),
}

} // verus!
