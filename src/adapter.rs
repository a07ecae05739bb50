//! A string-keyed cache for a foreign runtime: times to live and the
//! cleanup interval come in milliseconds, and a few batch operations are
//! offered on top of the engine's own.
//!
//! Lookups by key require `obeys_key_model::<String>()`: that hashing a
//! `String` is deterministic, that its `==` is equality and that its clone
//! is an exact copy. `String` behaves so, though vstd does not state it.

use vstd::prelude::*;
use vstd::std_specs::hash::obeys_key_model;

use crate::cache::{after_get, after_set, copies_of_keys, live_keys, lookup, CacheError, MiniCache};
use crate::entry::Entry;

verus! {

/// The package version reported by [`get_info`].
pub const VERSION: &'static str = "0.1.1";

/// The cleanup interval used when none is given, in milliseconds.
pub const DEFAULT_CLEANUP_INTERVAL_MS: u32 = 60000;

/// Nanoseconds in a millisecond.
pub const NANOS_PER_MILLI: u64 = 1000000;

/// Options for creating a cache.
pub struct CacheOptions {
    /// Cleanup interval in milliseconds; the default applies when unset.
    pub cleanup_interval_ms: Option<u32>,
}

/// A key and the value found under it.
pub struct CacheEntry {
    pub key: String,
    pub value: String,
}

/// One write of a batch: a key, a value and an optional time-to-live in
/// milliseconds.
pub struct SetItem {
    pub key: String,
    pub value: String,
    pub ttl_ms: Option<u32>,
}

/// A description of this implementation.
pub struct CacheInfo {
    pub version: String,
    pub backend: String,
    pub performance: String,
    pub features: Vec<String>,
}

/// `ms` milliseconds in nanoseconds.
pub open spec fn millis_to_nanos(ms: u32) -> u64 {
    (ms as u64 * NANOS_PER_MILLI) as u64
}

/// A time-to-live in milliseconds, in nanoseconds.
pub open spec fn ttl_nanos(ttl_ms: Option<u32>) -> Option<u64> {
    match ttl_ms {
        Some(ms) => Some(millis_to_nanos(ms)),
        None => None,
    }
}

/// The cleanup interval, in milliseconds, that `options` ask for.
pub open spec fn interval_ms_of(options: Option<CacheOptions>) -> u32 {
    match options {
        Some(o) => match o.cleanup_interval_ms {
            Some(ms) => ms,
            None => DEFAULT_CLEANUP_INTERVAL_MS,
        },
        None => DEFAULT_CLEANUP_INTERVAL_MS,
    }
}

/// `m` after writing each of `items` at `now`, in order.
pub open spec fn after_set_each(
    m: Map<String, Entry<String>>,
    items: Seq<SetItem>,
    now: u64,
) -> Map<String, Entry<String>>
    decreases items.len(),
{
    if items.len() == 0 {
        m
    } else {
        let it = items.last();
        after_set(after_set_each(m, items.drop_last(), now), it.key, it.value, ttl_nanos(it.ttl_ms), now)
    }
}

/// `m` after a read of each of `keys` at `now`, in order.
pub open spec fn after_get_each(
    m: Map<String, Entry<String>>,
    keys: Seq<String>,
    now: u64,
) -> Map<String, Entry<String>>
    decreases keys.len(),
{
    if keys.len() == 0 {
        m
    } else {
        after_get(after_get_each(m, keys.drop_last(), now), keys.last(), now)
    }
}

/// What reads of `keys` at `now` find in `m`, in the order of `keys`; a
/// key under which nothing live is found is left out.
pub open spec fn found_entries(m: Map<String, Entry<String>>, keys: Seq<String>, now: u64) -> Seq<
    CacheEntry,
>
    decreases keys.len(),
{
    if keys.len() == 0 {
        Seq::empty()
    } else {
        let rest = found_entries(m, keys.drop_last(), now);
        match lookup(m, keys.last(), now) {
            Some(v) => rest.push(CacheEntry { key: keys.last(), value: v }),
            None => rest,
        }
    }
}

/// Reads at one reading drop only expired entries, so they change no
/// later read at that reading.
proof fn lemma_reads_keep_lookup(m: Map<String, Entry<String>>, keys: Seq<String>, k: String, now: u64)
    ensures
        lookup(after_get_each(m, keys, now), k, now) == lookup(m, k, now),
    decreases keys.len(),
{
    if keys.len() > 0 {
        lemma_reads_keep_lookup(m, keys.drop_last(), k, now);
    }
}

fn nanos_from_millis(ms: u32) -> (r: u64)
    ensures
        r == millis_to_nanos(ms),
{
    ms as u64 * NANOS_PER_MILLI
}

fn ttl_from_millis(ttl_ms: Option<u32>) -> (r: Option<u64>)
    ensures
        r == ttl_nanos(ttl_ms),
{
    match ttl_ms {
        Some(ms) => Some(nanos_from_millis(ms)),
        None => None,
    }
}

/// A string-keyed cache over the engine, measuring times to live in
/// milliseconds.
pub struct JsCache {
    cache: MiniCache<String, String>,
}

impl View for JsCache {
    type V = Map<String, Entry<String>>;

    closed spec fn view(&self) -> Map<String, Entry<String>> {
        self.cache@
    }
}

impl JsCache {
    /// The period of the background sweep, in nanoseconds.
    pub closed spec fn interval(&self) -> u64 {
        self.cache.interval()
    }

    /// An empty cache with the cleanup interval that `options` ask for,
    /// sixty seconds by default; a zero interval is refused.
    pub fn new(options: Option<CacheOptions>) -> (r: Result<Self, CacheError>)
        ensures
            r is Err <==> interval_ms_of(options) == 0,
            r matches Ok(c) ==> c@ == Map::<String, Entry<String>>::empty() && c.interval()
                == millis_to_nanos(interval_ms_of(options)),
            r matches Err(e) ==> e == CacheError::ZeroCleanupInterval,
    {
        let ms: u32 = match options {
            Some(o) => match o.cleanup_interval_ms {
                Some(ms) => ms,
                None => DEFAULT_CLEANUP_INTERVAL_MS,
            },
            None => DEFAULT_CLEANUP_INTERVAL_MS,
        };
        match MiniCache::new(nanos_from_millis(ms)) {
            Ok(cache) => Ok(JsCache { cache }),
            Err(e) => Err(e),
        }
    }

    /// The period of the background sweep, in nanoseconds.
    pub fn cleanup_interval(&self) -> (r: u64)
        ensures
            r == self.interval(),
    {
        self.cache.cleanup_interval()
    }

    /// Stores `value` under `key`; with `ttl_ms` set, the entry expires
    /// that many milliseconds after `now`.
    pub fn set(&mut self, key: String, value: String, ttl_ms: Option<u32>, now: u64)
        requires
            obeys_key_model::<String>(),
        ensures
            final(self)@ == after_set(old(self)@, key, value, ttl_nanos(ttl_ms), now),
            final(self).interval() == old(self).interval(),
    {
        let ttl = ttl_from_millis(ttl_ms);
        self.cache.set(key, value, ttl, now);
    }

    /// The value under `key` if its entry is live at `now`; an expired
    /// entry under `key` is removed.
    pub fn get(&mut self, key: String, now: u64) -> (r: Option<String>)
        requires
            obeys_key_model::<String>(),
        ensures
            final(self)@ == after_get(old(self)@, key, now),
            final(self).interval() == old(self).interval(),
            r == lookup(old(self)@, key, now),
    {
        self.cache.get(&key, now)
    }

    /// Removes the entry under `key`, if there is one.
    pub fn remove(&mut self, key: String)
        requires
            obeys_key_model::<String>(),
        ensures
            final(self)@ == old(self)@.remove(key),
            final(self).interval() == old(self).interval(),
    {
        self.cache.remove(&key);
    }

    /// Removes every entry.
    pub fn clear(&mut self)
        ensures
            final(self)@ == Map::<String, Entry<String>>::empty(),
            final(self).interval() == old(self).interval(),
    {
        self.cache.clear();
    }

    /// Whether the entry under `key` is live at `now`; an expired entry
    /// under `key` is removed.
    pub fn has(&mut self, key: String, now: u64) -> (r: bool)
        requires
            obeys_key_model::<String>(),
        ensures
            final(self)@ == after_get(old(self)@, key, now),
            final(self).interval() == old(self).interval(),
            r == lookup(old(self)@, key, now) is Some,
    {
        self.cache.contains(&key, now)
    }

    /// The number of entries live at `now`, reduced to 32 bits.
    pub fn size(&self, now: u64) -> (r: u32)
        requires
            obeys_key_model::<String>(),
        ensures
            r == live_keys(self@, now).len() as u32,
    {
        self.cache.len(now) as u32
    }

    /// Whether no entry is live at `now`.
    pub fn is_empty(&self, now: u64) -> (r: bool)
        requires
            obeys_key_model::<String>(),
        ensures
            r == (live_keys(self@, now).len() == 0),
    {
        self.cache.len(now) == 0
    }

    /// Every key whose entry is live at `now`, each once, in no particular
    /// order.
    pub fn keys(&self, now: u64) -> (r: Vec<String>)
        requires
            obeys_key_model::<String>(),
        ensures
            r@.no_duplicates(),
            r@.to_set() == live_keys(self@, now),
    {
        let r = self.cache.keys(now);
        proof {
            let ks = choose|ks: Seq<String>| copies_of_keys(ks, r@, live_keys(self@, now));
            assert(r@ =~= ks);
        }
        r
    }

    /// Every entry live at `now`, as a key and its value, each key once, in
    /// no particular order.
    pub fn entries(&mut self, now: u64) -> (r: Vec<CacheEntry>)
        requires
            obeys_key_model::<String>(),
        ensures
            final(self)@ == old(self)@,
            final(self).interval() == old(self).interval(),
            r@.map_values(|e: CacheEntry| e.key).no_duplicates(),
            r@.map_values(|e: CacheEntry| e.key).to_set() == live_keys(old(self)@, now),
            forall|i: int| 0 <= i < r.len() ==> #[trigger] r@[i].value == old(self)@[r@[i].key].value,
    {
        let keys = self.keys(now);
        let ghost m = self@;
        let mut out: Vec<CacheEntry> = Vec::new();
        let mut i: usize = 0;
        while i < keys.len()
            invariant
                obeys_key_model::<String>(),
                i <= keys.len(),
                self@ == m,
                self.interval() == old(self).interval(),
                keys@.to_set() == live_keys(m, now),
                out@.len() == i,
                forall|j: int|
                    0 <= j < i ==> #[trigger] out@[j] == (CacheEntry {
                        key: keys@[j],
                        value: m[keys@[j]].value,
                    }),
            decreases keys.len() - i,
        {
            let key = keys[i].clone();
            proof {
                assert(keys@.contains(keys@[i as int]));
                assert(live_keys(m, now).contains(key));
            }
            if let Some(value) = self.cache.get(&key, now) {
                out.push(CacheEntry { key, value });
            }
            i = i + 1;
        }
        proof {
            assert(out@.map_values(|e: CacheEntry| e.key) =~= keys@);
        }
        out
    }

    /// Writes each item in order at `now`, as `set` does.
    pub fn set_many(&mut self, items: Vec<SetItem>, now: u64)
        requires
            obeys_key_model::<String>(),
        ensures
            final(self)@ == after_set_each(old(self)@, items@, now),
            final(self).interval() == old(self).interval(),
    {
        let ghost m = self@;
        let ghost all = items@;
        for item in it: items.into_iter()
            invariant
                obeys_key_model::<String>(),
                it.seq() == all,
                self@ == after_set_each(m, all.take(it.index()), now),
                self.interval() == old(self).interval(),
        {
            proof {
                assert(all.take(it.index() + 1).drop_last() =~= all.take(it.index()));
            }
            self.set(item.key, item.value, item.ttl_ms, now);
        }
        proof {
            assert(all.take(all.len() as int) =~= all);
        }
    }

    /// Reads each of `keys` in order at `now`, as `get` does, and returns
    /// the keys found with their values; a key with nothing live under it is
    /// left out.
    pub fn get_many(&mut self, keys: Vec<String>, now: u64) -> (r: Vec<CacheEntry>)
        requires
            obeys_key_model::<String>(),
        ensures
            final(self)@ == after_get_each(old(self)@, keys@, now),
            final(self).interval() == old(self).interval(),
            r@ == found_entries(old(self)@, keys@, now),
    {
        let ghost m = self@;
        let ghost all = keys@;
        let mut results: Vec<CacheEntry> = Vec::new();
        for key in it: keys.into_iter()
            invariant
                obeys_key_model::<String>(),
                it.seq() == all,
                self@ == after_get_each(m, all.take(it.index()), now),
                self.interval() == old(self).interval(),
                results@ == found_entries(m, all.take(it.index()), now),
        {
            proof {
                assert(all.take(it.index() + 1).drop_last() =~= all.take(it.index()));
                lemma_reads_keep_lookup(m, all.take(it.index()), key, now);
            }
            if let Some(value) = self.cache.get(&key, now) {
                results.push(CacheEntry { key, value });
            }
        }
        proof {
            assert(all.take(all.len() as int) =~= all);
        }
        results
    }

    /// Removes every entry that is expired at `now`.
    pub fn sweep(&mut self, now: u64)
        requires
            obeys_key_model::<String>(),
        ensures
            final(self)@ == crate::cache::swept(old(self)@, now),
            final(self).interval() == old(self).interval(),
    {
        self.cache.sweep(now);
    }
}

/// A new cache, as [`JsCache::new`] makes it.
pub fn create_cache(options: Option<CacheOptions>) -> (r: Result<JsCache, CacheError>)
    ensures
        r is Err <==> interval_ms_of(options) == 0,
        r matches Ok(c) ==> c@ == Map::<String, Entry<String>>::empty() && c.interval()
            == millis_to_nanos(interval_ms_of(options)),
        r matches Err(e) ==> e == CacheError::ZeroCleanupInterval,
{
    JsCache::new(options)
}

/// A new cache with the default cleanup interval.
pub fn default_cache() -> (r: Result<JsCache, CacheError>)
    ensures
        r matches Ok(c) && c@ == Map::<String, Entry<String>>::empty() && c.interval()
            == millis_to_nanos(DEFAULT_CLEANUP_INTERVAL_MS),
{
    JsCache::new(None)
}

/// The version of this package, the backend, and the features offered.
pub fn get_info() -> (r: CacheInfo)
    ensures
        r.version@ == VERSION@,
        r.backend@ == "rust"@,
        r.performance@ == "native"@,
        r.features@.len() == 4,
        r.features@[0]@ == "ttl"@,
        r.features@[1]@ == "async"@,
        r.features@[2]@ == "concurrent"@,
        r.features@[3]@ == "auto-cleanup"@,
{
    CacheInfo {
        version: VERSION.to_owned(),
        backend: "rust".to_owned(),
        performance: "native".to_owned(),
        features: vec![
            "ttl".to_owned(),
            "async".to_owned(),
            "concurrent".to_owned(),
            "auto-cleanup".to_owned(),
        ],
    }
}

} // verus!
