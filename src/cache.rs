//! The cache engine: one map from key to entry, read and written against
//! a clock reading that the caller supplies.
//!
//! Operations that look up keys require `obeys_key_model::<K>()`: that the
//! key type hashes deterministically, that its `==` is equality and that
//! its clone is an exact copy.

use std::collections::HashMap;
use std::hash::Hash;
use vstd::prelude::*;
use vstd::std_specs::hash::obeys_key_model;
use vstd::std_specs::iter::IteratorSpec;

use crate::entry::{expiry_after, expiry_for, is_live, Entry};

verus! {

/// The keys of `m` whose entries are live at `now`.
pub open spec fn live_keys<K, V>(m: Map<K, Entry<V>>, now: u64) -> Set<K> {
    m.dom().filter(|k: K| is_live(m[k].expires_at, now))
}

/// The value that a read of `k` at `now` finds in `m`, if any.
pub open spec fn lookup<K, V>(m: Map<K, Entry<V>>, k: K, now: u64) -> Option<V> {
    if m.contains_key(k) && is_live(m[k].expires_at, now) {
        Some(m[k].value)
    } else {
        None
    }
}

/// `m` after writing `v` under `k` at `now` with time-to-live `ttl`.
pub open spec fn after_set<K, V>(m: Map<K, Entry<V>>, k: K, v: V, ttl: Option<u64>, now: u64) -> Map<
    K,
    Entry<V>,
> {
    m.insert(k, Entry { value: v, expires_at: expiry_for(now, ttl) })
}

/// `m` after a read of `k` at `now`: an expired entry under `k` is dropped.
pub open spec fn after_get<K, V>(m: Map<K, Entry<V>>, k: K, now: u64) -> Map<K, Entry<V>> {
    if m.contains_key(k) && !is_live(m[k].expires_at, now) {
        m.remove(k)
    } else {
        m
    }
}

/// `m` after a sweep at `now`: only the live entries remain.
pub open spec fn swept<K, V>(m: Map<K, Entry<V>>, now: u64) -> Map<K, Entry<V>> {
    m.restrict(live_keys(m, now))
}

/// `out` holds, position by position, a copy of each key of `ks`, and
/// `ks` lists the keys of `s`, each once.
pub open spec fn copies_of_keys<K: Clone>(ks: Seq<K>, out: Seq<K>, s: Set<K>) -> bool {
    &&& ks.no_duplicates()
    &&& ks.to_set() == s
    &&& out.len() == ks.len()
    &&& forall|i: int| 0 <= i < ks.len() ==> cloned(#[trigger] ks[i], out[i])
}

/// The `i`-th key of a list without repeats is not among the keys before
/// it, and joins them to give the keys up to and including it.
proof fn lemma_next_key<K>(ks: Seq<K>, i: int)
    requires
        ks.no_duplicates(),
        0 <= i < ks.len(),
    ensures
        !ks.take(i).to_set().contains(ks[i]),
        ks.take(i + 1).to_set() == ks.take(i).to_set().insert(ks[i]),
{
    assert(ks.take(i + 1) =~= ks.take(i).push(ks[i]));
    ks.take(i).lemma_push_to_set_commute(ks[i]);
    if ks.take(i).to_set().contains(ks[i]) {
        let j = choose|j: int| 0 <= j < i && ks.take(i)[j] == ks[i];
        assert(ks[j] == ks[i]);
    }
}

/// Relies on `HashMap::retain`: it keeps exactly the entries for which the
/// predicate returns true, here the entries live at `now`.
#[verifier::external_body]
fn retain_live<K: Hash + Eq, V>(map: &mut HashMap<K, Entry<V>>, now: u64)
    requires
        obeys_key_model::<K>(),
    ensures
        final(map)@ == old(map)@.restrict(live_keys(old(map)@, now)),
{
    map.retain(|_, e| e.is_live_at(now));
}

/// Errors of construction.
#[derive(Debug, Clone, Copy, PartialEq, Eq, Structural)]
pub enum CacheError {
    /// The cleanup interval was zero.
    ZeroCleanupInterval,
}

/// A key-value store whose entries may expire.
///
/// Every key is held at most once. An operation that depends on time takes
/// the current clock reading `now`, in nanoseconds.
pub struct MiniCache<K, V> {
    map: HashMap<K, Entry<V>>,
    cleanup_interval: u64,
}

impl<K, V> View for MiniCache<K, V> {
    type V = Map<K, Entry<V>>;

    closed spec fn view(&self) -> Map<K, Entry<V>> {
        self.map@
    }
}

impl<K: Hash + Eq + Clone, V: Clone> MiniCache<K, V> {
    /// The period of the background sweep, in nanoseconds.
    pub closed spec fn interval(&self) -> u64 {
        self.cleanup_interval
    }

    /// An empty cache whose expired entries are to be swept every
    /// `cleanup_interval` nanoseconds; a zero interval is refused.
    pub fn new(cleanup_interval: u64) -> (r: Result<Self, CacheError>)
        ensures
            cleanup_interval == 0 <==> r is Err,
            r matches Ok(c) ==> c@ == Map::<K, Entry<V>>::empty() && c.interval()
                == cleanup_interval,
            r matches Err(e) ==> e == CacheError::ZeroCleanupInterval,
    {
        if cleanup_interval == 0 {
            Err(CacheError::ZeroCleanupInterval)
        } else {
            Ok(MiniCache { map: HashMap::new(), cleanup_interval })
        }
    }

    /// The period of the background sweep, in nanoseconds.
    pub fn cleanup_interval(&self) -> (r: u64)
        ensures
            r == self.interval(),
    {
        self.cleanup_interval
    }

    /// Stores `value` under `key`, replacing any earlier entry. With
    /// `ttl` set, the entry expires `ttl` nanoseconds after `now`.
    pub fn set(&mut self, key: K, value: V, ttl: Option<u64>, now: u64)
        requires
            obeys_key_model::<K>(),
        ensures
            final(self)@ == after_set(old(self)@, key, value, ttl, now),
            final(self).interval() == old(self).interval(),
    {
        let expires_at = expiry_after(now, ttl);
        self.map.insert(key, Entry { value, expires_at });
    }

    /// A copy of the value under `key` if its entry is live at `now`.
    /// An expired entry under `key` is removed.
    pub fn get(&mut self, key: &K, now: u64) -> (r: Option<V>)
        requires
            obeys_key_model::<K>(),
        ensures
            final(self)@ == after_get(old(self)@, *key, now),
            final(self).interval() == old(self).interval(),
            match lookup(old(self)@, *key, now) {
                None => r is None,
                Some(v) => r matches Some(w) && cloned(v, w),
            },
    {
        match self.map.get(key) {
            None => {
                return None;
            },
            Some(e) => {
                if e.is_live_at(now) {
                    return Some(e.value.clone());
                }
            },
        }
        self.map.remove(key);
        None
    }

    /// Removes the entry under `key`, if there is one.
    pub fn remove(&mut self, key: &K)
        requires
            obeys_key_model::<K>(),
        ensures
            final(self)@ == old(self)@.remove(*key),
            final(self).interval() == old(self).interval(),
    {
        self.map.remove(key);
    }

    /// Removes every entry, live or expired.
    pub fn clear(&mut self)
        ensures
            final(self)@ == Map::<K, Entry<V>>::empty(),
            final(self).interval() == old(self).interval(),
    {
        self.map.clear();
    }

    /// Whether the entry under `key` is live at `now`; like `get`, this
    /// removes an expired entry under `key`.
    pub fn contains(&mut self, key: &K, now: u64) -> (r: bool)
        requires
            obeys_key_model::<K>(),
        ensures
            final(self)@ == after_get(old(self)@, *key, now),
            final(self).interval() == old(self).interval(),
            r == lookup(old(self)@, *key, now) is Some,
    {
        self.get(key, now).is_some()
    }

    /// The number of entries live at `now`.
    pub fn len(&self, now: u64) -> (r: usize)
        requires
            obeys_key_model::<K>(),
        ensures
            r == live_keys(self@, now).len(),
    {
        let ghost m = self@;
        let ghost live = live_keys(m, now);
        let ghost ks = self.map.keys().remaining().unref();
        let ghost mut seen: Set<K> = Set::empty();
        let mut count: usize = 0;
        proof {
            assert(live.intersect(seen) =~= Set::empty());
            assert(ks.take(0) =~= Seq::empty());
        }
        for k in it: self.map.keys()
            invariant
                obeys_key_model::<K>(),
                m == self@,
                live == live_keys(m, now),
                it.seq().unref() == ks,
                ks.no_duplicates(),
                ks.to_set() == m.dom(),
                seen == ks.take(it.index()).to_set(),
                count == live.intersect(seen).len(),
        {
            proof {
                lemma_next_key(ks, it.index());
                assert(ks.contains(*k));
                assert(live.intersect(seen).subset_of(m.dom()));
                vstd::set_lib::lemma_len_subset(live.intersect(seen).insert(*k), m.dom());
                assert(self.map.len() == m.len());
            }
            let e = self.map.get(k).unwrap();
            if e.is_live_at(now) {
                proof {
                    assert(live.intersect(seen.insert(*k)) =~= live.intersect(seen).insert(*k));
                }
                count = count + 1;
            } else {
                proof {
                    assert(live.intersect(seen.insert(*k)) =~= live.intersect(seen));
                }
            }
            proof {
                seen = seen.insert(*k);
            }
        }
        proof {
            assert(ks.take(ks.len() as int) =~= ks);
            assert(live.intersect(seen) =~= live);
        }
        count
    }

    /// A copy of every key whose entry is live at `now`, each once, in no
    /// particular order.
    pub fn keys(&self, now: u64) -> (r: Vec<K>)
        requires
            obeys_key_model::<K>(),
        ensures
            exists|ks: Seq<K>| copies_of_keys(ks, r@, live_keys(self@, now)),
    {
        let ghost m = self@;
        let ghost live = live_keys(m, now);
        let ghost ks = self.map.keys().remaining().unref();
        let ghost mut seen: Set<K> = Set::empty();
        let ghost mut kept: Seq<K> = Seq::empty();
        let mut out: Vec<K> = Vec::new();
        proof {
            assert(live.intersect(seen) =~= Set::empty());
            assert(kept.to_set() =~= Set::empty());
            assert(ks.take(0) =~= Seq::empty());
        }
        for k in it: self.map.keys()
            invariant
                obeys_key_model::<K>(),
                m == self@,
                live == live_keys(m, now),
                it.seq().unref() == ks,
                ks.no_duplicates(),
                ks.to_set() == m.dom(),
                seen == ks.take(it.index()).to_set(),
                copies_of_keys(kept, out@, live.intersect(seen)),
        {
            proof {
                lemma_next_key(ks, it.index());
                assert(ks.contains(*k));
            }
            let e = self.map.get(k).unwrap();
            if e.is_live_at(now) {
                let c = k.clone();
                out.push(c);
                proof {
                    if kept.contains(*k) {
                        assert(kept.to_set().contains(*k));
                    }
                    kept.lemma_push_to_set_commute(*k);
                    assert(live.intersect(seen.insert(*k)) =~= live.intersect(seen).insert(*k));
                    let kept2 = kept.push(*k);
                    assert forall|a: int, b: int|
                        0 <= a < kept2.len() && 0 <= b < kept2.len() && a != b implies kept2[a]
                        != kept2[b] by {
                        if a < kept.len() && b < kept.len() {
                        } else if a < kept.len() {
                            assert(kept.contains(kept2[a]));
                        } else {
                            assert(kept.contains(kept2[b]));
                        }
                    }
                    assert forall|j: int| 0 <= j < kept2.len() implies cloned(
                        #[trigger] kept2[j],
                        out@[j],
                    ) by {
                        if j < kept.len() {
                            assert(kept2[j] == kept[j]);
                        }
                    }
                    kept = kept2;
                }
            } else {
                proof {
                    assert(live.intersect(seen.insert(*k)) =~= live.intersect(seen));
                }
            }
            proof {
                seen = seen.insert(*k);
            }
        }
        proof {
            assert(ks.take(ks.len() as int) =~= ks);
            assert(live.intersect(seen) =~= live);
        }
        out
    }

    /// Removes every entry that is expired at `now`, judging all of them
    /// against that one reading.
    pub fn sweep(&mut self, now: u64)
        requires
            obeys_key_model::<K>(),
        ensures
            final(self)@ == swept(old(self)@, now),
            final(self).interval() == old(self).interval(),
    {
        retain_live(&mut self.map, now);
    }
}

} // verus!
