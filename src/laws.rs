//! What holds of the cache across several operations, stated over the
//! same models that the operations' contracts use.

use vstd::prelude::*;

use crate::cache::{after_get, after_set, live_keys, lookup, swept};
use crate::entry::{expiry_for, is_live, Entry};

verus! {

/// `m` after one sweep at each reading of `times`, in order.
pub open spec fn swept_at_each<K, V>(m: Map<K, Entry<V>>, times: Seq<u64>) -> Map<K, Entry<V>>
    decreases times.len(),
{
    if times.len() == 0 {
        m
    } else {
        swept_at_each(swept(m, times[0]), times.drop_first())
    }
}

/// A value written without a time-to-live is found by a read at any later
/// reading.
pub proof fn lemma_set_then_get<K, V>(m: Map<K, Entry<V>>, k: K, v: V, now: u64, later: u64)
    ensures
        lookup(after_set(m, k, v, None, now), k, later) == Some(v),
{
}

/// A second write under a key replaces the first entirely: the store is as
/// if only the second write had happened, and a read finds the second value
/// while it is live and nothing after, never the first value.
pub proof fn lemma_overwrite<K, V>(
    m: Map<K, Entry<V>>,
    k: K,
    v1: V,
    ttl1: Option<u64>,
    t1: u64,
    v2: V,
    ttl2: Option<u64>,
    t2: u64,
    t: u64,
)
    ensures
        after_set(after_set(m, k, v1, ttl1, t1), k, v2, ttl2, t2) == after_set(m, k, v2, ttl2, t2),
        lookup(after_set(after_set(m, k, v1, ttl1, t1), k, v2, ttl2, t2), k, t) == (if is_live(
            expiry_for(t2, ttl2),
            t,
        ) {
            Some(v2)
        } else {
            None
        }),
        v1 != v2 ==> lookup(after_set(after_set(m, k, v1, ttl1, t1), k, v2, ttl2, t2), k, t)
            != Some(v1),
{
    assert(after_set(after_set(m, k, v1, ttl1, t1), k, v2, ttl2, t2) =~= after_set(
        m,
        k,
        v2,
        ttl2,
        t2,
    ));
}

/// A value written at `t0` with time-to-live `d` is found by reads before
/// `t0 + d`; from `t0 + d` on a read finds nothing and drops the entry.
pub proof fn lemma_ttl_expiry<K, V>(m: Map<K, Entry<V>>, k: K, v: V, d: u64, t0: u64, t: u64)
    ensures
        t0 <= t < t0 + d ==> lookup(after_set(m, k, v, Some(d), t0), k, t) == Some(v),
        t0 + d <= t ==> lookup(after_set(m, k, v, Some(d), t0), k, t) is None,
        t0 + d <= t ==> !after_get(after_set(m, k, v, Some(d), t0), k, t).contains_key(k),
{
}

/// An entry without a time-to-live survives any number of sweeps, at any
/// readings.
pub proof fn lemma_no_ttl_survives_sweeps<K, V>(
    m: Map<K, Entry<V>>,
    k: K,
    v: V,
    t0: u64,
    times: Seq<u64>,
    t: u64,
)
    ensures
        lookup(swept_at_each(after_set(m, k, v, None, t0), times), k, t) == Some(v),
{
    lemma_sweeps_keep_entry(after_set(m, k, v, None, t0), k, Entry { value: v, expires_at: None }, times);
}

/// Sweeps keep an entry that never expires.
proof fn lemma_sweeps_keep_entry<K, V>(m: Map<K, Entry<V>>, k: K, e: Entry<V>, times: Seq<u64>)
    requires
        m.contains_key(k),
        m[k] == e,
        e.expires_at is None,
    ensures
        swept_at_each(m, times).contains_key(k),
        swept_at_each(m, times)[k] == e,
    decreases times.len(),
{
    if times.len() > 0 {
        assert(live_keys(m, times[0]).contains(k));
        lemma_sweeps_keep_entry(swept(m, times[0]), k, e, times.drop_first());
    }
}

/// After a removal a read finds nothing; removing an absent key changes
/// nothing.
pub proof fn lemma_remove<K, V>(m: Map<K, Entry<V>>, k: K, v: V, t0: u64, t: u64)
    ensures
        lookup(after_set(m, k, v, None, t0).remove(k), k, t) is None,
        !m.contains_key(k) ==> m.remove(k) == m,
{
    if !m.contains_key(k) {
        assert(m.remove(k) =~= m);
    }
}

/// A cleared store has no live entry, and a read of any key finds nothing.
pub proof fn lemma_cleared<K, V>(t: u64)
    ensures
        live_keys(Map::<K, Entry<V>>::empty(), t).len() == 0,
        forall|k: K| lookup(Map::<K, Entry<V>>::empty(), k, t) is None,
{
    assert(live_keys(Map::<K, Entry<V>>::empty(), t) =~= Set::empty());
}

/// The keys counted and listed at `now` are exactly those a read at `now`
/// would find; so with one expired entry and one live one, only the live
/// key is counted.
pub proof fn lemma_live_keys_exclude_expired<K, V>(m: Map<K, Entry<V>>, k1: K, k2: K, now: u64)
    ensures
        forall|k: K| #[trigger] live_keys(m, now).contains(k) <==> lookup(m, k, now) is Some,
        m.dom() == set![k1, k2] && k1 != k2 && !is_live(m[k1].expires_at, now) && is_live(
            m[k2].expires_at,
            now,
        ) ==> live_keys(m, now) == set![k2] && live_keys(m, now).len() == 1,
{
    if m.dom() == set![k1, k2] && k1 != k2 && !is_live(m[k1].expires_at, now) && is_live(
        m[k2].expires_at,
        now,
    ) {
        assert(live_keys(m, now) =~= set![k2]);
    }
}

/// A sweep at `s` drops an entry whose time-to-live ran out by `s`, with no
/// read in between; after a sweep every remaining entry is live at the
/// sweep's reading.
pub proof fn lemma_sweep_drops_expired<K, V>(
    m: Map<K, Entry<V>>,
    k: K,
    v: V,
    d: u64,
    t0: u64,
    s: u64,
)
    ensures
        t0 + d <= s ==> !swept(after_set(m, k, v, Some(d), t0), s).contains_key(k),
        t0 + d <= s ==> !live_keys(swept(after_set(m, k, v, Some(d), t0), s), s).contains(k),
        forall|j: K| #[trigger]
            swept(m, s).contains_key(j) ==> is_live(swept(m, s)[j].expires_at, s),
        live_keys(swept(m, s), s) == swept(m, s).dom(),
{
    assert(live_keys(swept(m, s), s) =~= swept(m, s).dom());
}

/// A read of an expired key and a sweep, run in either order, leave the
/// same store, without that key; a second sweep at the same reading
/// changes nothing.
pub proof fn lemma_get_and_sweep_agree<K, V>(m: Map<K, Entry<V>>, k: K, tg: u64, ts: u64)
    requires
        m.contains_key(k) ==> !is_live(m[k].expires_at, tg) && !is_live(m[k].expires_at, ts),
    ensures
        after_get(swept(m, ts), k, tg) == swept(after_get(m, k, tg), ts),
        !after_get(swept(m, ts), k, tg).contains_key(k),
        swept(swept(m, ts), ts) == swept(m, ts),
{
    assert(after_get(swept(m, ts), k, tg) =~= swept(m, ts));
    assert(swept(after_get(m, k, tg), ts) =~= swept(m, ts));
    assert(swept(swept(m, ts), ts) =~= swept(m, ts));
}

} // verus!
