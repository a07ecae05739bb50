use minicache::{
    create_cache, default_cache, get_info, CacheError, CacheOptions, JsCache, SetItem,
};

const MS: u64 = 1_000_000;

fn s(x: &str) -> String {
    x.to_string()
}

fn js() -> JsCache {
    JsCache::new(None).expect("default interval")
}

#[test]
fn default_interval_is_sixty_seconds() {
    assert_eq!(js().cleanup_interval(), 60_000 * MS);
    let c = default_cache().expect("default interval");
    assert_eq!(c.cleanup_interval(), 60_000 * MS);
    let unset = JsCache::new(Some(CacheOptions { cleanup_interval_ms: None })).unwrap();
    assert_eq!(unset.cleanup_interval(), 60_000 * MS);
}

#[test]
fn interval_in_milliseconds() {
    let c = create_cache(Some(CacheOptions { cleanup_interval_ms: Some(30_000) })).unwrap();
    assert_eq!(c.cleanup_interval(), 30_000 * MS);
    let big = JsCache::new(Some(CacheOptions { cleanup_interval_ms: Some(u32::MAX) })).unwrap();
    assert_eq!(big.cleanup_interval(), u32::MAX as u64 * MS);
}

#[test]
fn zero_interval_is_refused() {
    let r = JsCache::new(Some(CacheOptions { cleanup_interval_ms: Some(0) }));
    assert!(matches!(r, Err(CacheError::ZeroCleanupInterval)));
    let r = create_cache(Some(CacheOptions { cleanup_interval_ms: Some(0) }));
    assert!(matches!(r, Err(CacheError::ZeroCleanupInterval)));
}

#[test]
fn ttl_counts_in_milliseconds() {
    let mut c = js();
    c.set(s("k"), s("v"), Some(50), 0);
    assert_eq!(c.get(s("k"), 50 * MS - 1), Some(s("v")));
    assert_eq!(c.get(s("k"), 50 * MS), None);
}

#[test]
fn string_operations() {
    let mut c = js();
    assert!(c.is_empty(0));
    c.set(s("user:1"), s("Alice"), None, 0);
    c.set(s("user:2"), s("Bob"), Some(10), 0);
    assert!(c.has(s("user:1"), 0));
    assert_eq!(c.size(0), 2);
    assert!(!c.is_empty(0));
    let mut keys = c.keys(0);
    keys.sort();
    assert_eq!(keys, vec![s("user:1"), s("user:2")]);
    assert_eq!(c.size(10 * MS), 1);
    assert!(!c.has(s("user:2"), 10 * MS));
    c.remove(s("user:1"));
    assert_eq!(c.get(s("user:1"), 0), None);
    c.set(s("x"), s("y"), None, 0);
    c.clear();
    assert!(c.is_empty(0));
}

#[test]
fn set_many_writes_in_order() {
    let mut c = js();
    c.set_many(
        vec![
            SetItem { key: s("a"), value: s("1"), ttl_ms: Some(300_000) },
            SetItem { key: s("b"), value: s("2"), ttl_ms: None },
            SetItem { key: s("a"), value: s("3"), ttl_ms: Some(5) },
        ],
        0,
    );
    assert_eq!(c.get(s("a"), 4 * MS), Some(s("3")));
    assert_eq!(c.get(s("a"), 5 * MS), None);
    assert_eq!(c.get(s("b"), 5 * MS), Some(s("2")));
}

#[test]
fn get_many_omits_missing_keys() {
    let mut c = js();
    c.set(s("user:1"), s("Alice"), None, 0);
    c.set(s("user:2"), s("Bob"), Some(1), 0);
    c.set(s("user:3"), s("Carol"), None, 0);
    let found = c.get_many(vec![s("user:3"), s("user:2"), s("nobody"), s("user:1"), s("user:3")], MS);
    let pairs: Vec<(String, String)> = found.into_iter().map(|e| (e.key, e.value)).collect();
    assert_eq!(
        pairs,
        vec![
            (s("user:3"), s("Carol")),
            (s("user:1"), s("Alice")),
            (s("user:3"), s("Carol")),
        ]
    );
    // The expired entry that was read is gone.
    assert_eq!(c.get(s("user:2"), 0), None);
}

#[test]
fn entries_lists_live_pairs() {
    let mut c = js();
    c.set(s("a"), s("1"), None, 0);
    c.set(s("b"), s("2"), Some(1), 0);
    c.set(s("c"), s("3"), None, 0);
    let mut pairs: Vec<(String, String)> =
        c.entries(MS).into_iter().map(|e| (e.key, e.value)).collect();
    pairs.sort();
    assert_eq!(pairs, vec![(s("a"), s("1")), (s("c"), s("3"))]);
    assert_eq!(c.size(0), 3);
}

#[test]
fn sweep_through_the_adapter() {
    let mut c = js();
    c.set(s("a"), s("1"), Some(1), 0);
    c.set(s("b"), s("2"), None, 0);
    c.sweep(MS);
    assert_eq!(c.size(0), 1);
}

#[test]
fn info_describes_the_backend() {
    let info = get_info();
    assert_eq!(info.version, "0.1.1");
    assert_eq!(info.backend, "rust");
    assert_eq!(info.performance, "native");
    assert_eq!(info.features, vec![s("ttl"), s("async"), s("concurrent"), s("auto-cleanup")]);
}
