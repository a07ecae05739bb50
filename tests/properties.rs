use minicache::MiniCache;

const MS: u64 = 1_000_000;

fn cache(interval: u64) -> MiniCache<&'static str, &'static str> {
    MiniCache::new(interval).expect("positive interval")
}

#[test]
fn round_trip_without_ttl() {
    let mut c = cache(MS);
    c.set("k", "v", None, 3);
    assert_eq!(c.get(&"k", 3), Some("v"));
    assert_eq!(c.get(&"k", u64::MAX), Some("v"));
}

#[test]
fn overwrite_never_shows_the_first_value() {
    let mut c = cache(MS);
    c.set("k", "v1", Some(5), 0);
    c.set("k", "v2", Some(50), 1);
    assert_eq!(c.get(&"k", 20), Some("v2"));
    assert_eq!(c.get(&"k", 51), None);
}

#[test]
fn ttl_expiry() {
    let mut c = cache(MS);
    c.set("k", "v", Some(30 * MS), 0);
    assert_eq!(c.get(&"k", 0), Some("v"));
    assert_eq!(c.get(&"k", 31 * MS), None);
}

#[test]
fn no_ttl_persists_through_sweeps() {
    let mut c = cache(10 * MS);
    c.set("k", "v", None, 0);
    for i in 1..=10u64 {
        c.sweep(i * 10 * MS);
    }
    assert_eq!(c.get(&"k", 100 * MS), Some("v"));
}

#[test]
fn removal() {
    let mut c = cache(MS);
    c.set("k", "v", None, 0);
    c.remove(&"k");
    assert_eq!(c.get(&"k", 0), None);
    c.remove(&"k");
    assert_eq!(c.len(0), 0);
}

#[test]
fn clear_forgets_everything() {
    let mut c = cache(MS);
    c.set("a", "1", None, 0);
    c.set("b", "2", Some(100), 0);
    c.clear();
    assert_eq!(c.len(0), 0);
    assert_eq!(c.get(&"a", 0), None);
    assert_eq!(c.get(&"b", 0), None);
    assert!(c.keys(0).is_empty());
}

#[test]
fn len_and_keys_exclude_expired() {
    let mut c = cache(MS);
    c.set("old", "1", Some(10), 0);
    c.set("new", "2", None, 0);
    assert_eq!(c.len(10), 1);
    assert_eq!(c.keys(10), vec!["new"]);
}

#[test]
fn sweep_without_reads_drops_expired() {
    let mut c = cache(50 * MS);
    c.set("k", "v", Some(25 * MS), 0);
    c.sweep(50 * MS);
    assert_eq!(c.len(50 * MS), 0);
    assert!(c.keys(50 * MS).is_empty());
    assert_eq!(c.get(&"k", 0), None);
}

#[test]
fn expired_read_and_sweep_in_either_order() {
    let mut first = cache(MS);
    first.set("k", "v", Some(10), 0);
    first.set("other", "w", None, 0);
    let mut second = cache(MS);
    second.set("k", "v", Some(10), 0);
    second.set("other", "w", None, 0);

    assert_eq!(first.get(&"k", 20), None);
    first.sweep(20);
    second.sweep(20);
    assert_eq!(second.get(&"k", 20), None);
    second.sweep(20);

    for c in [&mut first, &mut second] {
        assert_eq!(c.get(&"k", 0), None);
        assert_eq!(c.get(&"other", 0), Some("w"));
        assert_eq!(c.len(0), 1);
    }
}

#[test]
fn scenario_cleanup_interval_fifty_ms() {
    let mut c = cache(50 * MS);
    c.set("a", "1", Some(25 * MS), 0);
    c.set("b", "2", None, 0);
    assert_eq!(c.len(0), 2);
    c.sweep(50 * MS);
    c.sweep(100 * MS);
    assert_eq!(c.get(&"a", 100 * MS), None);
    assert_eq!(c.get(&"b", 100 * MS), Some("2"));
    assert_eq!(c.len(100 * MS), 1);
    assert_eq!(c.keys(100 * MS), vec!["b"]);
}
