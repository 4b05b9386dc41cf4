use identity_resolver::cache::TtlCache;
use identity_resolver::resolver::CacheSet;

#[test]
fn cache_round_trip() {
    let mut c: TtlCache<String> = TtlCache::new();
    c.put("alice.example.com", String::from("did:plc:xyz"), 1000);
    assert_eq!(c.get("alice.example.com", 1000), Some(&String::from("did:plc:xyz")));
    assert_eq!(c.entry_count(), 1);
}

#[test]
fn cache_miss_on_absent_key() {
    let c: TtlCache<String> = TtlCache::new();
    assert_eq!(c.get("nobody", 0), None);
}

#[test]
fn cache_entry_expires_after_ttl() {
    let mut c: TtlCache<String> = TtlCache::new();
    c.put("k", String::from("v"), 1000);
    // visible up to the last second of the window
    assert_eq!(c.get("k", 1000 + 3599), Some(&String::from("v")));
    // gone once the TTL has elapsed, with no eviction call
    assert_eq!(c.get("k", 1000 + 3600), None);
    assert_eq!(c.get("k", 1000 + 7200), None);
    // the entry still occupies a slot; only reads treat it as absent
    assert_eq!(c.entry_count(), 1);
}

#[test]
fn cache_entry_invisible_before_insertion_time() {
    let mut c: TtlCache<String> = TtlCache::new();
    c.put("k", String::from("v"), 1000);
    assert_eq!(c.get("k", 999), None);
}

#[test]
fn cache_overwrite_resets_value_and_clock() {
    let mut c: TtlCache<String> = TtlCache::new();
    c.put("k", String::from("v1"), 1000);
    c.put("k", String::from("v2"), 5000);
    assert_eq!(c.get("k", 5000), Some(&String::from("v2")));
    // the overwrite reset the TTL clock
    assert_eq!(c.get("k", 5000 + 3599), Some(&String::from("v2")));
    assert_eq!(c.get("k", 5000 + 3600), None);
    // overwriting did not grow the store
    assert_eq!(c.entry_count(), 1);
}

#[test]
fn cache_independent_keys() {
    let mut c: TtlCache<String> = TtlCache::new();
    c.put("a", String::from("1"), 10);
    c.put("b", String::from("2"), 10);
    assert_eq!(c.get("a", 11), Some(&String::from("1")));
    assert_eq!(c.get("b", 11), Some(&String::from("2")));
    assert_eq!(c.entry_count(), 2);
}

#[test]
fn cache_set_clear_empties_both_stores() {
    let mut caches = CacheSet::new();
    caches.handle_cache.put("h", String::from("did:plc:a"), 0);
    assert_eq!(caches.get_cache_stats(), (1, 0));
    caches.clear_cache();
    assert_eq!(caches.get_cache_stats(), (0, 0));
    assert_eq!(caches.handle_cache.get("h", 0), None);
}

#[test]
fn cache_invalidate_all_forgets_entries() {
    let mut c: TtlCache<String> = TtlCache::new();
    c.put("k", String::from("v"), 0);
    c.invalidate_all();
    assert_eq!(c.entry_count(), 0);
    assert_eq!(c.get("k", 0), None);
}
