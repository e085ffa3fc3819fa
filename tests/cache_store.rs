use careerscout::cache::{clear_cache, get_cache, remove_cache, set_cache, CacheStore, CACHE_TTL_SECS};

#[test]
fn ttl_value_readable_until_expiry() {
    let mut store = CacheStore::new();
    store.set_at("jobs_rust_10__false_", "[1,2]", 1_000);
    assert_eq!(store.get_at("jobs_rust_10__false_", 1_000), Some("[1,2]".to_string()));
    assert_eq!(store.get_at("jobs_rust_10__false_", 1_000 + 4 * 3600 - 1), Some("[1,2]".to_string()));
    assert_eq!(store.get_at("jobs_rust_10__false_", 1_000 + 4 * 3600), None);
    assert_eq!(store.get_at("jobs_rust_10__false_", 1_000 + 5 * 3600), None);
}

#[test]
fn ttl_constant_is_four_hours() {
    assert_eq!(CACHE_TTL_SECS, 14_400);
}

#[test]
fn unknown_key_reads_absent() {
    let store = CacheStore::new();
    assert_eq!(store.get_at("missing", 0), None);
    assert_eq!(get_cache(&store, "missing"), None);
}

#[test]
fn set_overwrites_and_renews_expired_entry() {
    let mut store = CacheStore::new();
    store.set_at("k", "old", 0);
    assert_eq!(store.get_at("k", CACHE_TTL_SECS), None);
    store.set_at("k", "new", CACHE_TTL_SECS);
    assert_eq!(store.get_at("k", CACHE_TTL_SECS + 1), Some("new".to_string()));
}

#[test]
fn set_cache_then_get_cache_with_clock() {
    let mut store = CacheStore::new();
    set_cache(&mut store, "a", "payload");
    assert_eq!(get_cache(&store, "a"), Some("payload".to_string()));
}

#[test]
fn remove_cache_drops_only_that_key() {
    let mut store = CacheStore::new();
    store.set_at("a", "1", 10);
    store.set_at("b", "2", 10);
    remove_cache(&mut store, "a");
    assert_eq!(store.get_at("a", 10), None);
    assert_eq!(store.get_at("b", 10), Some("2".to_string()));
    remove_cache(&mut store, "zzz");
    assert_eq!(store.get_at("b", 10), Some("2".to_string()));
}

#[test]
fn clear_cache_drops_everything() {
    let mut store = CacheStore::new();
    store.set_at("a", "1", 10);
    store.set_at("b", "2", 10);
    clear_cache(&mut store);
    assert_eq!(store.get_at("a", 10), None);
    assert_eq!(store.get_at("b", 10), None);
}

#[test]
fn entry_written_in_future_still_reads() {
    let mut store = CacheStore::new();
    store.set_at("k", "v", 500);
    assert_eq!(store.get_at("k", 100), Some("v".to_string()));
}
