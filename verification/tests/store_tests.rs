use my_cache::{CacheItemTTL, CacheStore};

#[test]
fn test_capacity_two_evicts_oldest() {
    // capacity=2, default TTL=60s; three permanent sets leave exactly the
    // two most recently touched keys resident, the oldest one evicted.
    let mut store = CacheStore::new(2, 60);
    store.set("a".to_string(), "1".to_string(), CacheItemTTL::Permanent, 0);
    store.set("b".to_string(), "2".to_string(), CacheItemTTL::Permanent, 1);
    store.set("c".to_string(), "3".to_string(), CacheItemTTL::Permanent, 2);
    assert_eq!(store.get("a", 3), None);
    assert_eq!(store.get("b", 4), Some("2".to_string()));
    assert_eq!(store.get("c", 5), Some("3".to_string()));
}

#[test]
fn test_ttl_two_seconds() {
    // Set("x", {"n":1}, ttl=2s) at t=0; Get at t=1 hits; Get at t=3 misses.
    let mut store = CacheStore::new(10, 60);
    store.set("x".to_string(), "{\"n\":1}".to_string(), CacheItemTTL::Custom(2), 0);
    assert_eq!(store.get("x", 1), Some("{\"n\":1}".to_string()));
    assert_eq!(store.get("x", 3), None);
}

#[test]
fn test_ttl_boundary_is_exclusive() {
    let mut store = CacheStore::new(10, 60);
    store.set("k".to_string(), "v".to_string(), CacheItemTTL::Custom(5), 10);
    assert_eq!(store.get("k", 14), Some("v".to_string()));
    assert_eq!(store.get("k", 15), None);
    // The expired entry was lazily removed by the read.
    assert_eq!(store.delete("k", 16), 0);
}

#[test]
fn test_default_ttl_applies() {
    let mut store = CacheStore::new(10, 60);
    store.set("k".to_string(), "v".to_string(), CacheItemTTL::Default, 0);
    assert_eq!(store.get("k", 59), Some("v".to_string()));
    assert_eq!(store.get("k", 60), None);
}

#[test]
fn test_permanent_survives_arbitrary_delay() {
    let mut store = CacheStore::new(10, 60);
    store.set("k".to_string(), "v".to_string(), CacheItemTTL::Permanent, 0);
    assert_eq!(store.get("k", u64::MAX), Some("v".to_string()));
    assert_eq!(store.delete("k", u64::MAX), 1);
    assert_eq!(store.get("k", u64::MAX), None);
}

#[test]
fn test_delete_idempotent() {
    let mut store = CacheStore::new(10, 60);
    store.set("k".to_string(), "v".to_string(), CacheItemTTL::Permanent, 0);
    assert_eq!(store.delete("k", 1), 1);
    assert_eq!(store.delete("k", 2), 0);
    assert_eq!(store.delete("k", 3), 0);
    store.set("k".to_string(), "v2".to_string(), CacheItemTTL::Permanent, 4);
    assert_eq!(store.delete("k", 5), 1);
}

#[test]
fn test_delete_expired_counts_zero() {
    let mut store = CacheStore::new(10, 60);
    store.set("k".to_string(), "v".to_string(), CacheItemTTL::Custom(1), 0);
    assert_eq!(store.delete("k", 5), 0);
    assert_eq!(store.get("k", 6), None);
}

#[test]
fn test_delete_absent_key() {
    let mut store = CacheStore::new(10, 60);
    assert_eq!(store.delete("never-set", 0), 0);
}

#[test]
fn test_get_touch_protects_from_eviction() {
    let mut store = CacheStore::new(2, 60);
    store.set("a".to_string(), "1".to_string(), CacheItemTTL::Permanent, 0);
    store.set("b".to_string(), "2".to_string(), CacheItemTTL::Permanent, 1);
    // Touch "a": it becomes the most recent, so the next eviction takes "b".
    assert_eq!(store.get("a", 2), Some("1".to_string()));
    store.set("c".to_string(), "3".to_string(), CacheItemTTL::Permanent, 3);
    assert_eq!(store.get("b", 4), None);
    assert_eq!(store.get("a", 5), Some("1".to_string()));
    assert_eq!(store.get("c", 6), Some("3".to_string()));
}

#[test]
fn test_capacity_bound_many_inserts() {
    // Five distinct keys through a store of capacity 2: exactly the two most
    // recently set keys survive.
    let mut store = CacheStore::new(2, 60);
    for (i, key) in ["k1", "k2", "k3", "k4", "k5"].iter().enumerate() {
        store.set(key.to_string(), format!("{}", i + 1), CacheItemTTL::Permanent, i as u64);
    }
    assert_eq!(store.get("k1", 10), None);
    assert_eq!(store.get("k2", 11), None);
    assert_eq!(store.get("k3", 12), None);
    assert_eq!(store.get("k4", 13), Some("4".to_string()));
    assert_eq!(store.get("k5", 14), Some("5".to_string()));
}

#[test]
fn test_overwrite_keeps_single_entry() {
    let mut store = CacheStore::new(2, 60);
    store.set("a".to_string(), "1".to_string(), CacheItemTTL::Permanent, 0);
    store.set("a".to_string(), "2".to_string(), CacheItemTTL::Permanent, 1);
    store.set("b".to_string(), "3".to_string(), CacheItemTTL::Permanent, 2);
    // The overwrite did not consume capacity: both keys are resident.
    assert_eq!(store.get("a", 3), Some("2".to_string()));
    assert_eq!(store.get("b", 4), Some("3".to_string()));
}

#[test]
fn test_overwrite_changes_ttl() {
    let mut store = CacheStore::new(10, 60);
    store.set("k".to_string(), "v".to_string(), CacheItemTTL::Custom(2), 0);
    store.set("k".to_string(), "v".to_string(), CacheItemTTL::Permanent, 1);
    assert_eq!(store.get("k", 100), Some("v".to_string()));
}
