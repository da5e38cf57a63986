//! Expiration behaviour, driven through the `..._at` methods so that
//! no test has to sleep: the clock is an explicit argument.

use medusa::store::Store;

#[test]
fn set_with_ttl_then_ttl_reports_within_bound() {
    let mut store = Store::new();
    let now: u64 = 1_000_000;

    assert!(store.set_with_ttl_at("k", "v", 10, now).is_ok());
    assert_eq!(store.get_at("k", now).unwrap(), Some("v".to_string()));

    let ttl = store.ttl_at("k", now).unwrap().unwrap();
    assert!(1 <= ttl && ttl <= 10);

    // Part of a second gone: still reported rounded up.
    let ttl = store.ttl_at("k", now + 9_500).unwrap().unwrap();
    assert_eq!(ttl, 1);
}

#[test]
fn expired_key_reads_absent_and_is_lazily_removed() {
    let mut store = Store::new();
    let now: u64 = 1_000_000;

    assert!(store.set_with_ttl_at("k", "v", 1, now).is_ok());

    let later = now + 1_100;
    // First touch by ttl: present but expired, the reserved -1.
    assert_eq!(store.ttl_at("k", later).unwrap(), Some(-1));
    // The touch removed it: now truly absent.
    assert_eq!(store.ttl_at("k", later).unwrap(), None);
    assert_eq!(store.get_at("k", later).unwrap(), None);
}

#[test]
fn get_removes_expired_entry() {
    let mut store = Store::new();
    let now: u64 = 5_000;

    assert!(store.set_with_ttl_at("k", "v", 1, now).is_ok());
    assert_eq!(store.get_at("k", now + 2_000).unwrap(), None);
    // Once observed, the entry is gone for every operation.
    assert_eq!(store.ttl_at("k", now + 2_000).unwrap(), None);
    assert_eq!(store.count_at(now + 2_000).unwrap(), 0);
}

#[test]
fn expire_then_ttl_then_get_scenario() {
    let mut store = Store::new();
    let now: u64 = 42_000;

    assert!(store.set("a", "1").is_ok());
    assert_eq!(store.expire_at("a", 1, now).unwrap(), true);

    let t = store.ttl_at("a", now).unwrap().unwrap();
    assert!(0 < t && t <= 1);

    assert_eq!(store.get_at("a", now + 1_100).unwrap(), None);
}

#[test]
fn expire_on_absent_key_is_false() {
    let mut store = Store::new();
    assert_eq!(store.expire("missing", 10).unwrap(), false);
}

#[test]
fn zero_ttl_means_already_expired() {
    let mut store = Store::new();
    let now: u64 = 7_000;

    assert!(store.set_with_ttl_at("k", "v", 0, now).is_ok());
    assert_eq!(store.get_at("k", now).unwrap(), None);
}

#[test]
fn plain_set_never_expires() {
    let mut store = Store::new();

    assert!(store.set("k", "v").is_ok());
    assert_eq!(store.ttl("k").unwrap(), None);
    assert_eq!(store.get_at("k", u64::MAX).unwrap(), Some("v".to_string()));
}

#[test]
fn huge_ttl_saturates_instead_of_overflowing() {
    let mut store = Store::new();
    let now: u64 = 1;

    assert!(store.set_with_ttl_at("k", "v", u64::MAX, now).is_ok());
    assert_eq!(store.get_at("k", now).unwrap(), Some("v".to_string()));
    assert!(store.ttl_at("k", now).unwrap().unwrap() >= 1);
}

#[test]
fn sweep_removes_expired_entries_from_enumeration() {
    let mut store = Store::new();
    let now: u64 = 10_000;

    assert!(store.set_with_ttl_at("cleanup_key1", "value1", 1, now).is_ok());
    assert!(store.set_with_ttl_at("cleanup_key2", "value2", 1, now).is_ok());
    assert!(store.set("cleanup_key3", "value3").is_ok());

    assert_eq!(store.count_at(now).unwrap(), 3);

    let later = now + 1_100;
    assert_eq!(store.count_at(later).unwrap(), 1);

    let keys = store.list_keys_at(later).unwrap();
    assert_eq!(keys, vec!["cleanup_key3".to_string()]);
}

#[test]
fn expired_hash_and_list_keys_read_as_absent() {
    let mut store = Store::new();
    let now: u64 = 3_000;

    assert!(store.hset_at("temp_user", "name", "Alice", now).unwrap());
    assert!(store.hset_at("temp_user", "email", "alice@example.com", now).unwrap());
    assert_eq!(store.expire_at("temp_user", 1, now).unwrap(), true);

    assert!(store.hexists_at("temp_user", "name", now).unwrap());
    assert_eq!(store.hlen_at("temp_user", now).unwrap(), 2);

    let later = now + 1_100;
    assert!(!store.hexists_at("temp_user", "name", later).unwrap());
    assert_eq!(store.hlen_at("temp_user", later).unwrap(), 0);
    assert!(store.hgetall_at("temp_user", later).unwrap().is_empty());

    assert_eq!(store.lpush_at("temp_list", "item1", now).unwrap(), 1);
    assert_eq!(store.lpush_at("temp_list", "item2", now).unwrap(), 2);
    assert_eq!(store.expire_at("temp_list", 1, now).unwrap(), true);

    assert_eq!(store.llen_at("temp_list", later).unwrap(), 0);
    assert!(store.lrange_at("temp_list", 0, -1, later).unwrap().is_empty());
    assert_eq!(store.lpop_at("temp_list", later).unwrap(), None);
}

#[test]
fn write_to_expired_key_creates_a_fresh_container() {
    let mut store = Store::new();
    let now: u64 = 9_000;

    assert!(store.set_with_ttl_at("k", "old", 1, now).is_ok());
    let later = now + 5_000;

    // The expired string entry is replaced by a fresh hash.
    assert_eq!(store.hset_at("k", "f", "new", later).unwrap(), true);
    assert_eq!(store.hget_at("k", "f", later).unwrap(), Some("new".to_string()));
    // The fresh container has no expiration.
    assert_eq!(store.ttl_at("k", later).unwrap(), None);
}
