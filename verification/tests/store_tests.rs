use medusa::store::{Store, Value, ValueWithTtl};

#[test]
fn test_basic_set_get() {
    let mut store = Store::new();

    assert!(store.set("key1", "value1").is_ok());

    let result = store.get("key1").unwrap();
    assert_eq!(result, Some("value1".to_string()));

    let result = store.get("nonexistent").unwrap();
    assert_eq!(result, None);
}

#[test]
fn test_delete_functionality() {
    let mut store = Store::new();

    assert!(store.set("delete_key", "delete_value").is_ok());

    let result = store.delete("delete_key").unwrap();
    assert_eq!(result, Some("delete_value".to_string()));

    let result = store.get("delete_key").unwrap();
    assert_eq!(result, None);

    let result = store.delete("nonexistent").unwrap();
    assert_eq!(result, None);
}

#[test]
fn test_exists_functionality() {
    let mut store = Store::new();

    assert!(store.set("exists_key", "exists_value").is_ok());

    let result = store.key_exists("exists_key").unwrap();
    assert_eq!(result, true);

    let result = store.key_exists("nonexistent").unwrap();
    assert_eq!(result, false);
}

#[test]
fn test_list_keys_functionality() {
    let mut store = Store::new();

    assert!(store.set("key1", "value1").is_ok());
    assert!(store.set("key2", "value2").is_ok());
    assert!(store.set("key3", "value3").is_ok());

    let keys = store.list_keys().unwrap();
    assert_eq!(keys.len(), 3);
    assert!(keys.contains(&"key1".to_string()));
    assert!(keys.contains(&"key2".to_string()));
    assert!(keys.contains(&"key3".to_string()));
}

#[test]
fn test_count_functionality() {
    let mut store = Store::new();

    let count = store.count().unwrap();
    assert_eq!(count, 0);

    assert!(store.set("count_key1", "value1").is_ok());
    assert!(store.set("count_key2", "value2").is_ok());

    let count = store.count().unwrap();
    assert_eq!(count, 2);

    assert!(store.delete("count_key1").is_ok());

    let count = store.count().unwrap();
    assert_eq!(count, 1);
}

#[test]
fn test_value_with_ttl_creation() {
    let value = Value::new("test".to_string());
    let value_with_ttl = ValueWithTtl::new(value);

    assert!(!value_with_ttl.is_expired());
    assert!(value_with_ttl.ttl_seconds().is_none());

    let value = Value::new("test".to_string());
    let value_with_ttl = ValueWithTtl::with_ttl(value, 5);

    assert!(!value_with_ttl.is_expired());
    let ttl = value_with_ttl.ttl_seconds().unwrap();
    assert!(ttl > 0 && ttl <= 5);
}

#[test]
fn delete_is_idempotent() {
    let mut store = Store::new();

    assert!(store.set("once", "only").is_ok());
    assert_eq!(store.delete("once").unwrap(), Some("only".to_string()));
    assert_eq!(store.delete("once").unwrap(), None);
}

#[test]
fn delete_reports_marker_for_non_string() {
    let mut store = Store::new();

    assert!(store.hset("h", "f", "1").unwrap());
    assert_eq!(store.delete("h").unwrap(), Some("(non-string)".to_string()));

    assert_eq!(store.rpush("l", "x").unwrap(), 1);
    assert_eq!(store.delete("l").unwrap(), Some("(non-string)".to_string()));
}

#[test]
fn sequential_disjoint_writers_keep_their_values() {
    let mut store = Store::new();
    let n = 10;

    for i in 0..n {
        let key = format!("concurrent_key_{}", i);
        let value = format!("value_{}", i);
        assert!(store.set(&key, &value).is_ok());
    }
    for i in 0..n {
        let key = format!("concurrent_key_{}", i);
        let value = format!("value_{}", i);
        assert_eq!(store.get(&key).unwrap(), Some(value));
    }
    assert_eq!(store.count().unwrap(), n);
}

#[test]
fn clear_removes_everything() {
    let mut store = Store::new();

    assert!(store.set("a", "1").is_ok());
    assert!(store.hset("h", "f", "1").unwrap());
    assert_eq!(store.lpush("l", "x").unwrap(), 1);
    assert_eq!(store.count().unwrap(), 3);

    assert!(store.clear().is_ok());
    assert_eq!(store.count().unwrap(), 0);
    assert_eq!(store.get("a").unwrap(), None);

    assert!(store.set("b", "2").is_ok());
    assert!(store.flush_all().is_ok());
    assert_eq!(store.count().unwrap(), 0);
}
