use medusa::model::ValueKind;
use medusa::store::{Store, StoreError};

#[test]
fn test_hash_operations() {
    let mut store = Store::new();

    // HSET and HGET
    assert!(store.hset("user:1", "name", "John").unwrap());
    assert!(!store.hset("user:1", "name", "Johnny").unwrap()); // Should return false for update
    assert!(store.hset("user:1", "age", "30").unwrap());

    assert_eq!(store.hget("user:1", "name").unwrap(), Some("Johnny".to_string()));
    assert_eq!(store.hget("user:1", "age").unwrap(), Some("30".to_string()));
    assert_eq!(store.hget("user:1", "nonexistent").unwrap(), None);
    assert_eq!(store.hget("nonexistent", "field").unwrap(), None);

    // HGETALL
    let all_fields = store.hgetall("user:1").unwrap();
    assert_eq!(all_fields.len(), 2);
    assert_eq!(all_fields.get("name"), Some(&"Johnny".to_string()));
    assert_eq!(all_fields.get("age"), Some(&"30".to_string()));

    let empty_hash = store.hgetall("nonexistent").unwrap();
    assert!(empty_hash.is_empty());

    // HEXISTS
    assert!(store.hexists("user:1", "name").unwrap());
    assert!(store.hexists("user:1", "age").unwrap());
    assert!(!store.hexists("user:1", "nonexistent").unwrap());
    assert!(!store.hexists("nonexistent", "field").unwrap());

    // HLEN
    assert_eq!(store.hlen("user:1").unwrap(), 2);
    assert_eq!(store.hlen("nonexistent").unwrap(), 0);

    // HDEL
    assert!(store.hdel("user:1", "age").unwrap());
    assert!(!store.hdel("user:1", "age").unwrap()); // Should return false for non-existent field
    assert!(!store.hdel("nonexistent", "field").unwrap());

    assert_eq!(store.hlen("user:1").unwrap(), 1);
    assert!(!store.hexists("user:1", "age").unwrap());
    assert!(store.hexists("user:1", "name").unwrap());
}

#[test]
fn test_list_operations() {
    let mut store = Store::new();

    // LPUSH and RPUSH
    assert_eq!(store.lpush("mylist", "first").unwrap(), 1);
    assert_eq!(store.rpush("mylist", "last").unwrap(), 2);
    assert_eq!(store.lpush("mylist", "very_first").unwrap(), 3);

    // LLEN
    assert_eq!(store.llen("mylist").unwrap(), 3);
    assert_eq!(store.llen("nonexistent").unwrap(), 0);

    // LRANGE
    let full_range = store.lrange("mylist", 0, -1).unwrap();
    assert_eq!(full_range, vec!["very_first", "first", "last"]);

    let partial_range = store.lrange("mylist", 0, 1).unwrap();
    assert_eq!(partial_range, vec!["very_first", "first"]);

    let negative_range = store.lrange("mylist", -2, -1).unwrap();
    assert_eq!(negative_range, vec!["first", "last"]);

    let empty_range = store.lrange("nonexistent", 0, -1).unwrap();
    assert!(empty_range.is_empty());

    // LPOP and RPOP
    assert_eq!(store.lpop("mylist").unwrap(), Some("very_first".to_string()));
    assert_eq!(store.llen("mylist").unwrap(), 2);

    assert_eq!(store.rpop("mylist").unwrap(), Some("last".to_string()));
    assert_eq!(store.llen("mylist").unwrap(), 1);

    assert_eq!(store.lpop("mylist").unwrap(), Some("first".to_string()));
    assert_eq!(store.llen("mylist").unwrap(), 0);

    // Operations on an empty list
    assert_eq!(store.lpop("mylist").unwrap(), None);
    assert_eq!(store.rpop("mylist").unwrap(), None);
    assert_eq!(store.lpop("nonexistent").unwrap(), None);
    assert_eq!(store.rpop("nonexistent").unwrap(), None);
}

#[test]
fn test_keys_pattern_matching() {
    let mut store = Store::new();

    assert!(store.set("user:1", "john").is_ok());
    assert!(store.set("user:2", "jane").is_ok());
    assert!(store.set("product:1", "laptop").is_ok());
    assert!(store.set("product:2", "mouse").is_ok());
    assert!(store.set("config:debug", "true").is_ok());

    let user_keys = store.keys("user:*").unwrap();
    assert_eq!(user_keys.len(), 2);
    assert!(user_keys.contains(&"user:1".to_string()));
    assert!(user_keys.contains(&"user:2".to_string()));

    let product_keys = store.keys("product:*").unwrap();
    assert_eq!(product_keys.len(), 2);
    assert!(product_keys.contains(&"product:1".to_string()));
    assert!(product_keys.contains(&"product:2".to_string()));

    let config_keys = store.keys("config:*").unwrap();
    assert_eq!(config_keys.len(), 1);
    assert!(config_keys.contains(&"config:debug".to_string()));

    let all_keys = store.keys("*").unwrap();
    assert_eq!(all_keys.len(), 5);

    let no_keys = store.keys("nonexistent:*").unwrap();
    assert!(no_keys.is_empty());
}

#[test]
fn test_info_command() {
    let mut store = Store::new();

    assert!(store.set("key1", "value1").is_ok());
    assert!(store.hset("hash1", "field1", "value1").unwrap());
    assert_eq!(store.lpush("list1", "item1").unwrap(), 1);

    let info = store.info().unwrap();
    assert!(info.contains("medusa_version:0.1.0"));
    assert!(info.contains("total_keys:3"));
    assert!(info.contains("# Server"));
    assert!(info.contains("# Memory"));
    assert!(info.contains("# Stats"));
}

#[test]
fn test_type_conversion() {
    // A key keeps the variant it was created with: writes from another
    // family are rejected instead of silently converting the value.
    let mut store = Store::new();

    assert!(store.set("convertible", "original").is_ok());
    assert_eq!(store.get("convertible").unwrap(), Some("original".to_string()));

    assert!(store.hset("convertible", "field", "value").is_err());
    assert_eq!(store.get("convertible").unwrap(), Some("original".to_string()));
    assert_eq!(store.hget("convertible", "field"), Err(StoreError::TypeMismatch {
        key: "convertible".to_string(),
        found: ValueKind::Str,
    }));

    assert!(store.set("convertible2", "original").is_ok());

    assert!(store.lpush("convertible2", "item").is_err());
    assert_eq!(store.llen("convertible2"), Err(StoreError::TypeMismatch {
        key: "convertible2".to_string(),
        found: ValueKind::Str,
    }));
    assert_eq!(store.get("convertible2").unwrap(), Some("original".to_string()));
}

#[test]
fn hset_twice_then_hget_scenario() {
    let mut store = Store::new();

    assert_eq!(store.hset("h", "f", "1").unwrap(), true);
    assert_eq!(store.hset("h", "f", "2").unwrap(), false);
    assert_eq!(store.hget("h", "f").unwrap(), Some("2".to_string()));
}

#[test]
fn keys_prefix_scenario() {
    let mut store = Store::new();

    assert!(store.set("user:1", "a").is_ok());
    assert!(store.set("user:2", "b").is_ok());
    assert!(store.set("product:1", "c").is_ok());

    let mut got = store.keys("user:*").unwrap();
    got.sort();
    assert_eq!(got, vec!["user:1".to_string(), "user:2".to_string()]);
}

#[test]
fn pattern_checks_suffix_and_exact_names() {
    let mut store = Store::new();

    assert!(store.set("order:1:open", "x").is_ok());
    assert!(store.set("order:2:done", "y").is_ok());
    assert!(store.set("order", "z").is_ok());

    // One wildcard in the middle: prefix and suffix must both match.
    let open = store.keys("order:*:open").unwrap();
    assert_eq!(open, vec!["order:1:open".to_string()]);

    // No wildcard: exact equality only.
    let exact = store.keys("order").unwrap();
    assert_eq!(exact, vec!["order".to_string()]);

    // Prefix and suffix may overlap on a short key.
    let mut store2 = Store::new();
    assert!(store2.set("ab", "v").is_ok());
    let overlap = store2.keys("ab*ab").unwrap();
    assert_eq!(overlap, vec!["ab".to_string()]);
}

#[test]
fn type_isolation_from_hash_and_list() {
    let mut store = Store::new();

    assert!(store.hset("h", "f", "1").unwrap());
    assert!(matches!(
        store.get("h"),
        Err(StoreError::TypeMismatch { found: ValueKind::Hash, .. })
    ));
    assert!(matches!(
        store.lpush("h", "x"),
        Err(StoreError::TypeMismatch { found: ValueKind::Hash, .. })
    ));

    assert_eq!(store.rpush("l", "x").unwrap(), 1);
    assert!(matches!(
        store.get("l"),
        Err(StoreError::TypeMismatch { found: ValueKind::List, .. })
    ));
    assert!(matches!(
        store.hset("l", "f", "1"),
        Err(StoreError::TypeMismatch { found: ValueKind::List, .. })
    ));
}

#[test]
fn lrange_clamps_out_of_range_indices() {
    let mut store = Store::new();

    assert_eq!(store.rpush("l", "a").unwrap(), 1);
    assert_eq!(store.rpush("l", "b").unwrap(), 2);
    assert_eq!(store.rpush("l", "c").unwrap(), 3);

    assert_eq!(store.lrange("l", -100, 100).unwrap(), vec!["a", "b", "c"]);
    assert_eq!(store.lrange("l", 2, 1).unwrap(), Vec::<String>::new());
    assert_eq!(store.lrange("l", 3, 5).unwrap(), Vec::<String>::new());
    assert_eq!(store.lrange("l", -1, -1).unwrap(), vec!["c"]);
}

#[test]
fn info_exact_for_empty_store() {
    let mut store = Store::new();

    let info = store.info().unwrap();
    assert_eq!(
        info,
        "# Server\nmedusa_version:0.1.0\nuptime_in_seconds:unknown\n\n\
         # Memory\nused_memory:0\ntotal_keys:0\n\n\
         # Stats\ntotal_connections_received:unknown\ntotal_commands_processed:unknown"
    );

    assert!(store.set("a", "1").is_ok());
    assert!(store.set("b", "2").is_ok());
    assert!(store.set("c", "3").is_ok());
    let info = store.info().unwrap();
    assert!(info.contains("used_memory:192"));
    assert!(info.contains("total_keys:3"));
}
