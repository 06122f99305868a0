use xtrader::cache::lockfree_cache::{LockFreeBalanceCache, LockFreeCache, NUMAOptimizedCache};
use xtrader::cache::write_behind_cache::{balance_of_answer, BalanceCache, CacheEntry, CacheError, WriteBehindCache};

#[test]
fn test_numa_optimized_cache() {
    let mut cache = NUMAOptimizedCache::new(4);

    cache.set("key1", 100);
    cache.set("key2", 200);

    assert_eq!(cache.get("key1"), Some(100));
    assert_eq!(cache.get("key2"), Some(200));

    let new_value = cache.add("key1", 50);
    assert_eq!(new_value, 150);
}

#[test]
fn test_lockfree_cache_basic() {
    let mut cache = LockFreeCache::new();

    cache.set("test_key", 42);

    let value = cache.get("test_key");
    assert_eq!(value, Some(42));

    let new_value = cache.add("test_key", 8);
    assert_eq!(new_value, 50);

    let remaining = cache.subtract("test_key", 10);
    assert_eq!(remaining, Some(40));
}

#[test]
fn test_lockfree_balance_cache() {
    let mut balance_cache = LockFreeBalanceCache::new();

    balance_cache.set_balance("user1", "KRW", 1000000);

    let balance = balance_cache.get_balance("user1", "KRW");
    assert_eq!(balance, Some(1000000));

    let new_balance = balance_cache.add_balance("user1", "KRW", 500000);
    assert_eq!(new_balance, 1500000);

    let remaining = balance_cache.subtract_balance("user1", "KRW", 200000);
    assert_eq!(remaining, Some(1300000));
}

#[test]
fn test_concurrent_access() {
    let mut cache = LockFreeCache::new();
    for i in 0..10 {
        for j in 0..100u64 {
            let key = format!("key_{}", i);
            cache.add(&key, j);
        }
    }
    for i in 0..10 {
        let key = format!("key_{}", i);
        let value = cache.get(&key).unwrap_or(0);
        assert_eq!(value, 4950);
    }
}

#[test]
fn lockfree_get_counts_hits_and_misses() {
    let mut cache = LockFreeCache::new();
    assert_eq!(cache.get("absent"), None);
    cache.add("present", 1);
    assert_eq!(cache.get("present"), Some(1));
    let m = cache.get_metrics();
    assert_eq!(m.reads, 2);
    assert_eq!(m.cache_hits, 1);
    assert_eq!(m.cache_misses, 1);
    assert_eq!(m.writes, 1);
}

#[test]
fn lockfree_subtract_refuses_overdraft_and_missing_key() {
    let mut cache = LockFreeCache::new();
    assert_eq!(cache.subtract("nobody", 1), None);
    cache.add("a", 5);
    assert_eq!(cache.subtract("a", 6), None);
    assert_eq!(cache.get("a"), Some(5));
    assert_eq!(cache.subtract("a", 5), Some(0));
}

#[test]
fn lockfree_compare_and_swap() {
    let mut cache = LockFreeCache::new();
    // a new key is kept as 0 first
    assert_eq!(cache.compare_and_swap("k", 1, 9), Err(0));
    assert_eq!(cache.get("k"), Some(0));
    assert_eq!(cache.compare_and_swap("k", 0, 9), Ok(9));
    assert_eq!(cache.get("k"), Some(9));
}

#[test]
fn lockfree_sets_are_seen_in_order() {
    let mut cache = LockFreeCache::new();
    cache.set("k", 1);
    assert_eq!(cache.get("k"), Some(1));
    cache.set("k", 2);
    assert_eq!(cache.get("k"), Some(2));
    assert_eq!(cache.get_cache_status().queue_size, 0);
    assert_eq!(cache.get_cache_status().entry_count, 1);
}

#[test]
fn test_write_behind_cache_basic() {
    let mut cache = WriteBehindCache::new(10, 1000);
    cache.set("test_key", serde_json::Value::from(42u64), 0);
    let value = cache.get_l1("test_key", 5);
    assert_eq!(value, Some(serde_json::Value::from(42u64)));
    assert!(cache.get_metrics().l1_hits > 0);
}

#[test]
fn write_behind_entry_expires_after_its_lifetime() {
    let mut cache = WriteBehindCache::new(10, 1000);
    cache.set("k", serde_json::Value::from(1u64), 100);
    assert!(cache.get_l1("k", 1100).is_some());
    assert_eq!(cache.get_l1("k", 1101), None);
    assert_eq!(cache.get_cache_status().l1_size, 0);
    assert_eq!(cache.get_metrics().l1_misses, 1);
}

#[test]
fn write_behind_slower_levels_fill_the_first() {
    let mut cache = WriteBehindCache::new(10, 1000).with_l2_cache();
    assert_eq!(cache.get_l1("k", 0), None);
    assert_eq!(cache.take_l2_result("k", None, 0), None);
    let found = cache.take_l3_result("k", Some(serde_json::Value::from(7u64)), 0);
    assert_eq!(found, Some(serde_json::Value::from(7u64)));
    assert_eq!(cache.get_l1("k", 10), Some(serde_json::Value::from(7u64)));
    let m = cache.get_metrics();
    assert_eq!((m.l1_misses, m.l2_misses, m.l3_hits, m.l1_hits), (1, 1, 1, 1));
    assert!(cache.get_cache_status().l2_enabled);
}

#[test]
fn write_behind_dirty_keys_are_written_through_once() {
    let mut cache = WriteBehindCache::new(10, 1000);
    cache.set("a", serde_json::Value::from(1u64), 0);
    cache.set("b", serde_json::Value::from(2u64), 0);
    cache.set("a", serde_json::Value::from(3u64), 0);
    assert_eq!(cache.get_cache_status().dirty_count, 2);
    let dirty = cache.take_dirty_entries();
    assert_eq!(dirty.len(), 2);
    assert!(dirty.iter().any(|(k, v)| k == "a" && *v == serde_json::Value::from(3u64)));
    assert_eq!(cache.get_cache_status().dirty_count, 0);
    assert!(cache.take_dirty_entries().is_empty());
    cache.record_sync_result(true);
    cache.record_sync_result(false);
    assert_eq!(cache.get_metrics().sync_operations, 1);
    assert_eq!(cache.get_metrics().sync_errors, 1);
}

#[test]
fn write_behind_cleanup_and_invalidate() {
    let mut cache = WriteBehindCache::new(10, 100);
    cache.set("old", serde_json::Value::from(1u64), 0);
    cache.set("new", serde_json::Value::from(2u64), 150);
    cache.cleanup_expired_entries(200);
    assert_eq!(cache.get_cache_status().l1_size, 1);
    cache.invalidate("new");
    assert_eq!(cache.get_cache_status().l1_size, 0);
    cache.forget_dirty("old");
    assert_eq!(cache.get_cache_status().dirty_count, 1);
}

#[test]
fn cache_entry_versions() {
    let mut e = CacheEntry::new(serde_json::Value::from(1u64), 50, 10);
    assert_eq!(e.version, 0);
    assert!(!e.is_expired(60));
    assert!(e.is_expired(61));
    e.update(serde_json::Value::from(2u64), 70);
    assert_eq!(e.version, 1);
    assert_eq!(e.timestamp, 70);
}

#[test]
fn cache_error_messages() {
    assert_eq!(CacheError::KeyNotFound("k".to_string()).to_string(), "캐시 키를 찾을 수 없음: k");
    assert_eq!(CacheError::Expired("k".to_string()).to_string(), "캐시 만료됨: k");
    assert_eq!(CacheError::LayerError("x".to_string()).to_string(), "캐시 레이어 오류: x");
    assert_eq!(CacheError::SerializationError("x".to_string()).to_string(), "직렬화 오류: x");
}

#[test]
fn test_balance_cache() {
    let mut balance_cache = BalanceCache::new();
    let key = BalanceCache::balance_key("user1", "KRW");
    assert_eq!(key, "balance:user1:KRW");

    balance_cache.update_balance("user1", "KRW", 1000000, 0);
    let balance = balance_cache.get_balance("user1", "KRW", 1).unwrap().unwrap();
    assert_eq!(balance, Some(1000000));

    let new_balance = BalanceCache::add_balance(balance, 500000);
    assert_eq!(new_balance, 1500000);
    balance_cache.update_balance("user1", "KRW", new_balance, 2);
    let current = balance_cache.get_balance("user1", "KRW", 3).unwrap().unwrap();
    let remaining = BalanceCache::subtract_balance(current, 200000);
    assert_eq!(remaining, Some(1300000));
    assert_eq!(BalanceCache::subtract_balance(None, 1), None);
    assert_eq!(BalanceCache::add_balance(None, 3), 3);
}

#[test]
fn delete_keeps_the_key_dirty_when_the_backing_level_fails() {
    let mut cache = WriteBehindCache::new(10, 1000);
    cache.set("k", serde_json::Value::from(1u64), 0);
    let e = cache.delete("k", Err(CacheError::LayerError("down".to_string())));
    assert!(e.is_err());
    assert_eq!(cache.get_l1("k", 1), None);
    assert_eq!(cache.get_cache_status().dirty_count, 1);
    cache.set("k", serde_json::Value::from(2u64), 2);
    assert!(cache.delete("k", Ok(())).is_ok());
    assert_eq!(cache.get_cache_status().dirty_count, 0);
}

#[test]
fn update_balance_writes_the_number() {
    let mut balances = BalanceCache::new();
    balances.update_balance("u1", "KRW", 5000, 0);
    let key = BalanceCache::balance_key("u1", "KRW");
    assert_eq!(balances.cache_mut().get_l1(&key, 1), Some(serde_json::Value::from(5000u64)));
    balances.update_balance("u1", "KRW", 7000, 2);
    assert_eq!(balances.cache_mut().get_l1(&key, 3), Some(serde_json::Value::from(7000u64)));
}

#[test]
fn lockfree_set_leaves_no_queued_write() {
    let mut cache = LockFreeCache::new();
    cache.set("k", 7);
    cache.set("k", 9);
    assert_eq!(cache.get_cache_status().queue_size, 0);
    assert!(!cache.process_next_write());
    assert_eq!(cache.get("k"), Some(9));
}

#[test]
fn balance_read_answers_and_misses() {
    let mut balances = BalanceCache::new();
    assert!(balances.get_balance("nobody", "KRW", 0).is_none());
    assert!(matches!(balance_of_answer(None), Ok(None)));
    assert!(matches!(balance_of_answer(Some(serde_json::Value::from(7u64))), Ok(Some(7))));
    assert!(matches!(
        balance_of_answer(Some(serde_json::Value::from("seven"))),
        Err(CacheError::SerializationError(_))
    ));
}
