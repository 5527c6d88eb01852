use forge::lru_cache::LruCache;

#[test]
fn test_capacity_overflow_evicts_exactly_the_oldest() {
    let mut cache: LruCache<u64, u64> = LruCache::new(2);
    cache.insert(1, 10);
    cache.insert(2, 20);
    cache.insert(3, 30);
    assert_eq!(cache.len(), 2);
    assert_eq!(cache.get(&1), None);
    assert_eq!(cache.get(&2), Some(20));
    assert_eq!(cache.get(&3), Some(30));
}

#[test]
fn test_reaccess_resets_recency() {
    let mut cache: LruCache<u64, u64> = LruCache::new(2);
    cache.insert(1, 10);
    cache.insert(2, 20);
    assert_eq!(cache.get(&1), Some(10));
    cache.insert(3, 30);
    assert_eq!(cache.get(&2), None);
    assert_eq!(cache.get(&1), Some(10));
    assert_eq!(cache.get(&3), Some(30));
}

#[test]
fn test_touch_resets_recency() {
    let mut cache: LruCache<u64, u64> = LruCache::new(2);
    cache.insert(1, 10);
    cache.insert(2, 20);
    cache.touch(&1);
    cache.insert(3, 30);
    assert_eq!(cache.get(&2), None);
    assert_eq!(cache.get(&1), Some(10));
}

#[test]
fn test_capacity_zero_never_retains() {
    let mut cache: LruCache<u64, u64> = LruCache::new(0);
    cache.insert(1, 10);
    cache.insert(2, 20);
    assert_eq!(cache.len(), 0);
    assert_eq!(cache.get(&1), None);
    assert_eq!(cache.get(&2), None);
}

#[test]
fn test_insert_existing_key_updates_value() {
    let mut cache: LruCache<u64, u64> = LruCache::new(2);
    cache.insert(1, 10);
    cache.insert(1, 11);
    assert_eq!(cache.len(), 1);
    assert_eq!(cache.get(&1), Some(11));
}

#[test]
fn test_string_keys() {
    let mut cache: LruCache<String, String> = LruCache::new(2);
    cache.insert("SELECT 1".to_string(), "plan-1".to_string());
    cache.insert("SELECT 2".to_string(), "plan-2".to_string());
    cache.insert("SELECT 3".to_string(), "plan-3".to_string());
    assert_eq!(cache.get(&"SELECT 1".to_string()), None);
    assert_eq!(
        cache.get(&"SELECT 2".to_string()),
        Some("plan-2".to_string())
    );
    assert_eq!(
        cache.get(&"SELECT 3".to_string()),
        Some("plan-3".to_string())
    );
}

#[test]
fn test_get_or_fetch_computes_only_on_miss() {
    let mut cache: LruCache<u64, u64> = LruCache::new(2);
    let mut computed = 0u32;
    let first: Result<u64, ()> = cache.get_or_fetch(5, |k| {
        computed += 1;
        Ok(k * 10)
    });
    assert_eq!(first, Ok(50));
    assert_eq!(computed, 1);

    let second: Result<u64, ()> = cache.get_or_fetch(5, |k| {
        computed += 1;
        Ok(k * 10)
    });
    assert_eq!(second, Ok(50));
    assert_eq!(computed, 1);
}

#[test]
fn test_get_or_fetch_failure_inserts_nothing() {
    let mut cache: LruCache<u64, u64> = LruCache::new(2);
    let outcome: Result<u64, &str> = cache.get_or_fetch(5, |_| Err("no plan"));
    assert_eq!(outcome, Err("no plan"));
    assert_eq!(cache.len(), 0);
    assert_eq!(cache.get(&5), None);
}

#[test]
fn test_get_or_fetch_with_capacity_zero_recomputes() {
    let mut cache: LruCache<u64, u64> = LruCache::new(0);
    let mut computed = 0u32;
    for _ in 0..3 {
        let got: Result<u64, ()> = cache.get_or_fetch(5, |_| {
            computed += 1;
            Ok(1)
        });
        assert_eq!(got, Ok(1));
    }
    assert_eq!(computed, 3);
    assert_eq!(cache.len(), 0);
}
