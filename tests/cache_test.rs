use omnisearch_core::cache::{CacheError, CacheManager, MemoryCache};
use omnisearch_core::config::{CacheConfig, CacheType, RedisConfig};
use omnisearch_core::types::SearchResult;

fn config(enabled: bool, cache_type: CacheType) -> CacheConfig {
    CacheConfig {
        enabled,
        cache_type,
        ttl_seconds: 60,
        max_entries: 100,
        redis: RedisConfig { url: String::new(), pool_size: 1 },
    }
}

fn create_test_results() -> Vec<SearchResult> {
    vec![
        SearchResult {
            title: "Test Result 1".to_string(),
            url: "https://example1.com".to_string(),
            snippet: "This is a test result 1".to_string(),
            source_provider: "test".to_string(),
            score: Some(950_000),
        },
        SearchResult {
            title: "Test Result 2".to_string(),
            url: "https://example2.com".to_string(),
            snippet: "This is a test result 2".to_string(),
            source_provider: "test".to_string(),
            score: Some(900_000),
        },
    ]
}

#[test]
fn test_memory_cache_operations() {
    let mut cache = MemoryCache::new(&config(true, CacheType::Memory));
    let test_results = create_test_results();

    cache.set("test_key", test_results.clone(), 60);
    let retrieved = cache.get("test_key");
    assert!(retrieved.is_some());
    assert_eq!(retrieved.unwrap().len(), 2);

    let _size = cache.size();

    cache.delete("test_key");
    assert!(cache.get("test_key").is_none());

    cache.set("key1", test_results.clone(), 60);
    cache.set("key2", test_results.clone(), 60);
    cache.clear();
    assert!(cache.get("key1").is_none());
    assert!(cache.get("key2").is_none());
}

#[test]
fn test_cache_key_generation() {
    let key1 = CacheManager::generate_cache_key("google", "rust programming", Some(10));
    assert_eq!(key1, "google:rust programming:10");

    let key2 = CacheManager::generate_cache_key("duckduckgo", "web search", None);
    assert_eq!(key2, "duckduckgo:web search:10");
}

#[test]
fn test_cache_performance_and_consistency() {
    let mut cache = MemoryCache::new(&config(true, CacheType::Memory));
    let test_data = vec![SearchResult {
        title: "Performance Test".to_string(),
        url: "https://example.com/perf".to_string(),
        snippet: "Performance testing data".to_string(),
        score: Some(800_000),
        source_provider: "test".to_string(),
    }];
    for i in 0..10 {
        let key = format!("perf_test_{}", i);
        cache.set(&key, test_data.clone(), 60);
        let result = cache.get(&key);
        assert!(result.is_some());
        let retrieved = result.unwrap();
        assert_eq!(retrieved[0].title, "Performance Test");
        assert_eq!(retrieved[0].url, "https://example.com/perf");
    }
}

#[test]
fn cache_round_trip_through_manager() {
    let mut cache = CacheManager::new(&config(true, CacheType::Memory)).unwrap();
    let v = create_test_results();
    cache.set("k", v.clone(), 60).unwrap();
    let got = cache.get("k").unwrap().unwrap();
    assert_eq!(got.len(), 2);
    assert_eq!(got[1].title, "Test Result 2");
    cache.delete("k").unwrap();
    assert!(cache.get("k").unwrap().is_none());
}

#[test]
fn cache_clear_empties_store() {
    let mut cache = CacheManager::new(&config(true, CacheType::Memory)).unwrap();
    for i in 0..5 {
        cache.set(&format!("k{}", i), create_test_results(), 60).unwrap();
    }
    cache.clear().unwrap();
    for i in 0..5 {
        assert!(cache.get(&format!("k{}", i)).unwrap().is_none());
    }
    cache.clear().unwrap();
    assert!(cache.get("k0").unwrap().is_none());
}

#[test]
fn disabled_cache_always_misses() {
    let mut cache = CacheManager::new(&config(false, CacheType::Memory)).unwrap();
    cache.set("k", create_test_results(), 60).unwrap();
    assert!(cache.get("k").unwrap().is_none());
    assert_eq!(cache.size().unwrap(), 0);
}

#[test]
fn remote_backend_is_refused() {
    assert_eq!(CacheManager::new(&config(true, CacheType::Redis)).err(), Some(CacheError::Unavailable));
    assert!(CacheManager::new(&config(false, CacheType::Redis)).is_ok());
}

#[test]
fn cache_key_uses_decimal_limit() {
    assert_eq!(CacheManager::generate_cache_key("exa", "q", Some(0)), "exa:q:0");
    assert_eq!(CacheManager::generate_cache_key("exa", "q", Some(12345)), "exa:q:12345");
    assert_eq!(CacheManager::generate_cache_key("Exa", "a:b", Some(7)), "Exa:a:b:7");
}

#[test]
fn overlong_ttl_is_refused() {
    let mut c = config(true, CacheType::Memory);
    c.ttl_seconds = 31_536_000_001;
    assert_eq!(CacheManager::new(&c).err(), Some(CacheError::TtlTooLong));
    c.ttl_seconds = 31_536_000_000;
    assert!(CacheManager::new(&c).is_ok());
}

#[test]
fn set_overwrites_and_delete_keeps_others() {
    let mut cache = CacheManager::new(&config(true, CacheType::Memory)).unwrap();
    cache.set("a", create_test_results(), 60).unwrap();
    cache.set("b", create_test_results(), 60).unwrap();
    cache.set("a", vec![], 60).unwrap();
    assert_eq!(cache.get("a").unwrap().unwrap().len(), 0);
    cache.delete("a").unwrap();
    cache.delete("missing").unwrap();
    assert!(cache.get("a").unwrap().is_none());
    assert_eq!(cache.get("b").unwrap().unwrap().len(), 2);
}
