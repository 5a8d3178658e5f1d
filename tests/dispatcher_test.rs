use std::cell::RefCell;
use omnisearch_core::cache::CacheManager;
use omnisearch_core::circuit_breaker::CircuitBreakerManager;
use omnisearch_core::client::{OmnisearchClient, SearchRequest, SearchResponse};
use omnisearch_core::config::{CacheConfig, CacheType, CircuitBreakerConfig, ProvidersConfig, RateLimitingConfig, RedisConfig};
use omnisearch_core::dispatcher::{Dispatcher, Progress};
use omnisearch_core::rate_limiter::RateLimiterManager;
use omnisearch_core::types::{ErrorType, ProviderError, SearchResult};

fn dispatcher(names: &[&str]) -> Dispatcher {
    let list = names.iter().map(|n| (n.to_string(), String::new())).collect();
    let cache = CacheConfig {
        enabled: true,
        cache_type: CacheType::Memory,
        ttl_seconds: 600,
        max_entries: 100,
        redis: RedisConfig { url: String::new(), pool_size: 1 },
    };
    let limits = RateLimitingConfig { enabled: true, requests_per_minute: 60, burst_size: 10 };
    let breakers = CircuitBreakerConfig { enabled: true, failure_threshold: 1, timeout_seconds: 60, half_open_max_calls: 1 };
    Dispatcher {
        registry: OmnisearchClient::new(list).unwrap(),
        cache: CacheManager::new(&cache).unwrap(),
        limiter: RateLimiterManager::new(&limits, ProvidersConfig::default()).unwrap(),
        breakers: CircuitBreakerManager::new(&breakers).unwrap(),
        cache_ttl_seconds: 600,
    }
}

fn hit(provider: &str) -> SearchResult {
    SearchResult {
        title: format!("from {}", provider),
        url: "https://example.com".to_string(),
        snippet: String::new(),
        score: None,
        source_provider: provider.to_string(),
    }
}

/// Runs a search in which the providers named in `working` succeed and the
/// others fail; returns the answer and the providers invoked.
fn run(disp: &mut Dispatcher, query: &str, working: &[&str]) -> (Result<SearchResponse, ProviderError>, Vec<String>) {
    let mut invoked = Vec::new();
    let mut d = disp.start(SearchRequest::new(query)).unwrap();
    loop {
        match disp.advance(d, 0) {
            Progress::Done(r) => return (r, invoked),
            Progress::Skipped(next) => d = next,
            Progress::Invoke(cur, p) => {
                invoked.push(p.clone());
                let outcome = if working.contains(&p.as_str()) {
                    Ok(vec![hit(&p)])
                } else {
                    Err(ProviderError::new(ErrorType::ProviderError, format!("{} down", p), p.clone()))
                };
                match disp.complete(cur, outcome, 0) {
                    Progress::Done(r) => return (r, invoked),
                    Progress::Skipped(next) => d = next,
                    Progress::Invoke(..) => unreachable!(),
                }
            }
        }
    }
}

#[test]
fn dispatch_falls_back_and_caches_the_winner() {
    let mut disp = dispatcher(&["tavily", "google", "duckduckgo"]);
    let (r, invoked) = run(&mut disp, "rust", &["duckduckgo"]);
    let resp = r.unwrap();
    assert_eq!(invoked, vec!["tavily", "google", "duckduckgo"]);
    assert_eq!(resp.providers_used, vec!["duckduckgo".to_string()]);
    assert!(!resp.cache_hit);
    assert_eq!(resp.results[0].title, "from duckduckgo");

    let (r2, invoked2) = run(&mut disp, "rust", &["duckduckgo"]);
    let resp2 = r2.unwrap();
    assert!(invoked2.is_empty());
    assert!(resp2.cache_hit);
    assert_eq!(resp2.providers_used, vec!["duckduckgo".to_string()]);
}

#[test]
fn dispatch_exhaustion_caches_nothing() {
    let mut disp = dispatcher(&["tavily", "google"]);
    let (r, invoked) = run(&mut disp, "rust", &[]);
    let e = r.unwrap_err();
    assert_eq!(invoked, vec!["tavily", "google"]);
    assert_eq!(e.provider, "google");
    assert_eq!(e.message, "google down");
    for p in ["tavily", "google"] {
        let key = CacheManager::generate_cache_key(p, "rust", Some(10));
        assert!(disp.cache.get(&key).unwrap().is_none());
        let key = CacheManager::generate_cache_key(p, "rust", None);
        assert!(disp.cache.get(&key).unwrap().is_none());
    }
}

#[test]
fn dispatch_skips_open_breakers() {
    let mut disp = dispatcher(&["tavily", "google"]);
    let _ = run(&mut disp, "first", &["google"]);
    let (r, invoked) = run(&mut disp, "second", &["tavily", "google"]);
    assert_eq!(invoked, vec!["google"]);
    assert_eq!(r.unwrap().providers_used, vec!["google".to_string()]);
}

#[test]
fn dispatch_reports_open_breaker_when_all_are_open() {
    let mut disp = dispatcher(&["tavily"]);
    let _ = run(&mut disp, "first", &[]);
    let (r, invoked) = run(&mut disp, "second", &["tavily"]);
    assert!(invoked.is_empty());
    let e = r.unwrap_err();
    assert_eq!(e.message, "Circuit breaker is open for provider: tavily");
}

#[test]
fn search_with_runs_the_whole_fallback() {
    let mut disp = dispatcher(&["tavily", "google", "duckduckgo"]);
    let calls = RefCell::new(Vec::new());
    let r = disp.search_with(SearchRequest::new("rust"), 0, |name: &String, params| {
        calls.borrow_mut().push((name.clone(), params.query.clone()));
        if name == "duckduckgo" {
            Ok(vec![hit(name)])
        } else {
            Err(ProviderError::new(ErrorType::ProviderError, format!("{} down", name), name.clone()))
        }
    });
    let resp = r.unwrap();
    assert_eq!(resp.providers_used, vec!["duckduckgo".to_string()]);
    assert!(!resp.cache_hit);
    assert_eq!(
        calls.into_inner(),
        vec![
            ("tavily".to_string(), "rust".to_string()),
            ("google".to_string(), "rust".to_string()),
            ("duckduckgo".to_string(), "rust".to_string())
        ]
    );
}

#[test]
fn search_with_exhaustion_writes_nothing() {
    let mut disp = dispatcher(&["tavily", "google"]);
    let r = disp.search_with(SearchRequest::new("rust"), 0, |name: &String, _params| {
        Err::<Vec<SearchResult>, ProviderError>(ProviderError::new(
            ErrorType::ProviderError,
            format!("{} down", name),
            name.clone(),
        ))
    });
    let e = r.unwrap_err();
    assert_eq!(e.message, "google down");
    for p in ["tavily", "google"] {
        assert!(disp.cache.get(&CacheManager::generate_cache_key(p, "rust", None)).unwrap().is_none());
    }
}

#[test]
fn search_with_refuses_unknown_preferred_provider() {
    let mut disp = dispatcher(&["tavily"]);
    let r = disp.search_with(SearchRequest::new("rust").provider("bing"), 0, |_n: &String, _p| Ok(vec![]));
    assert_eq!(r.unwrap_err().error_type, ErrorType::InvalidInput);
}
