use omnisearch_core::metrics::{MetricsCollector, ProviderStats, RequestMetrics};

fn request(provider: &str, ms: u64, success: bool, cache_hit: bool) -> RequestMetrics {
    RequestMetrics {
        provider: provider.to_string(),
        operation: "search".to_string(),
        duration_ms: ms,
        success,
        response_size: None,
        cache_hit,
    }
}

#[test]
fn stats_accumulate_per_provider() {
    let mut c = MetricsCollector::new(true);
    c.record_request(&request("tavily", 100, true, false), 1);
    c.record_request(&request("tavily", 300, false, true), 2);
    c.record_request(&request("exa", 50, true, false), 3);
    let t = c.get_provider_stats("tavily").unwrap();
    assert_eq!(t.total_requests, 2);
    assert_eq!(t.successful_requests, 1);
    assert_eq!(t.failed_requests, 1);
    assert_eq!(t.cache_hits, 1);
    assert_eq!(t.total_duration_ms, 400);
    assert_eq!(t.avg_response_time_ms, 200);
    assert_eq!(t.last_request_time, Some(2));
    assert_eq!(c.get_provider_stats("exa").unwrap().total_requests, 1);
    c.reset_stats(Some("tavily"));
    assert!(c.get_provider_stats("tavily").is_none());
    assert!(c.get_provider_stats("exa").is_some());
    c.reset_stats(None);
    assert!(c.get_provider_stats("exa").is_none());
}

#[test]
fn disabled_collector_keeps_nothing() {
    let mut c = MetricsCollector::new(false);
    c.record_request(&request("tavily", 100, true, false), 1);
    assert!(c.get_provider_stats("tavily").is_none());
    assert!(!c.is_enabled_now());
}

#[test]
fn counters_saturate() {
    let mut s = ProviderStats::new();
    s.total_duration_ms = u64::MAX - 1;
    s.record(&request("x", 10, true, false), 0);
    assert_eq!(s.total_duration_ms, u64::MAX);
    assert_eq!(s.total_requests, 1);
    assert_eq!(s.avg_response_time_ms, u64::MAX);
}
