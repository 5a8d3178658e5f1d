use omnisearch_core::config::{ConfigError, ProvidersConfig, RateLimitingConfig};
use omnisearch_core::rate_limiter::RateLimiterManager;
use omnisearch_core::types::ErrorType;

fn manager(enabled: bool) -> RateLimiterManager {
    let config = RateLimitingConfig { enabled, requests_per_minute: 60, burst_size: 10 };
    RateLimiterManager::new(&config, ProvidersConfig::default()).unwrap()
}

#[test]
fn test_rate_limiter_creation() {
    let mut manager = manager(true);
    assert!(manager.check_rate_limit("test_provider").is_ok());
    assert!(manager.check_rate_limit("test_provider").is_ok());
    assert!(manager.get_limiter_stats("test_provider").is_some());
}

#[test]
fn test_rate_limiting_behavior() {
    let mut manager = manager(true);
    let result = manager.check_rate_limit("tavily");
    assert!(result.is_ok());
}

#[test]
fn test_rate_limiter_stats() {
    let mut manager = manager(true);
    let _ = manager.check_rate_limit("test_provider");
    let stats = manager.get_limiter_stats("test_provider");
    assert!(stats.is_some());
    let stats = stats.unwrap();
    assert_eq!(stats.provider, "test_provider");
}

#[test]
fn test_disabled_rate_limiting() {
    let mut manager = manager(false);
    assert!(manager.check_rate_limit("any_provider").is_ok());
    let stats = manager.get_limiter_stats("any_provider");
    assert!(stats.is_none());
}

#[test]
fn test_rate_limiter_enforcement() {
    let mut manager = manager(true);
    let provider = "rate_test_provider";
    for _ in 0..5 {
        if manager.check_rate_limit(provider).is_err() {
            break;
        }
    }
    if let Some(stats) = manager.get_limiter_stats(provider) {
        assert_eq!(stats.provider, provider);
    }
}

#[test]
fn quota_is_enforced_per_minute() {
    let mut providers = ProvidersConfig::default();
    providers.duckduckgo.rate_limit = 2;
    let config = RateLimitingConfig { enabled: true, requests_per_minute: 60, burst_size: 10 };
    let mut m = RateLimiterManager::new(&config, providers).unwrap();
    assert!(m.check_rate_limit("duckduckgo").is_ok());
    assert!(m.check_rate_limit("duckduckgo").is_ok());
    let e = m.check_rate_limit("duckduckgo").unwrap_err();
    assert_eq!(e.error_type, ErrorType::RateLimit);
    assert_eq!(e.message, "Rate limit exceeded for provider: duckduckgo");
    assert!(m.check_rate_limit("tavily").is_ok());
    m.reset_limiter("duckduckgo");
    assert!(m.get_limiter_stats("duckduckgo").is_none());
    assert!(m.check_rate_limit("duckduckgo").is_ok());
}

#[test]
fn zero_quota_is_refused() {
    let mut providers = ProvidersConfig::default();
    providers.exa.rate_limit = 0;
    let config = RateLimitingConfig { enabled: true, requests_per_minute: 60, burst_size: 10 };
    assert_eq!(RateLimiterManager::new(&config, providers.clone()).err(), Some(ConfigError::ZeroQuota));
    let off = RateLimitingConfig { enabled: false, requests_per_minute: 60, burst_size: 10 };
    assert!(RateLimiterManager::new(&off, providers).is_ok());
}

#[test]
fn provider_quotas_come_from_config() {
    let m = manager(true);
    assert_eq!(m.get_provider_rate_limit("tavily"), 100);
    assert_eq!(m.get_provider_rate_limit("duckduckgo"), 30);
    assert_eq!(m.get_provider_rate_limit("reddit"), 60);
    assert_eq!(m.get_provider_rate_limit("unknown"), 60);
}
