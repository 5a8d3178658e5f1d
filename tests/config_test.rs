use omnisearch_core::provider_factory::ProviderFactory;
use omnisearch_core::config::{get_provider_api_key, validate_config, CacheType, Config, ConfigProblem};
use omnisearch_core::circuit_breaker::CircuitBreakerManager;
use omnisearch_core::config::CircuitBreakerConfig;
use omnisearch_core::health::{circuit_breakers_check, fold_status, providers_check_status, CheckStatus, HealthChecker, ServiceStatus};
use omnisearch_core::tools::{register_tools, AvailableProviders};

#[test]
fn timeouts_come_from_config() {
    let c = Config::default();
    assert_eq!(c.timeout_duration("firecrawl"), 120);
    assert_eq!(c.timeout_duration("perplexity"), 60);
    assert_eq!(c.timeout_duration("brightdata"), 30);
    assert_eq!(c.timeout_duration("nobody"), 30);
}

#[test]
fn api_keys_are_looked_up_by_name() {
    let mut c = Config::default();
    c.providers.tavily.api_key = Some("SECRET-REDACTED".to_string());
    c.providers.reddit.client_id = Some("id".to_string());
    assert_eq!(get_provider_api_key(&c, "tavily"), Some("SECRET-REDACTED".to_string()));
    assert_eq!(get_provider_api_key(&c, "reddit_client_id"), Some("id".to_string()));
    assert_eq!(get_provider_api_key(&c, "google"), None);
    assert_eq!(get_provider_api_key(&c, "unknown"), None);
}

#[test]
fn config_problems_are_found_in_order() {
    let mut c = Config::default();
    assert_eq!(validate_config(&c), Ok(()));
    c.cache.cache_type = CacheType::Redis;
    c.cache.redis.url = String::new();
    assert_eq!(validate_config(&c), Err(ConfigProblem::MissingRedisUrl));
    c.server.max_connections = 0;
    assert_eq!(validate_config(&c), Err(ConfigProblem::ZeroMaxConnections));
    c.server.port = 0;
    assert_eq!(validate_config(&c), Err(ConfigProblem::ZeroPort));
    assert_eq!(ConfigProblem::ZeroPort.message(), "Server port cannot be 0");
}

#[test]
fn health_counts_and_folds() {
    let mut c = Config::default();
    let h = HealthChecker::new(1_000);
    assert_eq!(h.count_available_providers(&c), 1);
    c.providers.exa.api_key = Some("k".to_string());
    c.providers.reddit.client_id = Some("i".to_string());
    assert_eq!(h.count_available_providers(&c), 2);
    c.providers.reddit.client_secret = Some("s".to_string());
    assert_eq!(h.count_available_providers(&c), 3);
    assert_eq!(h.uptime_seconds(4_500), 3);
    assert_eq!(providers_check_status(0), CheckStatus::Fail);
    assert_eq!(providers_check_status(2), CheckStatus::Warn);
    assert_eq!(providers_check_status(3), CheckStatus::Pass);
    assert_eq!(fold_status(ServiceStatus::Healthy, CheckStatus::Warn, true), ServiceStatus::Degraded);
    assert_eq!(fold_status(ServiceStatus::Degraded, CheckStatus::Fail, true), ServiceStatus::Unhealthy);
    assert_eq!(fold_status(ServiceStatus::Healthy, CheckStatus::Fail, false), ServiceStatus::Healthy);
    assert!(h.validate_configuration(&c).is_empty());
    c.server.port = 0;
    assert_eq!(h.validate_configuration(&c), vec!["Server port not configured".to_string()]);
}

#[test]
fn tool_registry_records_names_once() {
    let mut a = AvailableProviders::new();
    a.register_search_provider("tavily", false);
    a.register_search_provider("tavily", false);
    a.register_search_provider("perplexity", true);
    a.register_processing_provider("jina");
    a.register_enhancement_provider("kagi");
    assert_eq!(a.search, vec!["tavily".to_string()]);
    assert_eq!(a.ai_response, vec!["perplexity".to_string()]);
    assert_eq!(a.processing.len(), 1);
    assert_eq!(a.enhancement.len(), 1);
    assert!(register_tools().is_ok());
}

#[test]
fn factory_picks_configured_providers() {
    let mut c = Config::default();
    assert_eq!(ProviderFactory::configured_search_providers(&c), vec!["duckduckgo".to_string()]);
    c.providers.tavily.api_key = Some("k".to_string());
    c.providers.google.api_key = Some("k".to_string());
    c.providers.exa.api_key = Some("k".to_string());
    assert_eq!(
        ProviderFactory::configured_search_providers(&c),
        vec!["tavily".to_string(), "duckduckgo".to_string(), "exa".to_string()]
    );
    c.providers.google.search_engine_id = Some("cx".to_string());
    assert_eq!(ProviderFactory::configured_search_providers(&c)[1], "google");
}

#[test]
fn breaker_check_names_open_breakers() {
    let config = CircuitBreakerConfig { enabled: true, failure_threshold: 1, timeout_seconds: 60, half_open_max_calls: 1 };
    let mut m = CircuitBreakerManager::new(&config).unwrap();
    assert_eq!(circuit_breakers_check(&m), (CheckStatus::Pass, vec![]));
    let _ = m.call("google", 0, || Err::<(), String>("down".to_string()));
    let _ = m.call("exa", 0, || Err::<(), String>("down".to_string()));
    let _ = m.call("tavily", 0, || Ok::<(), String>(()));
    let _ = m.call("bing", 0, || Err::<(), String>("down".to_string()));
    assert_eq!(
        circuit_breakers_check(&m),
        (CheckStatus::Warn, vec!["google".to_string(), "exa".to_string()])
    );
}
