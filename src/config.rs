//! Configuration consumed by the core. Loading it from files and the
//! environment is left to the host program; the defaults here carry no
//! credentials.
use vstd::prelude::*;

use crate::rate_limiter::name_is;

verus! {

/// Why a registry could not be created from its configuration.
#[derive(Debug, Clone, PartialEq, Eq)]
pub enum ConfigError {
    /// An enabled breaker registry was given a failure threshold of zero.
    ZeroFailureThreshold,
    /// An enabled rate limiter was given a quota of zero requests.
    ZeroQuota,
}

/// Settings of the circuit breakers.
#[derive(Debug, Clone)]
pub struct CircuitBreakerConfig {
    pub enabled: bool,
    pub failure_threshold: u32,
    pub timeout_seconds: u64,
    pub half_open_max_calls: u32,
}

/// Where cached results are kept.
#[derive(Debug, Clone, Copy, PartialEq, Eq, Structural)]
pub enum CacheType {
    Memory,
    Redis,
}

#[derive(Debug, Clone)]
pub struct RedisConfig {
    pub url: String,
    pub pool_size: u32,
}

/// Settings of the result cache.
#[derive(Debug, Clone)]
pub struct CacheConfig {
    pub enabled: bool,
    pub cache_type: CacheType,
    pub ttl_seconds: u64,
    pub max_entries: usize,
    pub redis: RedisConfig,
}

#[derive(Debug, Clone)]
pub struct ServerConfig {
    pub host: String,
    pub port: u16,
    pub max_connections: usize,
}

/// Settings of the rate limiters.
#[derive(Debug, Clone)]
pub struct RateLimitingConfig {
    pub enabled: bool,
    pub requests_per_minute: u64,
    pub burst_size: u32,
}

#[derive(Debug, Clone)]
pub struct MetricsConfig {
    pub enabled: bool,
    pub prometheus_port: u16,
}

#[derive(Debug, Clone)]
pub struct LoggingConfig {
    pub level: String,
    pub json_format: bool,
}

/// Settings of a provider that authenticates with one API key.
#[derive(Debug, Clone)]
pub struct ProviderConfig {
    pub enabled: bool,
    pub api_key: Option<String>,
    /// Requests per minute.
    pub rate_limit: u32,
    pub timeout_seconds: u64,
    pub base_url: Option<String>,
}

#[derive(Debug, Clone)]
pub struct GoogleProviderConfig {
    pub enabled: bool,
    pub api_key: Option<String>,
    pub search_engine_id: Option<String>,
    pub rate_limit: u32,
    pub timeout_seconds: u64,
}

#[derive(Debug, Clone)]
pub struct RedditProviderConfig {
    pub enabled: bool,
    pub client_id: Option<String>,
    pub client_secret: Option<String>,
    pub user_agent: Option<String>,
    pub rate_limit: u32,
    pub timeout_seconds: u64,
}

#[derive(Debug, Clone)]
pub struct BrightDataProviderConfig {
    pub enabled: bool,
    pub username: Option<String>,
    pub password: Option<String>,
    pub rate_limit: u32,
    pub timeout_seconds: u64,
    pub base_url: Option<String>,
}

/// Settings of every known provider.
#[derive(Debug, Clone)]
pub struct ProvidersConfig {
    pub tavily: ProviderConfig,
    pub google: GoogleProviderConfig,
    pub reddit: RedditProviderConfig,
    pub duckduckgo: ProviderConfig,
    pub baidu: ProviderConfig,
    pub brightdata: BrightDataProviderConfig,
    pub exa: ProviderConfig,
    pub brave: ProviderConfig,
    pub kagi: ProviderConfig,
    pub perplexity: ProviderConfig,
    pub jina: ProviderConfig,
    pub firecrawl: ProviderConfig,
}

/// The whole configuration.
#[derive(Debug, Clone)]
pub struct Config {
    pub server: ServerConfig,
    pub cache: CacheConfig,
    pub rate_limiting: RateLimitingConfig,
    pub metrics: MetricsConfig,
    pub logging: LoggingConfig,
    pub providers: ProvidersConfig,
    pub circuit_breaker: CircuitBreakerConfig,
}

fn some_string(s: &str) -> (r: Option<String>)
    ensures
        r matches Some(x) && x@ == s@,
{
    Some(s.to_string())
}

impl Default for ProvidersConfig {
    /// Every provider enabled, with no credentials, and with its usual rate
    /// limit and timeout.
    fn default() -> (r: Self)
        ensures
            r.tavily.enabled,
            r.tavily.rate_limit == 100,
            r.tavily.timeout_seconds == 30,
            r.tavily.api_key is None,
            r.google.enabled,
            r.google.rate_limit == 100,
            r.google.timeout_seconds == 30,
            r.google.api_key is None,
            r.google.search_engine_id is None,
            r.reddit.enabled,
            r.reddit.rate_limit == 60,
            r.reddit.timeout_seconds == 30,
            r.reddit.client_id is None,
            r.reddit.client_secret is None,
            r.reddit.user_agent is None,
            r.duckduckgo.enabled,
            r.duckduckgo.rate_limit == 30,
            r.duckduckgo.timeout_seconds == 30,
            r.duckduckgo.api_key is None,
            r.baidu.enabled,
            r.baidu.rate_limit == 100,
            r.baidu.timeout_seconds == 30,
            r.baidu.api_key is None,
            r.brightdata.enabled,
            r.brightdata.rate_limit == 100,
            r.brightdata.timeout_seconds == 30,
            r.brightdata.username is None,
            r.brightdata.password is None,
            r.exa.enabled,
            r.exa.rate_limit == 100,
            r.exa.timeout_seconds == 30,
            r.exa.api_key is None,
            r.brave.enabled,
            r.brave.rate_limit == 100,
            r.brave.timeout_seconds == 30,
            r.brave.api_key is None,
            r.kagi.enabled,
            r.kagi.rate_limit == 100,
            r.kagi.timeout_seconds == 30,
            r.kagi.api_key is None,
            r.perplexity.enabled,
            r.perplexity.rate_limit == 60,
            r.perplexity.timeout_seconds == 60,
            r.perplexity.api_key is None,
            r.jina.enabled,
            r.jina.rate_limit == 100,
            r.jina.timeout_seconds == 30,
            r.jina.api_key is None,
            r.firecrawl.enabled,
            r.firecrawl.rate_limit == 60,
            r.firecrawl.timeout_seconds == 120,
            r.firecrawl.api_key is None,
    {
        ProvidersConfig {
            tavily: ProviderConfig {
                enabled: true,
                api_key: None,
                rate_limit: 100,
                timeout_seconds: 30,
                base_url: some_string("https://api.tavily.com"),
            },
            google: GoogleProviderConfig {
                enabled: true,
                api_key: None,
                search_engine_id: None,
                rate_limit: 100,
                timeout_seconds: 30,
            },
            reddit: RedditProviderConfig {
                enabled: true,
                client_id: None,
                client_secret: None,
                user_agent: None,
                rate_limit: 60,
                timeout_seconds: 30,
            },
            duckduckgo: ProviderConfig {
                enabled: true,
                api_key: None,
                rate_limit: 30,
                timeout_seconds: 30,
                base_url: some_string("https://api.duckduckgo.com"),
            },
            baidu: ProviderConfig {
                enabled: true,
                api_key: None,
                rate_limit: 100,
                timeout_seconds: 30,
                base_url: some_string("https://serpapi.com"),
            },
            brightdata: BrightDataProviderConfig {
                enabled: true,
                username: None,
                password: None,
                rate_limit: 100,
                timeout_seconds: 30,
                base_url: some_string("https://api.brightdata.com"),
            },
            exa: ProviderConfig {
                enabled: true,
                api_key: None,
                rate_limit: 100,
                timeout_seconds: 30,
                base_url: some_string("https://api.exa.ai"),
            },
            brave: ProviderConfig {
                enabled: true,
                api_key: None,
                rate_limit: 100,
                timeout_seconds: 30,
                base_url: some_string("https://api.search.brave.com/res/v1"),
            },
            kagi: ProviderConfig {
                enabled: true,
                api_key: None,
                rate_limit: 100,
                timeout_seconds: 30,
                base_url: some_string("https://kagi.com/api/v0"),
            },
            perplexity: ProviderConfig {
                enabled: true,
                api_key: None,
                rate_limit: 60,
                timeout_seconds: 60,
                base_url: some_string("https://api.perplexity.ai"),
            },
            jina: ProviderConfig {
                enabled: true,
                api_key: None,
                rate_limit: 100,
                timeout_seconds: 30,
                base_url: some_string("https://api.jina.ai"),
            },
            firecrawl: ProviderConfig {
                enabled: true,
                api_key: None,
                rate_limit: 60,
                timeout_seconds: 120,
                base_url: some_string("https://api.firecrawl.dev"),
            },
        }
    }
}

impl Default for Config {
    fn default() -> (r: Self)
        ensures
            r.server.host@ == "localhost"@,
            r.server.port == 3000,
            r.server.max_connections == 1000,
            r.cache.enabled,
            r.cache.cache_type == CacheType::Memory,
            r.cache.ttl_seconds == 3600,
            r.cache.max_entries == 10000,
            r.rate_limiting.enabled,
            r.rate_limiting.requests_per_minute == 60,
            r.rate_limiting.burst_size == 10,
            r.metrics.enabled,
            r.metrics.prometheus_port == 9090,
            r.logging.level@ == "info"@,
            !r.logging.json_format,
            r.circuit_breaker.enabled,
            r.circuit_breaker.failure_threshold == 5,
            r.circuit_breaker.timeout_seconds == 60,
            r.circuit_breaker.half_open_max_calls == 3,
            r.providers.tavily.enabled && r.providers.tavily.api_key is None,
            r.providers.duckduckgo.enabled,
    {
        Config {
            server: ServerConfig { host: "localhost".to_string(), port: 3000, max_connections: 1000 },
            cache: CacheConfig {
                enabled: true,
                cache_type: CacheType::Memory,
                ttl_seconds: 3600,
                max_entries: 10000,
                redis: RedisConfig { url: "redis://localhost:6379".to_string(), pool_size: 10 },
            },
            rate_limiting: RateLimitingConfig { enabled: true, requests_per_minute: 60, burst_size: 10 },
            metrics: MetricsConfig { enabled: true, prometheus_port: 9090 },
            logging: LoggingConfig { level: "info".to_string(), json_format: false },
            circuit_breaker: CircuitBreakerConfig {
                enabled: true,
                failure_threshold: 5,
                timeout_seconds: 60,
                half_open_max_calls: 3,
            },
            providers: ProvidersConfig::default(),
        }
    }
}


/// The timeout, in seconds, of calls to provider `p`: its configured one,
/// or 30 for a provider the configuration does not know.
pub open spec fn timeout_for(c: Config, p: Seq<char>) -> u64 {
    if p == "tavily"@ {
        c.providers.tavily.timeout_seconds
    } else if p == "google"@ {
        c.providers.google.timeout_seconds
    } else if p == "reddit"@ {
        c.providers.reddit.timeout_seconds
    } else if p == "duckduckgo"@ {
        c.providers.duckduckgo.timeout_seconds
    } else if p == "baidu"@ {
        c.providers.baidu.timeout_seconds
    } else if p == "exa"@ {
        c.providers.exa.timeout_seconds
    } else if p == "brave"@ {
        c.providers.brave.timeout_seconds
    } else if p == "kagi"@ {
        c.providers.kagi.timeout_seconds
    } else if p == "perplexity"@ {
        c.providers.perplexity.timeout_seconds
    } else if p == "jina"@ {
        c.providers.jina.timeout_seconds
    } else if p == "firecrawl"@ {
        c.providers.firecrawl.timeout_seconds
    } else {
        30
    }
}

impl Config {
    /// The timeout, in seconds, of calls to `provider`.
    pub fn timeout_duration(&self, provider: &str) -> (r: u64)
        ensures
            r == timeout_for(*self, provider@),
    {
        let key = provider.to_string();
        if name_is(&key, "tavily") {
            self.providers.tavily.timeout_seconds
        } else if name_is(&key, "google") {
            self.providers.google.timeout_seconds
        } else if name_is(&key, "reddit") {
            self.providers.reddit.timeout_seconds
        } else if name_is(&key, "duckduckgo") {
            self.providers.duckduckgo.timeout_seconds
        } else if name_is(&key, "baidu") {
            self.providers.baidu.timeout_seconds
        } else if name_is(&key, "exa") {
            self.providers.exa.timeout_seconds
        } else if name_is(&key, "brave") {
            self.providers.brave.timeout_seconds
        } else if name_is(&key, "kagi") {
            self.providers.kagi.timeout_seconds
        } else if name_is(&key, "perplexity") {
            self.providers.perplexity.timeout_seconds
        } else if name_is(&key, "jina") {
            self.providers.jina.timeout_seconds
        } else if name_is(&key, "firecrawl") {
            self.providers.firecrawl.timeout_seconds
        } else {
            30
        }
    }
}

/// The credential stored under `p`; none for a name the configuration
/// does not know.
pub open spec fn api_key_for(c: Config, p: Seq<char>) -> Option<String> {
    if p == "tavily"@ {
        c.providers.tavily.api_key
    } else if p == "google"@ {
        c.providers.google.api_key
    } else if p == "reddit_client_id"@ {
        c.providers.reddit.client_id
    } else if p == "reddit_client_secret"@ {
        c.providers.reddit.client_secret
    } else if p == "reddit_user_agent"@ {
        c.providers.reddit.user_agent
    } else if p == "exa"@ {
        c.providers.exa.api_key
    } else if p == "brave"@ {
        c.providers.brave.api_key
    } else if p == "kagi"@ {
        c.providers.kagi.api_key
    } else if p == "perplexity"@ {
        c.providers.perplexity.api_key
    } else if p == "jina"@ {
        c.providers.jina.api_key
    } else if p == "firecrawl"@ {
        c.providers.firecrawl.api_key
    } else if p == "serpapi"@ {
        c.providers.baidu.api_key
    } else if p == "brightdata_username"@ {
        c.providers.brightdata.username
    } else if p == "brightdata_password"@ {
        c.providers.brightdata.password
    } else {
        None
    }
}

fn copy_key(k: &Option<String>) -> (r: Option<String>)
    ensures
        r == *k,
{
    match k {
        Some(s) => Some(s.clone()),
        None => None,
    }
}

/// The credential stored under `provider`: a provider name, or one of the
/// names of the parts of a multi-part credential.
pub fn get_provider_api_key(config: &Config, provider: &str) -> (r: Option<String>)
    ensures
        r == api_key_for(*config, provider@),
{
    let key = provider.to_string();
    if name_is(&key, "tavily") {
        copy_key(&config.providers.tavily.api_key)
    } else if name_is(&key, "google") {
        copy_key(&config.providers.google.api_key)
    } else if name_is(&key, "reddit_client_id") {
        copy_key(&config.providers.reddit.client_id)
    } else if name_is(&key, "reddit_client_secret") {
        copy_key(&config.providers.reddit.client_secret)
    } else if name_is(&key, "reddit_user_agent") {
        copy_key(&config.providers.reddit.user_agent)
    } else if name_is(&key, "exa") {
        copy_key(&config.providers.exa.api_key)
    } else if name_is(&key, "brave") {
        copy_key(&config.providers.brave.api_key)
    } else if name_is(&key, "kagi") {
        copy_key(&config.providers.kagi.api_key)
    } else if name_is(&key, "perplexity") {
        copy_key(&config.providers.perplexity.api_key)
    } else if name_is(&key, "jina") {
        copy_key(&config.providers.jina.api_key)
    } else if name_is(&key, "firecrawl") {
        copy_key(&config.providers.firecrawl.api_key)
    } else if name_is(&key, "serpapi") {
        copy_key(&config.providers.baidu.api_key)
    } else if name_is(&key, "brightdata_username") {
        copy_key(&config.providers.brightdata.username)
    } else if name_is(&key, "brightdata_password") {
        copy_key(&config.providers.brightdata.password)
    } else {
        None
    }
}

/// What makes a configuration unusable.
#[derive(Debug, Clone, Copy, PartialEq, Eq, Structural)]
pub enum ConfigProblem {
    ZeroPort,
    ZeroMaxConnections,
    MissingRedisUrl,
}

impl ConfigProblem {
    pub fn message(&self) -> (r: &'static str)
        ensures
            r@ == config_problem_message(*self),
    {
        match self {
            ConfigProblem::ZeroPort => "Server port cannot be 0",
            ConfigProblem::ZeroMaxConnections => "Max connections cannot be 0",
            ConfigProblem::MissingRedisUrl => "Redis URL is required when using Redis cache",
        }
    }
}

pub open spec fn config_problem_message(p: ConfigProblem) -> Seq<char> {
    match p {
        ConfigProblem::ZeroPort => "Server port cannot be 0"@,
        ConfigProblem::ZeroMaxConnections => "Max connections cannot be 0"@,
        ConfigProblem::MissingRedisUrl => "Redis URL is required when using Redis cache"@,
    }
}

/// The first reason, if any, why `c` cannot be used: a zero port, a zero
/// connection limit, or an enabled Redis cache without a URL.
pub open spec fn config_problem(c: Config) -> Option<ConfigProblem> {
    if c.server.port == 0 {
        Some(ConfigProblem::ZeroPort)
    } else if c.server.max_connections == 0 {
        Some(ConfigProblem::ZeroMaxConnections)
    } else if c.cache.enabled && c.cache.cache_type == CacheType::Redis && c.cache.redis.url@.len() == 0 {
        Some(ConfigProblem::MissingRedisUrl)
    } else {
        None
    }
}

/// Checks that a configuration can be used.
pub fn validate_config(config: &Config) -> (r: Result<(), ConfigProblem>)
    ensures
        r == match config_problem(*config) {
            Some(p) => Err::<(), ConfigProblem>(p),
            None => Ok(()),
        },
{
    if config.server.port == 0 {
        return Err(ConfigProblem::ZeroPort);
    }
    if config.server.max_connections == 0 {
        return Err(ConfigProblem::ZeroMaxConnections);
    }
    if config.cache.enabled && config.cache.cache_type == CacheType::Redis && config.cache.redis.url.as_str().is_empty() {
        return Err(ConfigProblem::MissingRedisUrl);
    }
    Ok(())
}

} // verus!
