//! Health reporting: the decisions behind a health report, from the
//! results of the individual checks.
use vstd::prelude::*;

use crate::circuit_breaker::{CircuitBreakerManager, CircuitState};
use crate::client::names_of;
use crate::config::{CacheType, Config, ProvidersConfig};

verus! {

/// The health of the whole service.
#[derive(Debug, Clone, Copy, PartialEq, Eq, Structural)]
pub enum ServiceStatus {
    Healthy,
    Degraded,
    Unhealthy,
}

/// The outcome of one check.
#[derive(Debug, Clone, Copy, PartialEq, Eq, Structural)]
pub enum CheckStatus {
    Pass,
    Warn,
    Fail,
}

/// One check, as reported.
#[derive(Debug, Clone)]
pub struct HealthCheck {
    pub status: CheckStatus,
    pub message: Option<String>,
    pub duration_ms: u64,
    pub last_checked: u64,
}

/// The number of search providers that are enabled and have their
/// credentials.
pub open spec fn available_count(c: Config) -> nat {
    group_a(c.providers) + group_b(c.providers) + group_c(c.providers)
}

/// The status after folding in one check. A failing check makes the
/// service unhealthy where `may_fail` holds; a warning degrades a healthy
/// service.
pub open spec fn folded(overall: ServiceStatus, check: CheckStatus, may_fail: bool) -> ServiceStatus {
    if may_fail && check == CheckStatus::Fail {
        ServiceStatus::Unhealthy
    } else if check == CheckStatus::Warn && overall == ServiceStatus::Healthy {
        ServiceStatus::Degraded
    } else {
        overall
    }
}

/// Folds one check into the overall status.
pub fn fold_status(overall: ServiceStatus, check: CheckStatus, may_fail: bool) -> (r: ServiceStatus)
    ensures
        r == folded(overall, check, may_fail),
{
    if may_fail && check == CheckStatus::Fail {
        ServiceStatus::Unhealthy
    } else if check == CheckStatus::Warn && overall == ServiceStatus::Healthy {
        ServiceStatus::Degraded
    } else {
        overall
    }
}

/// The outcome of the provider check: none available fails, fewer than
/// three warns.
pub fn providers_check_status(available: usize) -> (r: CheckStatus)
    ensures
        available == 0 ==> r == CheckStatus::Fail,
        0 < available < 3 ==> r == CheckStatus::Warn,
        available >= 3 ==> r == CheckStatus::Pass,
{
    if available == 0 {
        CheckStatus::Fail
    } else if available < 3 {
        CheckStatus::Warn
    } else {
        CheckStatus::Pass
    }
}

/// One for a condition that holds, zero otherwise.
#[verifier::opaque]
pub open spec fn flag(b: bool) -> nat {
    if b {
        1
    } else {
        0
    }
}

fn one_if(b: bool) -> (r: usize)
    ensures
        r <= 1,
        r == flag(b),
{
    reveal(flag);
    if b {
        1
    } else {
        0
    }
}

/// Tavily, Google and Reddit that are ready.
pub open spec fn group_a(c: ProvidersConfig) -> nat {
    flag(c.tavily.enabled && c.tavily.api_key is Some) + flag(c.google.enabled && c.google.api_key is Some)
        + flag(c.reddit.enabled && c.reddit.client_id is Some && c.reddit.client_secret is Some)
}

/// DuckDuckGo, Exa and Brave that are ready.
pub open spec fn group_b(c: ProvidersConfig) -> nat {
    flag(c.duckduckgo.enabled) + flag(c.exa.enabled && c.exa.api_key is Some) + flag(
        c.brave.enabled && c.brave.api_key is Some,
    )
}

/// Kagi, Perplexity, Jina and Firecrawl that are ready.
pub open spec fn group_c(c: ProvidersConfig) -> nat {
    flag(c.kagi.enabled && c.kagi.api_key is Some) + flag(c.perplexity.enabled && c.perplexity.api_key is Some)
        + flag(c.jina.enabled && c.jina.api_key is Some) + flag(
        c.firecrawl.enabled && c.firecrawl.api_key is Some,
    )
}

fn count_group_a(c: &ProvidersConfig) -> (r: usize)
    ensures
        r == group_a(*c),
        r <= 3,
{
    let x = one_if(c.tavily.enabled && c.tavily.api_key.is_some());
    let y = one_if(c.google.enabled && c.google.api_key.is_some());
    let z = one_if(c.reddit.enabled && c.reddit.client_id.is_some() && c.reddit.client_secret.is_some());
    x + y + z
}

fn count_group_b(c: &ProvidersConfig) -> (r: usize)
    ensures
        r == group_b(*c),
        r <= 3,
{
    let x = one_if(c.duckduckgo.enabled);
    let y = one_if(c.exa.enabled && c.exa.api_key.is_some());
    let z = one_if(c.brave.enabled && c.brave.api_key.is_some());
    x + y + z
}

fn count_group_c(c: &ProvidersConfig) -> (r: usize)
    ensures
        r == group_c(*c),
        r <= 4,
{
    let w = one_if(c.kagi.enabled && c.kagi.api_key.is_some());
    let x = one_if(c.perplexity.enabled && c.perplexity.api_key.is_some());
    let y = one_if(c.jina.enabled && c.jina.api_key.is_some());
    let z = one_if(c.firecrawl.enabled && c.firecrawl.api_key.is_some());
    w + x + y + z
}

/// Produces health reports; it remembers when the service started.
pub struct HealthChecker {
    start_time_ms: u64,
}

impl HealthChecker {
    pub closed spec fn started_at(&self) -> u64 {
        self.start_time_ms
    }

    /// A checker for a service started at `now_ms`.
    pub fn new(now_ms: u64) -> (r: Self)
        ensures
            r.started_at() == now_ms,
    {
        HealthChecker { start_time_ms: now_ms }
    }

    /// Whole seconds since the service started; none if `now_ms` is earlier.
    pub fn uptime_seconds(&self, now_ms: u64) -> (r: u64)
        ensures
            now_ms >= self.started_at() ==> r == (now_ms - self.started_at()) / 1000,
            now_ms < self.started_at() ==> r == 0,
    {
        if now_ms >= self.start_time_ms {
            (now_ms - self.start_time_ms) / 1000
        } else {
            0
        }
    }

    /// The number of search providers that are enabled and have their
    /// credentials.
    pub fn count_available_providers(&self, config: &Config) -> (r: usize)
        ensures
            r == available_count(*config),
    {
        let a = count_group_a(&config.providers);
        let b = count_group_b(&config.providers);
        let c = count_group_c(&config.providers);
        a + b + c
    }

    /// What is missing from the configuration: a port, a connection limit,
    /// any search provider, or the cache's bound or URL.
    pub fn validate_configuration(&self, config: &Config) -> (r: Vec<String>)
        ensures
            r@.len() == (if config.server.port == 0 { 1int } else { 0 })
                + (if config.server.max_connections == 0 { 1int } else { 0 })
                + (if configured_search_providers(*config) == 0 { 1int } else { 0 })
                + (if cache_misconfigured(*config) { 1int } else { 0 }),
    {
        let mut issues: Vec<String> = Vec::new();
        if config.server.port == 0 {
            issues.push("Server port not configured".to_string());
        }
        if config.server.max_connections == 0 {
            issues.push("Max connections not configured".to_string());
        }
        let mut n: usize = 0;
        if config.providers.tavily.enabled && config.providers.tavily.api_key.is_some() {
            n = n + 1;
        }
        if config.providers.google.enabled && config.providers.google.api_key.is_some() {
            n = n + 1;
        }
        if config.providers.reddit.enabled && config.providers.reddit.client_id.is_some()
            && config.providers.reddit.client_secret.is_some() {
            n = n + 1;
        }
        if config.providers.duckduckgo.enabled {
            n = n + 1;
        }
        if n == 0 {
            issues.push("No search providers configured".to_string());
        }
        if config.cache.enabled {
            match config.cache.cache_type {
                CacheType::Memory => {
                    if config.cache.max_entries == 0 {
                        issues.push("Memory cache max entries not configured".to_string());
                    }
                },
                CacheType::Redis => {
                    if config.cache.redis.url.as_str().is_empty() {
                        issues.push("Redis URL not configured".to_string());
                    }
                },
            }
        }
        issues
    }
}

/// The number of the four main search providers that are configured.
pub open spec fn configured_search_providers(c: Config) -> nat {
    (if c.providers.tavily.enabled && c.providers.tavily.api_key is Some { 1nat } else { 0nat })
        + (if c.providers.google.enabled && c.providers.google.api_key is Some { 1nat } else { 0nat })
        + (if c.providers.reddit.enabled && c.providers.reddit.client_id is Some
        && c.providers.reddit.client_secret is Some { 1nat } else { 0nat })
        + (if c.providers.duckduckgo.enabled { 1nat } else { 0nat })
}

/// Whether an enabled cache lacks its bound (in memory) or its URL (Redis).
pub open spec fn cache_misconfigured(c: Config) -> bool {
    c.cache.enabled && match c.cache.cache_type {
        CacheType::Memory => c.cache.max_entries == 0,
        CacheType::Redis => c.cache.redis.url@.len() == 0,
    }
}


/// The providers whose breakers the health check looks at.
pub open spec fn watched_provider(i: int) -> Seq<char> {
    if i == 0 {
        "tavily"@
    } else if i == 1 {
        "google"@
    } else if i == 2 {
        "reddit"@
    } else if i == 3 {
        "duckduckgo"@
    } else {
        "exa"@
    }
}

fn watched_provider_str(i: usize) -> (r: &'static str)
    requires
        i < 5,
    ensures
        r@ == watched_provider(i as int),
{
    if i == 0 {
        "tavily"
    } else if i == 1 {
        "google"
    } else if i == 2 {
        "reddit"
    } else if i == 3 {
        "duckduckgo"
    } else {
        "exa"
    }
}

/// Whether the breaker of `p` is known and open.
pub open spec fn breaker_open(m: &CircuitBreakerManager, p: Seq<char>) -> bool {
    m.is_enabled() && m.table().contains_key(p) && m.table()[p].state == CircuitState::Open
}

/// The watched providers whose breakers are open, in order.
pub open spec fn open_watched(m: &CircuitBreakerManager, k: int) -> Seq<Seq<char>>
    decreases k,
{
    if k <= 0 {
        Seq::empty()
    } else if breaker_open(m, watched_provider(k - 1)) {
        open_watched(m, k - 1).push(watched_provider(k - 1))
    } else {
        open_watched(m, k - 1)
    }
}

/// The outcome of the breaker check: a warning naming the watched
/// providers whose breakers are open, if any.
pub fn circuit_breakers_check(breakers: &CircuitBreakerManager) -> (r: (CheckStatus, Vec<String>))
    requires
        breakers.wf(),
    ensures
        names_of(r.1@) == open_watched(breakers, 5),
        r.0 == (if r.1@.len() == 0 {
            CheckStatus::Pass
        } else {
            CheckStatus::Warn
        }),
{
    let mut open: Vec<String> = Vec::new();
    let mut i: usize = 0;
    proof {
        assert(names_of(open@) =~= Seq::<Seq<char>>::empty());
    }
    while i < 5
        invariant
            i <= 5,
            breakers.wf(),
            names_of(open@) == open_watched(breakers, i as int),
        decreases 5 - i,
    {
        let name = watched_provider_str(i);
        match breakers.get_stats(name) {
            Some(stats) => {
                if stats.state == CircuitState::Open {
                    let ghost before = open@;
                    let s = name.to_string();
                    open.push(s);
                    proof {
                        crate::client::lemma_names_push(before, s);
                    }
                }
            },
            None => {},
        }
        i = i + 1;
    }
    proof {
        assert(names_of(open@).len() == open@.len());
    }
    if open.len() == 0 {
        (CheckStatus::Pass, open)
    } else {
        (CheckStatus::Warn, open)
    }
}

} // verus!
