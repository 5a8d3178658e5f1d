//! Rate limiting: one token-bucket limiter per provider name, created on
//! first use. The buckets themselves are `governor` limiters, which refill
//! continuously on their own clock; whether one has a token at a given
//! moment is therefore not stated here.
use vstd::prelude::*;

use crate::client::{lemma_names_push, names_of};
use crate::config::{ConfigError, ProvidersConfig, RateLimitingConfig};
use crate::types::{ErrorType, ProviderError};

verus! {

/// One provider's token bucket: a governor limiter with a per-minute quota,
/// held opaque and reached only through the two functions below.
#[verifier::external_body]
pub struct ProviderLimiter {
    inner: governor::RateLimiter<
        governor::state::NotKeyed,
        governor::state::InMemoryState,
        governor::clock::DefaultClock,
    >,
}

/// Relies on governor's `RateLimiter::direct` with `Quota::per_minute`: a
/// limiter that admits `per_minute` requests a minute, refilled steadily.
/// The quota must not be zero.
#[verifier::external_body]
fn new_limiter(per_minute: u32) -> ProviderLimiter
    requires
        per_minute > 0,
{
    ProviderLimiter {
        inner: governor::RateLimiter::direct(governor::Quota::per_minute(
            std::num::NonZeroU32::new(per_minute).unwrap(),
        )),
    }
}

/// Relies on governor's `RateLimiter::check`: whether a token was available
/// now, taking it if so.
#[verifier::external_body]
fn limiter_check(limiter: &ProviderLimiter) -> bool {
    limiter.inner.check().is_ok()
}

/// Whether `s` reads `lit`.
pub fn name_is(s: &String, lit: &str) -> (r: bool)
    ensures
        r == (s@ == lit@),
{
    *s == lit.to_string()
}

/// The quota, in requests per minute, of provider `p`: its configured rate
/// limit, or 60 for a provider the configuration does not know.
pub open spec fn rate_limit_for(c: ProvidersConfig, p: Seq<char>) -> u32 {
    if p == "tavily"@ {
        c.tavily.rate_limit
    } else if p == "google"@ {
        c.google.rate_limit
    } else if p == "reddit"@ {
        c.reddit.rate_limit
    } else if p == "duckduckgo"@ {
        c.duckduckgo.rate_limit
    } else if p == "baidu"@ {
        c.baidu.rate_limit
    } else if p == "exa"@ {
        c.exa.rate_limit
    } else if p == "brave"@ {
        c.brave.rate_limit
    } else if p == "kagi"@ {
        c.kagi.rate_limit
    } else if p == "perplexity"@ {
        c.perplexity.rate_limit
    } else if p == "jina"@ {
        c.jina.rate_limit
    } else if p == "firecrawl"@ {
        c.firecrawl.rate_limit
    } else if p == "brightdata"@ {
        c.brightdata.rate_limit
    } else {
        60
    }
}

/// Whether every configured quota admits at least one request.
pub open spec fn quotas_positive(c: ProvidersConfig) -> bool {
    &&& c.tavily.rate_limit > 0
    &&& c.google.rate_limit > 0
    &&& c.reddit.rate_limit > 0
    &&& c.duckduckgo.rate_limit > 0
    &&& c.baidu.rate_limit > 0
    &&& c.exa.rate_limit > 0
    &&& c.brave.rate_limit > 0
    &&& c.kagi.rate_limit > 0
    &&& c.perplexity.rate_limit > 0
    &&& c.jina.rate_limit > 0
    &&& c.firecrawl.rate_limit > 0
    &&& c.brightdata.rate_limit > 0
}

/// Whether `e` reports that provider `p` is over its quota.
pub open spec fn is_rate_limited_error(e: ProviderError, p: Seq<char>) -> bool {
    &&& e.error_type == ErrorType::RateLimit
    &&& e.message@ == "Rate limit exceeded for provider: "@ + p
    &&& e.provider@ == p
}

/// A snapshot of one provider's limiter.
#[derive(Debug, Clone)]
pub struct RateLimiterStats {
    pub provider: String,
    /// Requests left in the current burst, where the limiter reports it.
    pub remaining_burst: u32,
    /// Milliseconds until the next token, where the limiter reports it.
    pub next_replenishment_ms: Option<u64>,
}

/// One limiter per provider name. A disabled registry admits everything and
/// keeps no limiter.
pub struct RateLimiterManager {
    names: Vec<String>,
    limiters: Vec<ProviderLimiter>,
    enabled: bool,
    providers: ProvidersConfig,
}

impl RateLimiterManager {
    /// The providers that have a limiter.
    pub closed spec fn limited(&self) -> Seq<Seq<char>> {
        names_of(self.names@)
    }

    pub closed spec fn is_enabled(&self) -> bool {
        self.enabled
    }

    pub closed spec fn quotas(&self) -> ProvidersConfig {
        self.providers
    }

    pub closed spec fn wf(&self) -> bool {
        &&& self.names@.len() == self.limiters@.len()
        &&& forall|i: int, j: int|
            0 <= i < self.names@.len() && 0 <= j < self.names@.len() && i != j ==> self.names@[i]@
                != self.names@[j]@
        &&& self.enabled ==> quotas_positive(self.providers)
    }

    /// An empty registry with the quotas of `providers`. An enabled registry
    /// with a zero quota is refused.
    pub fn new(config: &RateLimitingConfig, providers: ProvidersConfig) -> (r: Result<Self, ConfigError>)
        ensures
            (r is Err) == (config.enabled && !quotas_positive(providers)),
            r is Err ==> r == Err::<Self, ConfigError>(ConfigError::ZeroQuota),
            r matches Ok(m) ==> {
                &&& m.wf()
                &&& m.limited() == Seq::<Seq<char>>::empty()
                &&& m.is_enabled() == config.enabled
                &&& m.quotas() == providers
            },
    {
        if config.enabled && !Self::all_positive(&providers) {
            return Err(ConfigError::ZeroQuota);
        }
        let m = RateLimiterManager {
            names: Vec::new(),
            limiters: Vec::new(),
            enabled: config.enabled,
            providers,
        };
        proof {
            assert(m.limited() =~= Seq::<Seq<char>>::empty());
        }
        Ok(m)
    }

    fn all_positive(c: &ProvidersConfig) -> (r: bool)
        ensures
            r == quotas_positive(*c),
    {
        c.tavily.rate_limit > 0 &&
        c.google.rate_limit > 0 &&
        c.reddit.rate_limit > 0 &&
        c.duckduckgo.rate_limit > 0 &&
        c.baidu.rate_limit > 0 &&
        c.exa.rate_limit > 0 &&
        c.brave.rate_limit > 0 &&
        c.kagi.rate_limit > 0 &&
        c.perplexity.rate_limit > 0 &&
        c.jina.rate_limit > 0 &&
        c.firecrawl.rate_limit > 0 &&
        c.brightdata.rate_limit > 0
    }

    /// The quota of `provider`, in requests per minute.
    pub fn get_provider_rate_limit(&self, provider: &str) -> (r: u32)
        ensures
            r == rate_limit_for(self.quotas(), provider@),
    {
        let key = provider.to_string();
        if name_is(&key, "tavily") {
            self.providers.tavily.rate_limit
        } else if name_is(&key, "google") {
            self.providers.google.rate_limit
        } else if name_is(&key, "reddit") {
            self.providers.reddit.rate_limit
        } else if name_is(&key, "duckduckgo") {
            self.providers.duckduckgo.rate_limit
        } else if name_is(&key, "baidu") {
            self.providers.baidu.rate_limit
        } else if name_is(&key, "exa") {
            self.providers.exa.rate_limit
        } else if name_is(&key, "brave") {
            self.providers.brave.rate_limit
        } else if name_is(&key, "kagi") {
            self.providers.kagi.rate_limit
        } else if name_is(&key, "perplexity") {
            self.providers.perplexity.rate_limit
        } else if name_is(&key, "jina") {
            self.providers.jina.rate_limit
        } else if name_is(&key, "firecrawl") {
            self.providers.firecrawl.rate_limit
        } else if name_is(&key, "brightdata") {
            self.providers.brightdata.rate_limit
        } else {
            60
        }
    }

    /// The position of `provider`, if it has a limiter.
    fn find(&self, provider: &String) -> (r: Option<usize>)
        requires
            self.wf(),
        ensures
            r matches Some(i) ==> i < self.names@.len() && self.names@[i as int]@ == provider@,
            r is None ==> !self.limited().contains(provider@),
    {
        let mut i: usize = 0;
        while i < self.names.len()
            invariant
                self.wf(),
                i <= self.names@.len(),
                forall|j: int| 0 <= j < i ==> self.names@[j]@ != provider@,
            decreases self.names@.len() - i,
        {
            if self.names[i] == *provider {
                return Some(i);
            }
            i = i + 1;
        }
        proof {
            if self.limited().contains(provider@) {
                let k = choose|k: int| 0 <= k < self.limited().len() && self.limited()[k] == provider@;
                assert(self.names@[k]@ == provider@);
            }
        }
        None
    }

    /// The position of the limiter of `provider`, created with its quota if
    /// it has none yet. The limiter returned is the stored one.
    fn get_or_create_limiter(&mut self, provider: &String) -> (r: usize)
        requires
            old(self).wf(),
            old(self).is_enabled(),
        ensures
            final(self).wf(),
            r < final(self).names@.len(),
            final(self).names@[r as int]@ == provider@,
            old(self).limited().contains(provider@) ==> final(self).limited() == old(self).limited(),
            !old(self).limited().contains(provider@) ==> final(self).limited() == old(self).limited().push(provider@),
            final(self).is_enabled() == old(self).is_enabled(),
            final(self).quotas() == old(self).quotas(),
    {
        match self.find(provider) {
            Some(i) => {
                proof {
                    assert(self.limited()[i as int] == provider@);
                }
                i
            },
            None => {
                let quota = self.get_provider_rate_limit(provider.as_str());
                let limiter = new_limiter(quota);
                let ghost pre = *self;
                proof {
                    assert forall|k: int| 0 <= k < pre.names@.len() implies pre.names@[k]@ != provider@ by {
                        if pre.names@[k]@ == provider@ {
                            assert(pre.limited()[k] == provider@);
                        }
                    }
                }
                let name = provider.clone();
                self.names.push(name);
                self.limiters.push(limiter);
                proof {
                    lemma_names_push(pre.names@, name);
                }
                self.names.len() - 1
            },
        }
    }

    /// Admits or refuses a request to `provider` now. A disabled registry
    /// admits every request and keeps no limiter; an enabled one creates
    /// the provider's limiter on first use and asks it for a token.
    pub fn check_rate_limit(&mut self, provider: &str) -> (r: Result<(), ProviderError>)
        requires
            old(self).wf(),
        ensures
            final(self).wf(),
            final(self).is_enabled() == old(self).is_enabled(),
            final(self).quotas() == old(self).quotas(),
            !old(self).is_enabled() ==> r is Ok && final(self).limited() == old(self).limited(),
            old(self).is_enabled() ==> final(self).limited().contains(provider@),
            old(self).is_enabled() && old(self).limited().contains(provider@) ==> final(self).limited()
                == old(self).limited(),
            old(self).is_enabled() && !old(self).limited().contains(provider@) ==> final(self).limited()
                == old(self).limited().push(provider@),
            r matches Err(e) ==> is_rate_limited_error(e, provider@),
    {
        if !self.enabled {
            return Ok(());
        }
        let key = provider.to_string();
        let i = self.get_or_create_limiter(&key);
        proof {
            assert(self.limited()[i as int] == provider@);
        }
        if limiter_check(&self.limiters[i]) {
            Ok(())
        } else {
            let mut m = String::from_str("Rate limit exceeded for provider: ");
            m.append(provider);
            Err(ProviderError::new(ErrorType::RateLimit, m, key))
        }
    }

    /// Drops the limiter of `provider`; its next request starts a fresh one.
    pub fn reset_limiter(&mut self, provider: &str)
        requires
            old(self).wf(),
        ensures
            final(self).wf(),
            final(self).is_enabled() == old(self).is_enabled(),
            final(self).quotas() == old(self).quotas(),
            !final(self).limited().contains(provider@),
            forall|n: Seq<char>| n != provider@ ==> (#[trigger] final(self).limited().contains(n) <==> old(self).limited().contains(n)),
    {
        let key = provider.to_string();
        match self.find(&key) {
            Some(i) => {
                let ghost pre = *self;
                self.names.remove(i);
                self.limiters.remove(i);
                proof {
                    assert(self.limited() =~= pre.limited().remove(i as int));
                    assert forall|n: Seq<char>| n != provider@ implies (#[trigger] self.limited().contains(n) <==> pre.limited().contains(n)) by {
                        if pre.limited().contains(n) {
                            let k = choose|k: int| 0 <= k < pre.limited().len() && pre.limited()[k] == n;
                            if k < i {
                                assert(self.limited()[k] == n);
                            } else {
                                assert(k != i);
                                assert(self.limited()[k - 1] == n);
                            }
                        }
                        if self.limited().contains(n) {
                            let k = choose|k: int| 0 <= k < self.limited().len() && self.limited()[k] == n;
                            if k < i {
                                assert(pre.limited()[k] == n);
                            } else {
                                assert(pre.limited()[k + 1] == n);
                            }
                        }
                    }
                    if self.limited().contains(provider@) {
                        let k = choose|k: int| 0 <= k < self.limited().len() && self.limited()[k] == provider@;
                        if k < i {
                            assert(pre.names@[k]@ == provider@);
                        } else {
                            assert(pre.names@[k + 1]@ == provider@);
                        }
                    }
                }
            },
            None => {},
        }
    }

    /// A snapshot of the limiter of `provider`; none if the registry is
    /// disabled or the provider has no limiter. The bucket's fill level is
    /// not read out of the limiter, so the snapshot reports a burst of 0 and
    /// a refill delay of 0.
    pub fn get_limiter_stats(&self, provider: &str) -> (r: Option<RateLimiterStats>)
        requires
            self.wf(),
        ensures
            (r is Some) == (self.is_enabled() && self.limited().contains(provider@)),
            r matches Some(s) ==> s.provider@ == provider@ && s.remaining_burst == 0
                && s.next_replenishment_ms == Some(0u64),
    {
        if !self.enabled {
            return None;
        }
        let key = provider.to_string();
        match self.find(&key) {
            Some(i) => {
                proof {
                    assert(self.limited()[i as int] == provider@);
                }
                Some(RateLimiterStats { provider: key, remaining_burst: 0, next_replenishment_ms: Some(0) })
            },
            None => None,
        }
    }
}

} // verus!
