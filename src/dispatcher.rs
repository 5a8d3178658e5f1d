//! The full dispatch of one search: for each candidate in turn, consult the
//! cache, ask the rate limiter, ask the circuit breaker, and only then have
//! the host invoke the provider; record the outcome in the breaker and, on
//! success, in the cache. Each step handles one candidate, so the host's
//! loop runs `advance` and `complete` until the search is done.
use vstd::prelude::*;

use crate::cache::{cache_key, copy_results, CacheManager};
use crate::circuit_breaker::{
    admits, after_admission, after_failure, after_success, CircuitBreakerManager,
};
use crate::client::{
    after_provider_failure, current, ends_with, is_no_providers_error, is_unknown_provider_error,
    names_of, no_providers_error, planned,
    priority_order, winners, Dispatch, OmnisearchClient, SearchRequest, SearchResponse,
};
use crate::rate_limiter::{is_rate_limited_error, RateLimiterManager};
use crate::types::{BaseSearchParams, ErrorType, ProviderError, SearchResult};

verus! {

/// Whether `e` reports that the breaker of provider `p` is open.
pub open spec fn is_circuit_open_error(e: ProviderError, p: Seq<char>) -> bool {
    &&& e.error_type == ErrorType::ProviderError
    &&& e.message@ == "Circuit breaker is open for provider: "@ + p
    &&& e.provider@ == p
}

/// Where a search stands after a step.
pub enum Progress {
    /// The host should invoke this provider and report with `complete`.
    Invoke(Dispatch, String),
    /// The current candidate was passed over; `advance` goes on.
    Skipped(Dispatch),
    /// The search is over.
    Done(Result<SearchResponse, ProviderError>),
}

/// The registry of providers with the guards around them.
pub struct Dispatcher {
    pub registry: OmnisearchClient,
    pub cache: CacheManager,
    pub limiter: RateLimiterManager,
    pub breakers: CircuitBreakerManager,
    pub cache_ttl_seconds: u64,
}

/// The cache key of candidate `p` of the search `d`.
pub open spec fn candidate_key(d: Dispatch, p: Seq<char>) -> Seq<char> {
    cache_key(
        p,
        d.spec_params().query@,
        match d.spec_params().limit {
            Some(l) => Some(l as usize),
            None => None,
        },
    )
}

impl Dispatcher {
    pub open spec fn wf(&self) -> bool {
        &&& self.registry.wf()
        &&& self.limiter.wf()
        &&& self.breakers.wf()
    }

    /// Plans a search, as `OmnisearchClient::search` does.
    pub fn start(&self, request: SearchRequest) -> (r: Result<Dispatch, ProviderError>)
        requires
            self.wf(),
        ensures
            r matches Ok(d) ==> d.wf() && d.spec_params() == (BaseSearchParams {
                query: request.query,
                limit: request.limit,
                include_domains: request.include_domains,
                exclude_domains: request.exclude_domains,
            }),
            match request.preferred_provider {
                Some(p) => if self.registry.providers().contains(p@) {
                    r matches Ok(d) && d@ == planned(request.query@, seq![p@])
                } else {
                    r matches Err(e) && is_unknown_provider_error(e, p@)
                },
                None => r matches Ok(d) && d@ == planned(
                    request.query@,
                    priority_order().filter(self.registry.in_registry()),
                ),
            },
    {
        self.registry.search(request)
    }

    /// Handles the current candidate at `now_ms`. With none left the search
    /// ends with its last failure. Otherwise a cached answer ends it at once,
    /// without touching the limiter or the breaker; a refusal by the limiter,
    /// or by the breaker exactly when it does not admit the call, passes the
    /// candidate over as failed; else the candidate, admitted by both, is
    /// handed to the host to invoke. The cache is only read.
    pub fn advance(&mut self, d: Dispatch, now_ms: u64) -> (r: Progress)
        requires
            old(self).wf(),
            d.wf(),
        ensures
            final(self).wf(),
            final(self).registry == old(self).registry,
            final(self).cache == old(self).cache,
            final(self).limiter.is_enabled() == old(self).limiter.is_enabled(),
            final(self).breakers.is_enabled() == old(self).breakers.is_enabled(),
            current(d@) is None ==> (r matches Progress::Done(Err(e)) && ends_with(d@, e)
                && final(self).breakers.table() == old(self).breakers.table()),
            current(d@) matches Some(p) ==> ({
                let b = old(self).breakers.current(p, now_ms);
                let admitted = !old(self).breakers.is_enabled() || admits(b, now_ms);
                match r {
                    Progress::Done(Err(_)) => false,
                    Progress::Done(Ok(resp)) => {
                        &&& old(self).cache.is_enabled()
                        &&& old(self).cache.contents().get(candidate_key(d, p)) == Some(resp.results@)
                        &&& resp.cache_hit
                        &&& names_of(resp.providers_used@) == winners(d@)
                        &&& resp.query@ == d@.query
                        &&& final(self).breakers.table() == old(self).breakers.table()
                        &&& final(self).limiter.limited() == old(self).limiter.limited()
                    },
                    Progress::Skipped(d2) => {
                        &&& d2.wf()
                        &&& d2.spec_params() == d.spec_params()
                        &&& exists|e: ProviderError|
                            d2@ == after_provider_failure(d@, e) && ((old(self).limiter.is_enabled()
                                && is_rate_limited_error(e, p) && final(self).breakers.table()
                                == old(self).breakers.table()) || (is_circuit_open_error(e, p)
                                && !admitted && final(self).breakers.table()
                                == old(self).breakers.table().insert(p, b)))
                    },
                    Progress::Invoke(d2, q) => {
                        &&& admitted
                        &&& q@ == p
                        &&& d2@ == d@
                        &&& d2.wf()
                        &&& d2.spec_params() == d.spec_params()
                        &&& old(self).breakers.is_enabled() ==> final(self).breakers.table()
                            == old(self).breakers.table().insert(p, after_admission(b, now_ms))
                        &&& !old(self).breakers.is_enabled() ==> final(self).breakers.table()
                            == old(self).breakers.table()
                    },
                }
            }),
            (!old(self).cache.is_enabled() && !old(self).limiter.is_enabled()) ==> ((r is Invoke)
                <==> (current(d@) is Some && (!old(self).breakers.is_enabled() || admits(
                old(self).breakers.current(d@.candidates[d@.next], now_ms),
                now_ms,
            )))),
    {
        let p = match d.next_provider() {
            Some(p) => p,
            None => {
                return Progress::Done(Err(d.exhausted()));
            },
        };
        let key = self.key_for(&d, &p);
        match self.cache.get(key.as_str()) {
            Ok(Some(v)) => {
                return Progress::Done(Ok(d.succeed_from_cache(v)));
            },
            _ => {},
        }
        let ghost d0 = d@;
        let mut d = d;
        match self.limiter.check_rate_limit(p.as_str()) {
            Err(e) => {
                let ghost e0 = e;
                d.record_failure(e);
                proof {
                    assert(is_rate_limited_error(e0, d0.candidates[d0.next]));
                    assert(d@ == after_provider_failure(d0, e0));
                }
                return Progress::Skipped(d);
            },
            Ok(()) => {},
        }
        if !self.breakers.try_acquire(p.as_str(), now_ms) {
            let mut m = String::from_str("Circuit breaker is open for provider: ");
            m.append(p.as_str());
            let e = ProviderError::new(ErrorType::ProviderError, m, p);
            let ghost e0 = e;
            d.record_failure(e);
            proof {
                assert(is_circuit_open_error(e0, d0.candidates[d0.next]));
                assert(d@ == after_provider_failure(d0, e0));
            }
            return Progress::Skipped(d);
        }
        Progress::Invoke(d, p)
    }

    /// The cache key of the current candidate.
    fn key_for(&self, d: &Dispatch, p: &String) -> (r: String)
        ensures
            r@ == candidate_key(*d, p@),
    {
        let params = d.params();
        let limit: Option<usize> = match params.limit {
            Some(l) => Some(l as usize),
            None => None,
        };
        CacheManager::generate_cache_key(p.as_str(), params.query.as_str(), limit)
    }

    /// Records what the invoked provider returned at `now_ms`. Success ends
    /// the search with its results, which are also cached under the
    /// candidate's key; failure passes the candidate over and leaves the
    /// cache as it was.
    pub fn complete(
        &mut self,
        d: Dispatch,
        outcome: Result<Vec<SearchResult>, ProviderError>,
        now_ms: u64,
    ) -> (r: Progress)
        requires
            old(self).wf(),
            d.wf(),
            current(d@) is Some,
        ensures
            final(self).wf(),
            final(self).registry == old(self).registry,
            final(self).limiter == old(self).limiter,
            final(self).cache.is_enabled() == old(self).cache.is_enabled(),
            final(self).breakers.is_enabled() == old(self).breakers.is_enabled(),
            ({
                let p = d@.candidates[d@.next];
                let b = old(self).breakers.current(p, now_ms);
                match outcome {
                    Ok(results) => {
                        &&& r matches Progress::Done(Ok(resp)) && resp.results == results
                            && names_of(resp.providers_used@) == winners(d@) && !resp.cache_hit
                            && resp.query@ == d@.query
                        &&& old(self).breakers.is_enabled() ==> final(self).breakers.table()
                            == old(self).breakers.table().insert(p, after_success(b, now_ms))
                        &&& old(self).cache.is_enabled() ==> final(self).cache.contents()
                            == old(self).cache.contents().insert(candidate_key(d, p), results@)
                        &&& !old(self).cache.is_enabled() ==> final(self).cache.contents()
                            == old(self).cache.contents()
                    },
                    Err(e) => {
                        &&& r matches Progress::Skipped(d2) && d2@ == after_provider_failure(d@, e)
                            && d2.wf() && d2.spec_params() == d.spec_params()
                        &&& old(self).breakers.is_enabled() ==> final(self).breakers.table()
                            == old(self).breakers.table().insert(p, after_failure(b, now_ms))
                        &&& final(self).cache == old(self).cache
                    },
                }
            }),
    {
        let p = match d.next_provider() {
            Some(p) => p,
            None => {
                return Progress::Done(Err(d.exhausted()));
            },
        };
        match outcome {
            Ok(results) => {
                self.breakers.record_outcome(p.as_str(), true, now_ms);
                let key = self.key_for(&d, &p);
                let copy = copy_results(&results);
                let _ = self.cache.set(key.as_str(), copy, self.cache_ttl_seconds);
                Progress::Done(Ok(d.succeed(results)))
            },
            Err(e) => {
                self.breakers.record_outcome(p.as_str(), false, now_ms);
                let mut d = d;
                d.record_failure(e);
                Progress::Skipped(d)
            },
        }
    }

    /// Runs a whole search at `now_ms`, with `invoke` calling a provider by
    /// name. A successful answer comes from the cache or from the one provider
    /// that it names, and that provider was planned; a failed search stores
    /// nothing in the cache and ends with the refusal of the preferred
    /// provider, the "no providers" error, or the last failure: a provider's
    /// own error or a refusal by its limiter or breaker.
    pub fn search_with<F>(&mut self, request: SearchRequest, now_ms: u64, invoke: F) -> (r: Result<
        SearchResponse,
        ProviderError,
    >) where F: Fn(&String, &BaseSearchParams) -> Result<Vec<SearchResult>, ProviderError>
        requires
            old(self).wf(),
            forall|p: &String, q: &BaseSearchParams| #[trigger] invoke.requires((p, q)),
        ensures
            final(self).wf(),
            final(self).registry == old(self).registry,
            r matches Ok(resp) ==> {
                &&& resp.query@ == request.query@
                &&& names_of(resp.providers_used@).len() == 1
                &&& old(self).registry.providers().contains(names_of(resp.providers_used@)[0])
                &&& resp.cache_hit ==> old(self).cache.contents().contains_key(
                    cache_key(
                        names_of(resp.providers_used@)[0],
                        request.query@,
                        match request.limit {
                            Some(l) => Some(l as usize),
                            None => None,
                        },
                    ),
                )
                &&& !resp.cache_hit ==> exists|s: String, q: BaseSearchParams|
                    s@ == names_of(resp.providers_used@)[0] && q.query == request.query
                        && #[trigger] invoke.ensures((&s, &q), Ok(resp.results))
            },
            r matches Err(e) ==> {
                &&& final(self).cache.contents() == old(self).cache.contents()
                &&& (match request.preferred_provider {
                    Some(p) => is_unknown_provider_error(e, p@),
                    None => false,
                }) || is_no_providers_error(e) || (exists|s: String, q: BaseSearchParams|
                    #[trigger] invoke.ensures((&s, &q), Err(e))) || (exists|p: Seq<char>|
                    is_rate_limited_error(e, p) || is_circuit_open_error(e, p))
            },
    {
        let ghost query0 = request.query;
        let ghost pref = request.preferred_provider;
        let ghost limit0 = request.limit;
        let mut d = match self.start(request) {
            Ok(d) => d,
            Err(e) => {
                return Err(e);
            },
        };
        let ghost contents0 = self.cache.contents();
        let ghost cands = d@.candidates;
        loop
            invariant
                self.wf(),
                d.wf(),
                self.registry == old(self).registry,
                self.cache.contents() == contents0,
                contents0 == old(self).cache.contents(),
                d@.candidates == cands,
                d@.query == query0@,
                d.spec_params().query == query0,
                d.spec_params().limit == limit0,
                query0 == request.query,
                limit0 == request.limit,
                d@.next >= 0,
                forall|i: int| 0 <= i < cands.len() ==> old(self).registry.providers().contains(#[trigger] cands[i]),
                forall|p: &String, q: &BaseSearchParams| #[trigger] invoke.requires((p, q)),
                d@.last_error matches Some(le) ==> ((exists|s: String, q: BaseSearchParams|
                    #[trigger] invoke.ensures((&s, &q), Err(le))) || (exists|p: Seq<char>|
                    is_rate_limited_error(le, p) || is_circuit_open_error(le, p))),
            decreases cands.len() - d@.next,
        {
            let ghost db = d;
            match self.advance(d, now_ms) {
                Progress::Done(r) => {
                    proof {
                        if r is Ok {
                            assert(current(db@) is Some);
                            assert(old(self).registry.providers().contains(cands[db@.next]));
                            assert(names_of(r->Ok_0.providers_used@) == winners(db@));
                            assert(old(self).cache.contents().contains_key(candidate_key(db, cands[db@.next])));
                        }
                    }
                    return r;
                },
                Progress::Skipped(d2) => {
                    d = d2;
                },
                Progress::Invoke(d2, p) => {
                    let ghost db2 = d2;
                    let prm = d2.params();
                    let out = invoke(&p, prm);
                    let ghost q = *prm;
                    match self.complete(d2, out, now_ms) {
                        Progress::Done(r) => {
                            proof {
                                assert(current(db2@) == Some(p@));
                                assert(old(self).registry.providers().contains(cands[db2@.next]));
                                if r is Ok {
                                    assert(names_of(r->Ok_0.providers_used@) == winners(db2@));
                                    assert(out == Ok::<Vec<SearchResult>, ProviderError>(r->Ok_0.results));
                                    assert(invoke.ensures((&p, &q), Ok(r->Ok_0.results)));
                                    assert(q.query == query0);
                                }
                            }
                            return r;
                        },
                        Progress::Skipped(d3) => {
                            proof {
                                if out is Err {
                                    assert(invoke.ensures((&p, &q), Err(out->Err_0)));
                                }
                            }
                            d = d3;
                        },
                        Progress::Invoke(..) => {
                            return Err(no_providers_error());
                        },
                    }
                },
            }
        }
    }
}

} // verus!
