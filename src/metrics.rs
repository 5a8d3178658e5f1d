//! Per-provider request statistics: counts of requests, successes,
//! failures and cache hits, and the time spent. Durations are whole
//! milliseconds; counters stop at their largest value.
use vstd::prelude::*;

use crate::client::names_of;

verus! {

/// One observed request.
#[derive(Debug, Clone)]
pub struct RequestMetrics {
    pub provider: String,
    pub operation: String,
    pub duration_ms: u64,
    pub success: bool,
    pub response_size: Option<usize>,
    pub cache_hit: bool,
}

/// The running totals of one provider.
#[derive(Debug, Clone, Copy, PartialEq, Eq, Structural)]
pub struct ProviderStats {
    pub total_requests: u64,
    pub successful_requests: u64,
    pub failed_requests: u64,
    pub total_duration_ms: u64,
    pub cache_hits: u64,
    pub avg_response_time_ms: u64,
    pub last_request_time: Option<u64>,
}

/// `n + k`, stopping at the largest value.
pub open spec fn sat_add(n: u64, k: u64) -> u64 {
    if n as int + k as int <= u64::MAX as int {
        (n + k) as u64
    } else {
        u64::MAX
    }
}

/// A count of one for a condition that holds.
pub open spec fn bump(n: u64, b: bool) -> u64 {
    if b {
        sat_add(n, 1)
    } else {
        n
    }
}

/// The totals after a request of `duration_ms` observed at `now_ms`.
pub open spec fn recorded(s: ProviderStats, success: bool, cache_hit: bool, duration_ms: u64, now_ms: u64) -> ProviderStats {
    let total = sat_add(s.total_requests, 1);
    let spent = sat_add(s.total_duration_ms, duration_ms);
    ProviderStats {
        total_requests: total,
        successful_requests: bump(s.successful_requests, success),
        failed_requests: bump(s.failed_requests, !success),
        total_duration_ms: spent,
        cache_hits: bump(s.cache_hits, cache_hit),
        avg_response_time_ms: (spent / total) as u64,
        last_request_time: Some(now_ms),
    }
}

fn add_sat(n: u64, k: u64) -> (r: u64)
    ensures
        r == sat_add(n, k),
{
    if n <= u64::MAX - k {
        n + k
    } else {
        u64::MAX
    }
}

impl ProviderStats {
    /// No request yet.
    pub fn new() -> (r: Self)
        ensures
            r == (ProviderStats {
                total_requests: 0,
                successful_requests: 0,
                failed_requests: 0,
                total_duration_ms: 0,
                cache_hits: 0,
                avg_response_time_ms: 0,
                last_request_time: None,
            }),
    {
        ProviderStats {
            total_requests: 0,
            successful_requests: 0,
            failed_requests: 0,
            total_duration_ms: 0,
            cache_hits: 0,
            avg_response_time_ms: 0,
            last_request_time: None,
        }
    }

    /// Adds one request to the totals.
    pub fn record(&mut self, m: &RequestMetrics, now_ms: u64)
        ensures
            *final(self) == recorded(*old(self), m.success, m.cache_hit, m.duration_ms, now_ms),
    {
        let total = add_sat(self.total_requests, 1);
        let spent = add_sat(self.total_duration_ms, m.duration_ms);
        self.total_requests = total;
        if m.success {
            self.successful_requests = add_sat(self.successful_requests, 1);
        } else {
            self.failed_requests = add_sat(self.failed_requests, 1);
        }
        if m.cache_hit {
            self.cache_hits = add_sat(self.cache_hits, 1);
        }
        self.total_duration_ms = spent;
        self.avg_response_time_ms = spent / total;
        self.last_request_time = Some(now_ms);
    }
}

/// The statistics of every provider seen, kept only when enabled.
pub struct MetricsCollector {
    enabled: bool,
    names: Vec<String>,
    stats: Vec<ProviderStats>,
}

impl MetricsCollector {
    pub closed spec fn is_enabled(&self) -> bool {
        self.enabled
    }

    /// The providers with statistics, in order of first request.
    pub closed spec fn providers(&self) -> Seq<Seq<char>> {
        names_of(self.names@)
    }

    /// The statistics of each provider, in the same order.
    pub closed spec fn totals(&self) -> Seq<ProviderStats> {
        self.stats@
    }

    pub closed spec fn wf(&self) -> bool {
        &&& self.names@.len() == self.stats@.len()
        &&& forall|i: int, j: int|
            0 <= i < self.names@.len() && 0 <= j < self.names@.len() && i != j ==> self.names@[i]@
                != self.names@[j]@
    }

    /// A collector with no statistics.
    pub fn new(enabled: bool) -> (r: Self)
        ensures
            r.wf(),
            r.is_enabled() == enabled,
            r.providers().len() == 0,
    {
        let r = MetricsCollector { enabled, names: Vec::new(), stats: Vec::new() };
        proof {
            assert(r.providers() =~= Seq::<Seq<char>>::empty());
        }
        r
    }

    pub fn is_enabled_now(&self) -> (r: bool)
        ensures
            r == self.is_enabled(),
    {
        self.enabled
    }

    fn find(&self, provider: &String) -> (r: Option<usize>)
        requires
            self.wf(),
        ensures
            r matches Some(i) ==> i < self.names@.len() && self.names@[i as int]@ == provider@,
            r is None ==> !self.providers().contains(provider@),
    {
        let mut i: usize = 0;
        while i < self.names.len()
            invariant
                self.wf(),
                i <= self.names@.len(),
                forall|j: int| 0 <= j < i ==> self.names@[j]@ != provider@,
            decreases self.names@.len() - i,
        {
            if self.names[i] == *provider {
                return Some(i);
            }
            i = i + 1;
        }
        proof {
            if self.providers().contains(provider@) {
                let k = choose|k: int| 0 <= k < self.providers().len() && self.providers()[k] == provider@;
                assert(self.names@[k]@ == provider@);
            }
        }
        None
    }

    /// Adds one request to the statistics of its provider, starting them if
    /// the provider is new. A disabled collector records nothing.
    pub fn record_request(&mut self, m: &RequestMetrics, now_ms: u64)
        requires
            old(self).wf(),
        ensures
            final(self).wf(),
            final(self).is_enabled() == old(self).is_enabled(),
            !old(self).is_enabled() ==> final(self).providers() == old(self).providers()
                && final(self).totals() == old(self).totals(),
            old(self).is_enabled() ==> ({
                let p = m.provider@;
                if old(self).providers().contains(p) {
                    let i = old(self).providers().index_of(p);
                    &&& final(self).providers() == old(self).providers()
                    &&& final(self).totals() == old(self).totals().update(
                        i,
                        recorded(old(self).totals()[i], m.success, m.cache_hit, m.duration_ms, now_ms),
                    )
                } else {
                    &&& final(self).providers() == old(self).providers().push(p)
                    &&& final(self).totals() == old(self).totals().push(
                        recorded(ProviderStats::new_spec(), m.success, m.cache_hit, m.duration_ms, now_ms),
                    )
                }
            }),
    {
        if !self.enabled {
            return;
        }
        match self.find(&m.provider) {
            Some(i) => {
                proof {
                    assert(self.providers()[i as int] == m.provider@);
                    self.lemma_index_of(i as int);
                }
                self.stats[i].record(m, now_ms);
                proof {
                    assert(self.providers() =~= old(self).providers());
                }
            },
            None => {
                let ghost pre = *self;
                proof {
                    assert forall|k: int| 0 <= k < pre.names@.len() implies pre.names@[k]@ != m.provider@ by {
                        if pre.names@[k]@ == m.provider@ {
                            assert(pre.providers()[k] == m.provider@);
                        }
                    }
                }
                let mut s = ProviderStats::new();
                s.record(m, now_ms);
                let name = m.provider.clone();
                self.names.push(name);
                self.stats.push(s);
                proof {
                    crate::client::lemma_names_push(pre.names@, name);
                }
            },
        }
    }

    proof fn lemma_index_of(&self, i: int)
        requires
            self.wf(),
            0 <= i < self.names@.len(),
        ensures
            self.providers().contains(self.providers()[i]),
            self.providers().index_of(self.providers()[i]) == i,
    {
        let p = self.providers()[i];
        assert(self.providers()[i] == p);
        let k = self.providers().index_of(p);
        assert(0 <= k < self.providers().len() && self.providers()[k] == p);
        assert(self.names@[k]@ == self.names@[i]@);
    }

    /// The statistics of `provider`; none if disabled or never seen.
    pub fn get_provider_stats(&self, provider: &str) -> (r: Option<ProviderStats>)
        requires
            self.wf(),
        ensures
            (r is Some) == (self.is_enabled() && self.providers().contains(provider@)),
            r matches Some(s) ==> s == self.totals()[self.providers().index_of(provider@)],
    {
        if !self.enabled {
            return None;
        }
        let key = provider.to_string();
        match self.find(&key) {
            Some(i) => {
                proof {
                    assert(self.providers()[i as int] == provider@);
                    self.lemma_index_of(i as int);
                }
                Some(self.stats[i])
            },
            None => None,
        }
    }

    /// Forgets the statistics of `provider`, or of every provider.
    pub fn reset_stats(&mut self, provider: Option<&str>)
        requires
            old(self).wf(),
        ensures
            final(self).wf(),
            final(self).is_enabled() == old(self).is_enabled(),
            !old(self).is_enabled() ==> final(self).providers() == old(self).providers(),
            old(self).is_enabled() && provider is None ==> final(self).providers().len() == 0,
            old(self).is_enabled() && provider is Some ==> !final(self).providers().contains(
                provider->Some_0@,
            ),
    {
        if !self.enabled {
            return;
        }
        match provider {
            None => {
                self.names = Vec::new();
                self.stats = Vec::new();
                proof {
                    assert(self.providers() =~= Seq::<Seq<char>>::empty());
                }
            },
            Some(p) => {
                let key = p.to_string();
                match self.find(&key) {
                    Some(i) => {
                        let ghost pre = *self;
                        self.names.remove(i);
                        self.stats.remove(i);
                        proof {
                            if self.providers().contains(p@) {
                                let k = choose|k: int| 0 <= k < self.providers().len() && self.providers()[k] == p@;
                                if k < i {
                                    assert(pre.names@[k]@ == p@);
                                } else {
                                    assert(pre.names@[k + 1]@ == p@);
                                }
                            }
                        }
                    },
                    None => {},
                }
            },
        }
    }
}

impl ProviderStats {
    pub open spec fn new_spec() -> ProviderStats {
        ProviderStats {
            total_requests: 0,
            successful_requests: 0,
            failed_requests: 0,
            total_duration_ms: 0,
            cache_hits: 0,
            avg_response_time_ms: 0,
            last_request_time: None,
        }
    }
}

} // verus!
