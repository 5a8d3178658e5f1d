//! Circuit breaker: one three-state machine per provider that gates calls to
//! that provider. Time is a plain count of milliseconds on the caller's clock.
use vstd::prelude::*;

use crate::config::{CircuitBreakerConfig, ConfigError};

verus! {

/// The three states of a breaker.
#[derive(Debug, Clone, Copy, PartialEq, Eq, Structural)]
pub enum CircuitState {
    /// Normal operation: calls pass through.
    Closed,
    /// Failing: calls are rejected without being attempted.
    Open,
    /// Probing: a bounded number of trial calls are let through.
    HalfOpen,
}

/// The abstract state of a breaker: its configuration and its counters.
pub struct BreakerView {
    pub failure_threshold: u32,
    pub timeout_ms: u64,
    pub half_open_max_calls: u32,
    pub failure_count: u32,
    pub success_count: u32,
    pub state: CircuitState,
    pub last_failure_time: Option<u64>,
    pub state_changed_at: u64,
    pub half_open_calls: u32,
}

/// Milliseconds from `since` to `now`; a clock that went backwards counts as
/// no time at all.
pub open spec fn elapsed(now: u64, since: u64) -> int {
    if now >= since {
        now - since
    } else {
        0
    }
}

/// A counter increment that stops at the largest value.
pub open spec fn sat_inc(n: u32) -> u32 {
    if n < u32::MAX {
        (n + 1) as u32
    } else {
        n
    }
}

/// An open breaker whose timeout has run out lets the next call through.
pub open spec fn reset_due(v: BreakerView, now: u64) -> bool {
    v.state == CircuitState::Open && elapsed(now, v.state_changed_at) >= v.timeout_ms
}

/// Whether a call attempted at `now` is admitted.
pub open spec fn admits(v: BreakerView, now: u64) -> bool {
    match v.state {
        CircuitState::Closed => true,
        CircuitState::Open => reset_due(v, now),
        CircuitState::HalfOpen => v.half_open_calls < v.half_open_max_calls,
    }
}

/// The state once a call attempted at `now` has been admitted. An open
/// breaker whose timeout has run out becomes half-open before the call, and
/// that call is its first trial.
pub open spec fn after_admission(v: BreakerView, now: u64) -> BreakerView {
    match v.state {
        CircuitState::Closed => v,
        CircuitState::Open => BreakerView {
            state: CircuitState::HalfOpen,
            state_changed_at: now,
            half_open_calls: 1,
            ..v
        },
        CircuitState::HalfOpen => BreakerView { half_open_calls: (v.half_open_calls + 1) as u32, ..v },
    }
}

/// The state after an admitted call succeeded at `now`.
pub open spec fn after_success(v: BreakerView, now: u64) -> BreakerView {
    let v1 = BreakerView { success_count: sat_inc(v.success_count), ..v };
    match v.state {
        CircuitState::HalfOpen => BreakerView {
            state: CircuitState::Closed,
            state_changed_at: now,
            failure_count: 0,
            half_open_calls: 0,
            ..v1
        },
        CircuitState::Closed => BreakerView { failure_count: 0, ..v1 },
        CircuitState::Open => v1,
    }
}

/// The state after an admitted call failed at `now`.
pub open spec fn after_failure(v: BreakerView, now: u64) -> BreakerView {
    let v1 = BreakerView {
        failure_count: sat_inc(v.failure_count),
        last_failure_time: Some(now),
        ..v
    };
    match v.state {
        CircuitState::Closed => if v1.failure_count >= v.failure_threshold {
            BreakerView { state: CircuitState::Open, state_changed_at: now, ..v1 }
        } else {
            v1
        },
        CircuitState::HalfOpen => BreakerView {
            state: CircuitState::Open,
            state_changed_at: now,
            half_open_calls: 0,
            ..v1
        },
        CircuitState::Open => v1,
    }
}

/// A breaker as it is created: closed, with every counter at zero.
pub open spec fn fresh(
    failure_threshold: u32,
    timeout_ms: u64,
    half_open_max_calls: u32,
    now: u64,
) -> BreakerView {
    BreakerView {
        failure_threshold,
        timeout_ms,
        half_open_max_calls,
        failure_count: 0,
        success_count: 0,
        state: CircuitState::Closed,
        last_failure_time: None,
        state_changed_at: now,
        half_open_calls: 0,
    }
}

/// The state after `k` consecutive calls, the i-th attempted at `times[i]`,
/// each admitted and each failing.
pub open spec fn failing_run(v: BreakerView, times: Seq<u64>, k: nat) -> BreakerView
    decreases k,
{
    if k == 0 {
        v
    } else {
        let w = failing_run(v, times, (k - 1) as nat);
        after_failure(after_admission(w, times[k - 1]), times[k - 1])
    }
}

proof fn lemma_failing_run_closed(v: BreakerView, times: Seq<u64>, k: nat)
    requires
        v.state == CircuitState::Closed,
        v.failure_count == 0,
        k < v.failure_threshold,
        k <= times.len(),
    ensures
        failing_run(v, times, k).state == CircuitState::Closed,
        failing_run(v, times, k).failure_count == k,
        failing_run(v, times, k).failure_threshold == v.failure_threshold,
        failing_run(v, times, k).timeout_ms == v.timeout_ms,
    decreases k,
{
    if k > 0 {
        lemma_failing_run_closed(v, times, (k - 1) as nat);
    }
}

/// A closed breaker with no failures on record and a threshold of N >= 1
/// admits N consecutive calls; when all N fail it is open, and a call made
/// before the timeout has elapsed since the last failure is rejected.
pub proof fn lemma_threshold_opens(v: BreakerView, times: Seq<u64>, t: u64)
    requires
        v.state == CircuitState::Closed,
        v.failure_count == 0,
        v.failure_threshold >= 1,
        times.len() == v.failure_threshold,
    ensures
        forall|k: nat| k < times.len() ==> #[trigger] admits(failing_run(v, times, k), times[k as int]),
        failing_run(v, times, times.len()).state == CircuitState::Open,
        failing_run(v, times, times.len()).state_changed_at == times.last(),
        elapsed(t, times.last()) < v.timeout_ms ==> !admits(failing_run(v, times, times.len()), t),
{
    assert forall|k: nat| k < times.len() implies #[trigger] admits(failing_run(v, times, k), times[k as int]) by {
        lemma_failing_run_closed(v, times, k);
    }
    lemma_failing_run_closed(v, times, (times.len() - 1) as nat);
}

/// An open breaker rejects a call made before its timeout has elapsed. A
/// call made once it has elapsed is admitted as a half-open trial, and if
/// that call succeeds the breaker is closed with no failures on record.
pub proof fn lemma_recovery(v: BreakerView, t: u64)
    requires
        v.state == CircuitState::Open,
    ensures
        elapsed(t, v.state_changed_at) < v.timeout_ms ==> !admits(v, t),
        elapsed(t, v.state_changed_at) >= v.timeout_ms ==> {
            &&& admits(v, t)
            &&& after_admission(v, t).state == CircuitState::HalfOpen
            &&& after_success(after_admission(v, t), t).state == CircuitState::Closed
            &&& after_success(after_admission(v, t), t).failure_count == 0
        },
{
}

/// A failing trial call of a half-open breaker opens it again at once, and a
/// call made before the timeout has elapsed anew is rejected.
pub proof fn lemma_half_open_relapse(v: BreakerView, now: u64, t: u64)
    requires
        v.state == CircuitState::HalfOpen,
        admits(v, now),
    ensures
        after_failure(after_admission(v, now), now).state == CircuitState::Open,
        after_failure(after_admission(v, now), now).state_changed_at == now,
        elapsed(t, now) < v.timeout_ms ==> !admits(after_failure(after_admission(v, now), now), t),
{
}

/// Why a guarded call did not return the operation's own result.
#[derive(Debug, Clone, PartialEq, Eq)]
pub enum CallError<E> {
    /// The breaker rejected the call without attempting it.
    CircuitOpen,
    /// The operation was attempted and failed.
    Failed(E),
}

/// A snapshot of a breaker for observation.
#[derive(Debug, Clone)]
pub struct CircuitBreakerStats {
    pub provider: String,
    pub state: CircuitState,
    pub failure_count: u32,
    pub success_count: u32,
    pub last_failure_time: Option<u64>,
    pub state_changed_at: u64,
}

#[derive(Clone, Copy)]
pub struct CircuitBreaker {
    failure_threshold: u32,
    timeout_ms: u64,
    half_open_max_calls: u32,
    failure_count: u32,
    success_count: u32,
    state: CircuitState,
    last_failure_time: Option<u64>,
    state_changed_at: u64,
    half_open_calls: u32,
}

impl View for CircuitBreaker {
    type V = BreakerView;

    closed spec fn view(&self) -> BreakerView {
        BreakerView {
            failure_threshold: self.failure_threshold,
            timeout_ms: self.timeout_ms,
            half_open_max_calls: self.half_open_max_calls,
            failure_count: self.failure_count,
            success_count: self.success_count,
            state: self.state,
            last_failure_time: self.last_failure_time,
            state_changed_at: self.state_changed_at,
            half_open_calls: self.half_open_calls,
        }
    }
}

impl CircuitBreaker {
    /// A closed breaker with all counters at zero, created at `now_ms`.
    pub fn new(failure_threshold: u32, timeout_ms: u64, half_open_max_calls: u32, now_ms: u64) -> (r:
        Self)
        ensures
            r@ == fresh(failure_threshold, timeout_ms, half_open_max_calls, now_ms),
    {
        CircuitBreaker {
            failure_threshold,
            timeout_ms,
            half_open_max_calls,
            failure_count: 0,
            success_count: 0,
            state: CircuitState::Closed,
            last_failure_time: None,
            state_changed_at: now_ms,
            half_open_calls: 0,
        }
    }

    pub fn state(&self) -> (r: CircuitState)
        ensures
            r == self@.state,
    {
        self.state
    }

    pub fn failure_count(&self) -> (r: u32)
        ensures
            r == self@.failure_count,
    {
        self.failure_count
    }

    /// Whether the breaker is open and its timeout has run out at `now_ms`.
    pub fn should_attempt_reset(&self, now_ms: u64) -> (r: bool)
        ensures
            r == reset_due(self@, now_ms),
    {
        match self.state {
            CircuitState::Open => {
                let waited: u64 = if now_ms >= self.state_changed_at {
                    now_ms - self.state_changed_at
                } else {
                    0
                };
                waited >= self.timeout_ms
            },
            _ => false,
        }
    }

    /// Decides whether a call attempted at `now_ms` may go ahead, and counts
    /// it as admitted. A rejected call leaves the breaker as it was.
    pub fn try_acquire(&mut self, now_ms: u64) -> (r: bool)
        ensures
            r == admits(old(self)@, now_ms),
            r ==> final(self)@ == after_admission(old(self)@, now_ms),
            !r ==> final(self)@ == old(self)@,
    {
        match self.state {
            CircuitState::Open => {
                if self.should_attempt_reset(now_ms) {
                    self.state = CircuitState::HalfOpen;
                    self.state_changed_at = now_ms;
                    self.half_open_calls = 1;
                    true
                } else {
                    false
                }
            },
            CircuitState::HalfOpen => {
                if self.half_open_calls >= self.half_open_max_calls {
                    false
                } else {
                    self.half_open_calls = self.half_open_calls + 1;
                    true
                }
            },
            CircuitState::Closed => true,
        }
    }

    /// Records that an admitted call succeeded at `now_ms`.
    pub fn on_success(&mut self, now_ms: u64)
        ensures
            final(self)@ == after_success(old(self)@, now_ms),
    {
        if self.success_count < u32::MAX {
            self.success_count = self.success_count + 1;
        }
        match self.state {
            CircuitState::HalfOpen => {
                self.state = CircuitState::Closed;
                self.state_changed_at = now_ms;
                self.failure_count = 0;
                self.half_open_calls = 0;
            },
            CircuitState::Closed => {
                self.failure_count = 0;
            },
            CircuitState::Open => {},
        }
    }

    /// Records that an admitted call failed at `now_ms`.
    pub fn on_failure(&mut self, now_ms: u64)
        ensures
            final(self)@ == after_failure(old(self)@, now_ms),
    {
        if self.failure_count < u32::MAX {
            self.failure_count = self.failure_count + 1;
        }
        self.last_failure_time = Some(now_ms);
        match self.state {
            CircuitState::Closed => {
                if self.failure_count >= self.failure_threshold {
                    self.state = CircuitState::Open;
                    self.state_changed_at = now_ms;
                }
            },
            CircuitState::HalfOpen => {
                self.state = CircuitState::Open;
                self.state_changed_at = now_ms;
                self.half_open_calls = 0;
            },
            CircuitState::Open => {},
        }
    }

    /// Runs `operation` at `now_ms` if the breaker admits it, and records the
    /// outcome. A rejected call never runs the operation.
    pub fn call<T, E, F: FnOnce() -> Result<T, E>>(&mut self, now_ms: u64, operation: F) -> (r:
        Result<T, CallError<E>>)
        requires
            operation.requires(()),
        ensures
            match r {
                Err(CallError::CircuitOpen) => !admits(old(self)@, now_ms) && final(self)@ == old(
                    self,
                )@,
                Ok(t) => admits(old(self)@, now_ms) && operation.ensures((), Ok(t)) && final(self)@
                    == after_success(after_admission(old(self)@, now_ms), now_ms),
                Err(CallError::Failed(e)) => admits(old(self)@, now_ms) && operation.ensures(
                    (),
                    Err(e),
                ) && final(self)@ == after_failure(after_admission(old(self)@, now_ms), now_ms),
            },
    {
        if !self.try_acquire(now_ms) {
            return Err(CallError::CircuitOpen);
        }
        match operation() {
            Ok(t) => {
                self.on_success(now_ms);
                Ok(t)
            },
            Err(e) => {
                self.on_failure(now_ms);
                Err(CallError::Failed(e))
            },
        }
    }

    /// A snapshot of the breaker, labelled with `provider`.
    pub fn get_stats(&self, provider: &str) -> (r: CircuitBreakerStats)
        ensures
            r.provider@ == provider@,
            r.state == self@.state,
            r.failure_count == self@.failure_count,
            r.success_count == self@.success_count,
            r.last_failure_time == self@.last_failure_time,
            r.state_changed_at == self@.state_changed_at,
    {
        CircuitBreakerStats {
            provider: provider.to_string(),
            state: self.state,
            failure_count: self.failure_count,
            success_count: self.success_count,
            last_failure_time: self.last_failure_time,
            state_changed_at: self.state_changed_at,
        }
    }

    /// Forces the breaker closed at `now_ms` with every counter at zero; the
    /// configuration is kept.
    pub fn reset(&mut self, now_ms: u64)
        ensures
            final(self)@ == fresh(
                old(self)@.failure_threshold,
                old(self)@.timeout_ms,
                old(self)@.half_open_max_calls,
                now_ms,
            ),
    {
        self.state = CircuitState::Closed;
        self.failure_count = 0;
        self.success_count = 0;
        self.last_failure_time = None;
        self.state_changed_at = now_ms;
        self.half_open_calls = 0;
    }
}

/// Seconds as milliseconds, stopping at the largest value.
pub open spec fn secs_to_ms(secs: u64) -> u64 {
    if secs <= u64::MAX / 1000 {
        (secs * 1000) as u64
    } else {
        u64::MAX
    }
}

/// One breaker per provider name, created on first use and never removed.
pub struct CircuitBreakerManager {
    names: Vec<String>,
    breakers: Vec<CircuitBreaker>,
    enabled: bool,
    failure_threshold: u32,
    timeout_ms: u64,
    half_open_max_calls: u32,
}

impl CircuitBreakerManager {
    /// The breakers held, by provider name.
    pub closed spec fn table(&self) -> Map<Seq<char>, BreakerView> {
        Map::new(
            |k: Seq<char>| exists|i: int| 0 <= i < self.names@.len() && self.names@[i]@ == k,
            |k: Seq<char>|
                self.breakers@[choose|i: int| 0 <= i < self.names@.len() && self.names@[i]@ == k]@,
        )
    }

    pub closed spec fn wf(&self) -> bool {
        &&& self.names@.len() == self.breakers@.len()
        &&& forall|i: int, j: int|
            0 <= i < self.names@.len() && 0 <= j < self.names@.len() && i != j ==> self.names@[i]@
                != self.names@[j]@
    }

    pub closed spec fn is_enabled(&self) -> bool {
        self.enabled
    }

    /// The breaker that a provider seen for the first time at `now` gets.
    pub closed spec fn fresh_at(&self, now: u64) -> BreakerView {
        fresh(self.failure_threshold, self.timeout_ms, self.half_open_max_calls, now)
    }

    /// The breaker that a call for `p` at `now` goes through.
    pub open spec fn current(&self, p: Seq<char>, now: u64) -> BreakerView {
        if self.table().contains_key(p) {
            self.table()[p]
        } else {
            self.fresh_at(now)
        }
    }

    /// An empty registry. An enabled one needs a failure threshold of at
    /// least one.
    pub fn new(config: &CircuitBreakerConfig) -> (r: Result<Self, ConfigError>)
        ensures
            (r is Err) == (config.enabled && config.failure_threshold == 0),
            r is Err ==> r == Err::<Self, ConfigError>(ConfigError::ZeroFailureThreshold),
            r matches Ok(m) ==> {
                &&& m.wf()
                &&& m.table() == Map::<Seq<char>, BreakerView>::empty()
                &&& m.is_enabled() == config.enabled
                &&& forall|now: u64|
                    #[trigger] m.fresh_at(now) == fresh(
                        config.failure_threshold,
                        secs_to_ms(config.timeout_seconds),
                        config.half_open_max_calls,
                        now,
                    )
            },
    {
        if config.enabled && config.failure_threshold == 0 {
            return Err(ConfigError::ZeroFailureThreshold);
        }
        let timeout_ms: u64 = if config.timeout_seconds <= u64::MAX / 1000 {
            config.timeout_seconds * 1000
        } else {
            u64::MAX
        };
        let m = CircuitBreakerManager {
            names: Vec::new(),
            breakers: Vec::new(),
            enabled: config.enabled,
            failure_threshold: config.failure_threshold,
            timeout_ms,
            half_open_max_calls: config.half_open_max_calls,
        };
        assert(m.table() =~= Map::<Seq<char>, BreakerView>::empty());
        Ok(m)
    }

    /// The position of `provider`, if it has a breaker.
    fn find(&self, provider: &String) -> (r: Option<usize>)
        requires
            self.wf(),
        ensures
            r matches Some(i) ==> i < self.names@.len() && self.names@[i as int]@ == provider@,
            r is None ==> !self.table().contains_key(provider@),
    {
        let mut i: usize = 0;
        while i < self.names.len()
            invariant
                self.wf(),
                i <= self.names@.len(),
                forall|j: int| 0 <= j < i ==> self.names@[j]@ != provider@,
            decreases self.names@.len() - i,
        {
            if self.names[i] == *provider {
                return Some(i);
            }
            i = i + 1;
        }
        None
    }

    proof fn lemma_lookup(&self, i: int)
        requires
            self.wf(),
            0 <= i < self.names@.len(),
        ensures
            self.table().contains_key(self.names@[i]@),
            self.table()[self.names@[i]@] == self.breakers@[i]@,
    {
        let k = self.names@[i]@;
        assert(self.table().contains_key(k));
        let c = choose|j: int| 0 <= j < self.names@.len() && self.names@[j]@ == k;
        assert(c == i);
    }

    /// The position of the breaker of `provider`, created fresh at `now_ms`
    /// if the provider has none yet. The breaker returned is the stored one.
    fn get_or_create_breaker(&mut self, provider: &String, now_ms: u64) -> (r: usize)
        requires
            old(self).wf(),
        ensures
            final(self).wf(),
            r < final(self).names@.len(),
            final(self).names@[r as int]@ == provider@,
            final(self).breakers@[r as int]@ == old(self).current(provider@, now_ms),
            final(self).table() == old(self).table().insert(provider@, old(self).current(provider@, now_ms)),
            final(self).enabled == old(self).enabled,
            final(self).failure_threshold == old(self).failure_threshold,
            final(self).timeout_ms == old(self).timeout_ms,
            final(self).half_open_max_calls == old(self).half_open_max_calls,
    {
        match self.find(provider) {
            Some(i) => {
                proof {
                    self.lemma_lookup(i as int);
                    assert(self.table().insert(provider@, self.current(provider@, now_ms)) =~= self.table());
                }
                i
            },
            None => {
                let b = CircuitBreaker::new(
                    self.failure_threshold,
                    self.timeout_ms,
                    self.half_open_max_calls,
                    now_ms,
                );
                let ghost pre = *self;
                self.names.push(provider.clone());
                self.breakers.push(b);
                let n = self.names.len() - 1;
                proof {
                    assert(self.names@[n as int]@ == provider@);
                    self.lemma_lookup(n as int);
                    assert forall|k: Seq<char>| #[trigger] self.table().contains_key(k) == pre.table().insert(provider@, b@).contains_key(k) by {
                        if k != provider@ && pre.table().contains_key(k) {
                            let j = choose|j: int| 0 <= j < pre.names@.len() && pre.names@[j]@ == k;
                            assert(self.names@[j]@ == k);
                        }
                    }
                    assert forall|k: Seq<char>| #[trigger] self.table().contains_key(k) && k != provider@ implies self.table()[k] == pre.table()[k] by {
                        let j = choose|j: int| 0 <= j < self.names@.len() && self.names@[j]@ == k;
                        assert(j < pre.names@.len());
                        pre.lemma_lookup(j);
                        self.lemma_lookup(j);
                    }
                    assert(self.table() =~= pre.table().insert(provider@, b@));
                }
                n
            },
        }
    }

    /// Stores `b` at position `i`, keeping every other breaker.
    proof fn lemma_update(pre: &Self, post: &Self, i: int)
        requires
            pre.wf(),
            0 <= i < pre.names@.len(),
            post.names@ == pre.names@,
            post.breakers@ == pre.breakers@.update(i, post.breakers@[i]),
        ensures
            post.wf(),
            post.table() == pre.table().insert(pre.names@[i]@, post.breakers@[i]@),
    {
        let p = pre.names@[i]@;
        post.lemma_lookup(i);
        assert forall|k: Seq<char>| #[trigger] post.table().contains_key(k) && k != p implies post.table()[k] == pre.table()[k] by {
            let j = choose|j: int| 0 <= j < post.names@.len() && post.names@[j]@ == k;
            pre.lemma_lookup(j);
            post.lemma_lookup(j);
        }
        assert(post.table() =~= pre.table().insert(p, post.breakers@[i]@));
    }

    /// Runs `operation` at `now_ms` through the breaker of `provider`. A
    /// disabled registry runs every operation and keeps no state.
    pub fn call<T, E, F: FnOnce() -> Result<T, E>>(&mut self, provider: &str, now_ms: u64, operation: F) -> (r:
        Result<T, CallError<E>>)
        requires
            old(self).wf(),
            operation.requires(()),
        ensures
            final(self).wf(),
            final(self).is_enabled() == old(self).is_enabled(),
            forall|t: u64| #[trigger] final(self).fresh_at(t) == old(self).fresh_at(t),
            !old(self).is_enabled() ==> {
                &&& final(self).table() == old(self).table()
                &&& match r {
                    Ok(t) => operation.ensures((), Ok(t)),
                    Err(CallError::Failed(e)) => operation.ensures((), Err(e)),
                    Err(CallError::CircuitOpen) => false,
                }
            },
            old(self).is_enabled() ==> {
                let b = old(self).current(provider@, now_ms);
                match r {
                    Err(CallError::CircuitOpen) => !admits(b, now_ms) && final(self).table()
                        == old(self).table().insert(provider@, b),
                    Ok(t) => admits(b, now_ms) && operation.ensures((), Ok(t)) && final(self).table()
                        == old(self).table().insert(
                        provider@,
                        after_success(after_admission(b, now_ms), now_ms),
                    ),
                    Err(CallError::Failed(e)) => admits(b, now_ms) && operation.ensures((), Err(e))
                        && final(self).table() == old(self).table().insert(
                        provider@,
                        after_failure(after_admission(b, now_ms), now_ms),
                    ),
                }
            },
    {
        if !self.enabled {
            return match operation() {
                Ok(t) => Ok(t),
                Err(e) => Err(CallError::Failed(e)),
            };
        }
        let key = provider.to_string();
        let i = self.get_or_create_breaker(&key, now_ms);
        let ghost mid = *self;
        let r = self.breakers[i].call(now_ms, operation);
        proof {
            Self::lemma_update(&mid, self, i as int);
        }
        r
    }

    /// Decides whether a call to `provider` at `now_ms` may go ahead, and
    /// counts it as admitted. A disabled registry admits every call and
    /// keeps no state.
    pub fn try_acquire(&mut self, provider: &str, now_ms: u64) -> (r: bool)
        requires
            old(self).wf(),
        ensures
            final(self).wf(),
            final(self).is_enabled() == old(self).is_enabled(),
            forall|t: u64| #[trigger] final(self).fresh_at(t) == old(self).fresh_at(t),
            !old(self).is_enabled() ==> r && final(self).table() == old(self).table(),
            old(self).is_enabled() ==> {
                let b = old(self).current(provider@, now_ms);
                &&& r == admits(b, now_ms)
                &&& final(self).table() == old(self).table().insert(
                    provider@,
                    if r {
                        after_admission(b, now_ms)
                    } else {
                        b
                    },
                )
            },
    {
        if !self.enabled {
            return true;
        }
        let key = provider.to_string();
        let i = self.get_or_create_breaker(&key, now_ms);
        let ghost mid = *self;
        let r = self.breakers[i].try_acquire(now_ms);
        proof {
            Self::lemma_update(&mid, self, i as int);
        }
        r
    }

    /// Records the outcome, at `now_ms`, of a call to `provider` that was
    /// admitted. A disabled registry keeps no state.
    pub fn record_outcome(&mut self, provider: &str, success: bool, now_ms: u64)
        requires
            old(self).wf(),
        ensures
            final(self).wf(),
            final(self).is_enabled() == old(self).is_enabled(),
            forall|t: u64| #[trigger] final(self).fresh_at(t) == old(self).fresh_at(t),
            !old(self).is_enabled() ==> final(self).table() == old(self).table(),
            old(self).is_enabled() ==> {
                let b = old(self).current(provider@, now_ms);
                final(self).table() == old(self).table().insert(
                    provider@,
                    if success {
                        after_success(b, now_ms)
                    } else {
                        after_failure(b, now_ms)
                    },
                )
            },
    {
        if !self.enabled {
            return;
        }
        let key = provider.to_string();
        let i = self.get_or_create_breaker(&key, now_ms);
        let ghost mid = *self;
        if success {
            self.breakers[i].on_success(now_ms);
        } else {
            self.breakers[i].on_failure(now_ms);
        }
        proof {
            Self::lemma_update(&mid, self, i as int);
        }
    }

    /// A snapshot of the breaker of `provider`; none if the registry is
    /// disabled or the provider has not been seen.
    pub fn get_stats(&self, provider: &str) -> (r: Option<CircuitBreakerStats>)
        requires
            self.wf(),
        ensures
            (r is Some) == (self.is_enabled() && self.table().contains_key(provider@)),
            r matches Some(s) ==> {
                let v = self.table()[provider@];
                &&& s.provider@ == provider@
                &&& s.state == v.state
                &&& s.failure_count == v.failure_count
                &&& s.success_count == v.success_count
                &&& s.last_failure_time == v.last_failure_time
                &&& s.state_changed_at == v.state_changed_at
            },
    {
        if !self.enabled {
            return None;
        }
        let key = provider.to_string();
        match self.find(&key) {
            Some(i) => {
                proof {
                    self.lemma_lookup(i as int);
                }
                Some(self.breakers[i].get_stats(provider))
            },
            None => None,
        }
    }

    /// Forces the breaker of `provider` closed with zeroed counters, if it
    /// has one and the registry is enabled. The breaker is kept, not removed.
    pub fn reset(&mut self, provider: &str, now_ms: u64)
        requires
            old(self).wf(),
        ensures
            final(self).wf(),
            final(self).is_enabled() == old(self).is_enabled(),
            forall|t: u64| #[trigger] final(self).fresh_at(t) == old(self).fresh_at(t),
            (old(self).is_enabled() && old(self).table().contains_key(provider@)) ==> final(self).table()
                == old(self).table().insert(
                provider@,
                fresh(
                    old(self).table()[provider@].failure_threshold,
                    old(self).table()[provider@].timeout_ms,
                    old(self).table()[provider@].half_open_max_calls,
                    now_ms,
                ),
            ),
            !(old(self).is_enabled() && old(self).table().contains_key(provider@)) ==> final(self).table()
                == old(self).table(),
    {
        if !self.enabled {
            return;
        }
        let key = provider.to_string();
        match self.find(&key) {
            Some(i) => {
                proof {
                    self.lemma_lookup(i as int);
                }
                let ghost pre = *self;
                self.breakers[i].reset(now_ms);
                proof {
                    Self::lemma_update(&pre, self, i as int);
                }
            },
            None => {},
        }
    }
}

} // verus!
