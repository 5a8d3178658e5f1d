//! The result cache: request fingerprints mapped to the results computed for
//! them, the store bounded in size and its entries living for a fixed time.
//! The in-process store is a `moka` cache. What it holds is modelled as the
//! value last stored under each key and not discarded since; a lookup finds
//! that value or nothing, since the store may expire or evict an entry on
//! its own clock.
use vstd::prelude::*;

use crate::config::{CacheConfig, CacheType};
use crate::types::SearchResult;

verus! {

pub type CacheValue = Vec<SearchResult>;

/// The longest time to live a store accepts: 1000 years of 365 days.
pub const MAX_TTL_SECONDS: u64 = 31536000000;

#[verifier::external_type_specification]
#[verifier::external_body]
#[verifier::reject_recursive_types(K)]
#[verifier::reject_recursive_types(V)]
#[verifier::reject_recursive_types(S)]
pub struct ExMokaCache<K, V, S>(moka::sync::Cache<K, V, S>);

/// A store that holds nothing.
pub open spec fn no_entries() -> Map<Seq<char>, Seq<SearchResult>> {
    Map::empty()
}

/// What a store holds: under each key, the value last inserted and not
/// discarded since. The store is reached only through the functions below.
pub uninterp spec fn store_contents(s: moka::sync::Cache<String, Vec<SearchResult>>) -> Map<
    Seq<char>,
    Seq<SearchResult>,
>;

/// The bounds a store was built with: its largest number of entries and the
/// time to live of an entry, in seconds.
pub uninterp spec fn store_limits(s: moka::sync::Cache<String, Vec<SearchResult>>) -> (u64, u64);

/// Relies on moka's `CacheBuilder::max_capacity`, `time_to_live` and `build`:
/// a new, empty store with those bounds. `build` panics for a time to live
/// over 1000 years.
#[verifier::external_body]
fn build_store(max_entries: u64, ttl_seconds: u64) -> (r: moka::sync::Cache<String, CacheValue>)
    requires
        ttl_seconds <= MAX_TTL_SECONDS,
    ensures
        store_contents(r) == no_entries(),
        store_limits(r) == (max_entries, ttl_seconds),
{
    moka::sync::Cache::builder()
        .max_capacity(max_entries)
        .time_to_live(std::time::Duration::from_secs(ttl_seconds))
        .build()
}

/// Relies on moka's `Cache::get`: a clone of the value last inserted under
/// `key`, if it is still live; nothing if it was discarded, expired or
/// evicted.
#[verifier::external_body]
fn store_get(store: &moka::sync::Cache<String, CacheValue>, key: &str) -> (r: Option<CacheValue>)
    ensures
        r matches Some(v) ==> store_contents(*store).get(key@) == Some(v@),
{
    store.get(key)
}

/// Relies on moka's `Cache::insert`: stores `value` under `key`, replacing
/// any earlier value.
#[verifier::external_body]
fn store_insert(store: &mut moka::sync::Cache<String, CacheValue>, key: String, value: CacheValue)
    ensures
        store_contents(*final(store)) == store_contents(*old(store)).insert(key@, value@),
        store_limits(*final(store)) == store_limits(*old(store)),
{
    store.insert(key, value)
}

/// Relies on moka's `Cache::invalidate`: discards the value of `key`.
#[verifier::external_body]
fn store_invalidate(store: &mut moka::sync::Cache<String, CacheValue>, key: &str)
    ensures
        store_contents(*final(store)) == store_contents(*old(store)).remove(key@),
        store_limits(*final(store)) == store_limits(*old(store)),
{
    store.invalidate(key)
}

/// Relies on moka's `Cache::invalidate_all`: no entry inserted before the
/// call is returned after it.
#[verifier::external_body]
fn store_invalidate_all(store: &mut moka::sync::Cache<String, CacheValue>)
    ensures
        store_contents(*final(store)) == no_entries(),
        store_limits(*final(store)) == store_limits(*old(store)),
{
    store.invalidate_all()
}

/// Relies on moka's `Cache::entry_count`: an estimate of the number of
/// entries, which may lag behind recent changes.
#[verifier::external_body]
fn store_entry_count(store: &moka::sync::Cache<String, CacheValue>) -> u64 {
    store.entry_count()
}

fn copy_result(r: &SearchResult) -> (c: SearchResult)
    ensures
        c == *r,
{
    SearchResult {
        title: r.title.clone(),
        url: r.url.clone(),
        snippet: r.snippet.clone(),
        score: r.score,
        source_provider: r.source_provider.clone(),
    }
}

/// A copy of a list of results.
pub fn copy_results(v: &CacheValue) -> (c: CacheValue)
    ensures
        c@ == v@,
{
    let mut c: CacheValue = Vec::new();
    let mut i: usize = 0;
    while i < v.len()
        invariant
            i <= v@.len(),
            c@ == v@.take(i as int),
        decreases v@.len() - i,
    {
        c.push(copy_result(&v[i]));
        i = i + 1;
        proof {
            assert(c@ =~= v@.take(i as int));
        }
    }
    proof {
        assert(v@.take(i as int) =~= v@);
    }
    c
}

/// Round trip of the store: a lookup of `k` right after storing `v` under
/// it finds `v` or nothing; after deleting `k`, or clearing the store, a
/// lookup of `k` finds nothing.
pub proof fn lemma_cache_round_trip(
    c: Map<Seq<char>, Seq<SearchResult>>,
    k: Seq<char>,
    v: Seq<SearchResult>,
)
    ensures
        forall|x: Seq<SearchResult>| c.insert(k, v).get(k) == Some(x) ==> x == v,
        forall|x: Seq<SearchResult>| c.remove(k).get(k) != Some(x),
        forall|x: Seq<SearchResult>| no_entries().get(k) != Some(x),
{
}

/// The in-process store.
pub struct MemoryCache {
    cache: moka::sync::Cache<String, CacheValue>,
}

impl MemoryCache {
    /// What the store holds (see `store_contents`).
    pub closed spec fn contents(&self) -> Map<Seq<char>, Seq<SearchResult>> {
        store_contents(self.cache)
    }

    /// The largest number of entries and the time to live, in seconds.
    pub closed spec fn limits(&self) -> (u64, u64) {
        store_limits(self.cache)
    }

    /// An empty store bounded by `config.max_entries` whose entries live
    /// `config.ttl_seconds` seconds.
    pub fn new(config: &CacheConfig) -> (r: Self)
        requires
            config.ttl_seconds <= MAX_TTL_SECONDS,
        ensures
            r.contents() == no_entries(),
            r.limits() == (config.max_entries as u64, config.ttl_seconds),
    {
        MemoryCache { cache: build_store(config.max_entries as u64, config.ttl_seconds) }
    }

    /// The value of `key`, if it is still live.
    pub fn get(&self, key: &str) -> (r: Option<CacheValue>)
        ensures
            r matches Some(v) ==> self.contents().get(key@) == Some(v@),
    {
        store_get(&self.cache, key)
    }

    /// Stores `value` under `key`. Entries live for the store's own time to
    /// live; `_ttl_seconds` is accepted for callers that pass one.
    pub fn set(&mut self, key: &str, value: CacheValue, _ttl_seconds: u64)
        ensures
            final(self).contents() == old(self).contents().insert(key@, value@),
            final(self).limits() == old(self).limits(),
    {
        store_insert(&mut self.cache, key.to_string(), value)
    }

    /// Discards the value of `key`, if any.
    pub fn delete(&mut self, key: &str)
        ensures
            final(self).contents() == old(self).contents().remove(key@),
            final(self).limits() == old(self).limits(),
    {
        store_invalidate(&mut self.cache, key)
    }

    /// Discards every value.
    pub fn clear(&mut self)
        ensures
            final(self).contents() == no_entries(),
            final(self).limits() == old(self).limits(),
    {
        store_invalidate_all(&mut self.cache)
    }

    /// The number of entries, as the store estimates it; the estimate may
    /// lag behind recent changes.
    pub fn size(&self) -> usize {
        let n = store_entry_count(&self.cache);
        if n <= usize::MAX as u64 {
            n as usize
        } else {
            usize::MAX
        }
    }
}

/// Why the cache could not be set up or could not serve a request.
#[derive(Debug, Clone, Copy, PartialEq, Eq, Structural)]
pub enum CacheError {
    /// The configured backend is not available in this process.
    Unavailable,
    /// The configured time to live exceeds `MAX_TTL_SECONDS`.
    TtlTooLong,
}

/// The cache as the dispatcher sees it: a store that can be switched off.
/// A disabled cache stores nothing and answers every lookup with a miss.
pub struct CacheManager {
    provider: MemoryCache,
    enabled: bool,
}

impl CacheManager {
    pub closed spec fn is_enabled(&self) -> bool {
        self.enabled
    }

    /// What the store holds (see `store_contents`).
    pub closed spec fn contents(&self) -> Map<Seq<char>, Seq<SearchResult>> {
        self.provider.contents()
    }

    /// The largest number of entries and the time to live, in seconds.
    pub closed spec fn limits(&self) -> (u64, u64) {
        self.provider.limits()
    }

    /// An empty cache set up from `config`. An enabled cache with a remote
    /// backend is refused, since only the in-process store is available; so
    /// is a time to live over `MAX_TTL_SECONDS`.
    pub fn new(config: &CacheConfig) -> (r: Result<Self, CacheError>)
        ensures
            (r == Err::<Self, CacheError>(CacheError::Unavailable)) == (config.enabled
                && config.cache_type == CacheType::Redis),
            (r == Err::<Self, CacheError>(CacheError::TtlTooLong)) == (!(config.enabled
                && config.cache_type == CacheType::Redis) && config.ttl_seconds > MAX_TTL_SECONDS),
            r matches Ok(c) ==> {
                &&& c.is_enabled() == config.enabled
                &&& c.contents() == no_entries()
                &&& c.limits() == (config.max_entries as u64, config.ttl_seconds)
            },
    {
        if config.enabled && config.cache_type == CacheType::Redis {
            return Err(CacheError::Unavailable);
        }
        if config.ttl_seconds > MAX_TTL_SECONDS {
            return Err(CacheError::TtlTooLong);
        }
        Ok(CacheManager { provider: MemoryCache::new(config), enabled: config.enabled })
    }

    /// The live value of `key`; always a miss when the cache is disabled.
    pub fn get(&self, key: &str) -> (r: Result<Option<CacheValue>, CacheError>)
        ensures
            r is Ok,
            !self.is_enabled() ==> r == Ok::<Option<CacheValue>, CacheError>(None),
            r matches Ok(Some(v)) ==> self.contents().get(key@) == Some(v@),
    {
        if !self.enabled {
            return Ok(None);
        }
        Ok(self.provider.get(key))
    }

    /// Stores `value` under `key`, unless the cache is disabled. A full
    /// store makes room by evicting; the insert is never refused.
    pub fn set(&mut self, key: &str, value: CacheValue, ttl_seconds: u64) -> (r: Result<(), CacheError>)
        ensures
            r is Ok,
            final(self).is_enabled() == old(self).is_enabled(),
            final(self).limits() == old(self).limits(),
            old(self).is_enabled() ==> final(self).contents() == old(self).contents().insert(key@, value@),
            !old(self).is_enabled() ==> final(self).contents() == old(self).contents(),
    {
        if !self.enabled {
            return Ok(());
        }
        self.provider.set(key, value, ttl_seconds);
        Ok(())
    }

    /// Discards the value of `key`.
    pub fn delete(&mut self, key: &str) -> (r: Result<(), CacheError>)
        ensures
            r is Ok,
            final(self).is_enabled() == old(self).is_enabled(),
            final(self).limits() == old(self).limits(),
            old(self).is_enabled() ==> final(self).contents() == old(self).contents().remove(key@),
            !old(self).is_enabled() ==> final(self).contents() == old(self).contents(),
    {
        if !self.enabled {
            return Ok(());
        }
        self.provider.delete(key);
        Ok(())
    }

    /// Discards every value.
    pub fn clear(&mut self) -> (r: Result<(), CacheError>)
        ensures
            r is Ok,
            final(self).is_enabled() == old(self).is_enabled(),
            final(self).limits() == old(self).limits(),
            old(self).is_enabled() ==> final(self).contents() == no_entries(),
            !old(self).is_enabled() ==> final(self).contents() == old(self).contents(),
    {
        if !self.enabled {
            return Ok(());
        }
        self.provider.clear();
        Ok(())
    }

    /// The number of entries, as the store estimates it; zero when the
    /// cache is disabled.
    pub fn size(&self) -> (r: Result<usize, CacheError>)
        ensures
            r is Ok,
            !self.is_enabled() ==> r == Ok::<usize, CacheError>(0),
    {
        if !self.enabled {
            return Ok(0);
        }
        Ok(self.provider.size())
    }

    /// The fingerprint of a request: `provider:query:limit`, the limit
    /// defaulting to 10.
    pub fn generate_cache_key(provider: &str, query: &str, limit: Option<usize>) -> (r: String)
        ensures
            r@ == cache_key(provider@, query@, limit),
    {
        let mut k = String::from_str(provider);
        k.append(":");
        k.append(query);
        k.append(":");
        let n: usize = match limit {
            Some(n) => n,
            None => 10,
        };
        append_decimal(&mut k, n);
        k
    }
}

/// The decimal digit of `d`.
pub open spec fn digit_char(d: nat) -> char {
    if d == 0 { '0' }
    else if d == 1 { '1' }
    else if d == 2 { '2' }
    else if d == 3 { '3' }
    else if d == 4 { '4' }
    else if d == 5 { '5' }
    else if d == 6 { '6' }
    else if d == 7 { '7' }
    else if d == 8 { '8' }
    else { '9' }
}

/// The decimal numeral of `n`, without leading zeros.
pub open spec fn decimal(n: nat) -> Seq<char>
    decreases n,
{
    if n < 10 {
        seq![digit_char(n)]
    } else {
        decimal(n / 10).push(digit_char(n % 10))
    }
}

/// The fingerprint of a request for `limit` results of `query` from
/// `provider`.
pub open spec fn cache_key(provider: Seq<char>, query: Seq<char>, limit: Option<usize>) -> Seq<char> {
    let n: nat = match limit {
        Some(n) => n as nat,
        None => 10,
    };
    provider + ":"@ + query + ":"@ + decimal(n)
}

fn digit_str(d: usize) -> (r: &'static str)
    requires
        d < 10,
    ensures
        r@ == seq![digit_char(d as nat)],
{
    proof {
        reveal_strlit("0");
        reveal_strlit("1");
        reveal_strlit("2");
        reveal_strlit("3");
        reveal_strlit("4");
        reveal_strlit("5");
        reveal_strlit("6");
        reveal_strlit("7");
        reveal_strlit("8");
        reveal_strlit("9");
    }
    if d == 0 { "0" }
    else if d == 1 { "1" }
    else if d == 2 { "2" }
    else if d == 3 { "3" }
    else if d == 4 { "4" }
    else if d == 5 { "5" }
    else if d == 6 { "6" }
    else if d == 7 { "7" }
    else if d == 8 { "8" }
    else { "9" }
}

/// Appends the decimal numeral of `n` to `s`.
pub fn append_decimal(s: &mut String, n: usize)
    ensures
        final(s)@ == old(s)@ + decimal(n as nat),
    decreases n,
{
    if n >= 10 {
        append_decimal(s, n / 10);
    }
    s.append(digit_str(n % 10));
    proof {
        if n >= 10 {
            assert(old(s)@ + decimal(n as nat) =~= old(s)@ + decimal((n / 10) as nat) + seq![digit_char((n % 10) as nat)]);
        } else {
            assert(n % 10 == n);
        }
    }
}

} // verus!
