//! The provider dispatcher. A search is planned against the registry of
//! providers and then driven step by step: the host invokes the provider
//! that the plan names and reports the outcome back, until one succeeds or
//! every candidate has failed.
use vstd::prelude::*;

use crate::types::{BaseSearchParams, ErrorType, ProviderError, SearchResult};

verus! {

/// The fixed order in which providers are tried when none is preferred.
pub open spec fn priority_order() -> Seq<Seq<char>> {
    seq!["tavily"@, "google"@, "duckduckgo"@, "reddit"@, "exa"@, "brave"@]
}

/// The names of a list of strings.
pub open spec fn names_of(v: Seq<String>) -> Seq<Seq<char>> {
    v.map_values(|s: String| s@)
}

/// Whether a result came from the provider named `p`.
pub open spec fn from_provider(p: Seq<char>) -> spec_fn(SearchResult) -> bool {
    |x: SearchResult| x.source_provider@ == p
}

pub proof fn lemma_names_push(v: Seq<String>, x: String)
    ensures
        names_of(v.push(x)) == names_of(v).push(x@),
{
    assert(names_of(v.push(x)) =~= names_of(v).push(x@));
}

/// A request for a search, built step by step.
#[derive(Debug, Clone)]
pub struct SearchRequest {
    pub query: String,
    pub limit: Option<u32>,
    pub include_domains: Option<Vec<String>>,
    pub exclude_domains: Option<Vec<String>>,
    pub preferred_provider: Option<String>,
}

fn strings_of(items: &[&str]) -> (r: Vec<String>)
    ensures
        r@.len() == items@.len(),
        forall|i: int| 0 <= i < items@.len() ==> #[trigger] r@[i]@ == items@[i]@,
{
    let mut r: Vec<String> = Vec::new();
    let mut i: usize = 0;
    while i < items.len()
        invariant
            i <= items@.len(),
            r@.len() == i,
            forall|j: int| 0 <= j < i ==> #[trigger] r@[j]@ == items@[j]@,
        decreases items@.len() - i,
    {
        r.push(items[i].to_string());
        i = i + 1;
    }
    r
}

impl SearchRequest {
    /// A request for `query` with nothing else set.
    pub fn new(query: &str) -> (r: Self)
        ensures
            r.query@ == query@,
            r.limit is None,
            r.include_domains is None,
            r.exclude_domains is None,
            r.preferred_provider is None,
    {
        SearchRequest {
            query: query.to_string(),
            limit: None,
            include_domains: None,
            exclude_domains: None,
            preferred_provider: None,
        }
    }

    /// Sets the largest number of results wanted.
    pub fn limit(self, limit: u32) -> (r: Self)
        ensures
            r == (SearchRequest { limit: Some(limit), ..self }),
    {
        SearchRequest { limit: Some(limit), ..self }
    }

    /// Keeps only results from these domains.
    pub fn include_domains(self, domains: &[&str]) -> (r: Self)
        ensures
            r.query == self.query,
            r.limit == self.limit,
            r.exclude_domains == self.exclude_domains,
            r.preferred_provider == self.preferred_provider,
            r.include_domains matches Some(d) && d@.len() == domains@.len() && forall|i: int|
                0 <= i < domains@.len() ==> #[trigger] d@[i]@ == domains@[i]@,
    {
        SearchRequest { include_domains: Some(strings_of(domains)), ..self }
    }

    /// Drops results from these domains.
    pub fn exclude_domains(self, domains: &[&str]) -> (r: Self)
        ensures
            r.query == self.query,
            r.limit == self.limit,
            r.include_domains == self.include_domains,
            r.preferred_provider == self.preferred_provider,
            r.exclude_domains matches Some(d) && d@.len() == domains@.len() && forall|i: int|
                0 <= i < domains@.len() ==> #[trigger] d@[i]@ == domains@[i]@,
    {
        SearchRequest { exclude_domains: Some(strings_of(domains)), ..self }
    }

    /// Names the one provider to use.
    pub fn provider(self, provider: &str) -> (r: Self)
        ensures
            r.query == self.query,
            r.limit == self.limit,
            r.include_domains == self.include_domains,
            r.exclude_domains == self.exclude_domains,
            r.preferred_provider matches Some(p) && p@ == provider@,
    {
        SearchRequest { preferred_provider: Some(provider.to_string()), ..self }
    }

    /// The parameters that a provider adapter receives.
    pub fn into_search_params(self) -> (r: BaseSearchParams)
        ensures
            r.query == self.query,
            r.limit == self.limit,
            r.include_domains == self.include_domains,
            r.exclude_domains == self.exclude_domains,
    {
        BaseSearchParams {
            query: self.query,
            limit: self.limit,
            include_domains: self.include_domains,
            exclude_domains: self.exclude_domains,
        }
    }
}

/// The answer to a successful search.
#[derive(Debug)]
pub struct SearchResponse {
    pub results: Vec<SearchResult>,
    /// The provider whose results these are.
    pub providers_used: Vec<String>,
    pub query: String,
    /// Whether the results came from the cache rather than the provider.
    pub cache_hit: bool,
}

impl SearchResponse {
    pub fn len(&self) -> (r: usize)
        ensures
            r == self.results@.len(),
    {
        self.results.len()
    }

    pub fn is_empty(&self) -> (r: bool)
        ensures
            r == (self.results@.len() == 0),
    {
        self.results.len() == 0
    }

    /// The results that came from `provider`, in their order.
    pub fn results_from_provider(&self, provider: &str) -> (r: Vec<&SearchResult>)
        ensures
            r@.map_values(|x: &SearchResult| *x) == self.results@.filter(from_provider(provider@)),
    {
        let ghost pred = from_provider(provider@);
        let key = provider.to_string();
        let mut r: Vec<&SearchResult> = Vec::new();
        let mut i: usize = 0;
        while i < self.results.len()
            invariant
                i <= self.results@.len(),
                key@ == provider@,
                pred == from_provider(provider@),
                r@.map_values(|x: &SearchResult| *x) == self.results@.take(i as int).filter(pred),
            decreases self.results@.len() - i,
        {
            let ghost s = self.results@.take(i as int + 1);
            let ghost before = r@;
            proof {
                assert(s.drop_last() =~= self.results@.take(i as int));
                assert(s.last() == self.results@[i as int]);
                reveal(Seq::filter);
                assert(s.filter(pred) == (if pred(s.last()) {
                    s.drop_last().filter(pred).push(s.last())
                } else {
                    s.drop_last().filter(pred)
                }));
            }
            if self.results[i].source_provider == key {
                r.push(&self.results[i]);
                proof {
                    assert(r@.map_values(|x: &SearchResult| *x) =~= before.map_values(|x: &SearchResult| *x).push(self.results@[i as int]));
                }
            }
            proof {
                assert(r@.map_values(|x: &SearchResult| *x) == s.filter(pred));
            }
            i = i + 1;
        }
        proof {
            assert(self.results@.take(i as int) =~= self.results@);
        }
        r
    }
}

/// Whether `e` is the error of a search that had no provider to try.
pub open spec fn is_no_providers_error(e: ProviderError) -> bool {
    &&& e.error_type == ErrorType::ProviderError
    &&& e.message@ == "No providers available for search"@
    &&& e.provider@ == "client"@
}

/// Whether `e` is the error for a preferred provider named `p` that is not
/// registered.
pub open spec fn is_unknown_provider_error(e: ProviderError, p: Seq<char>) -> bool {
    &&& e.error_type == ErrorType::InvalidInput
    &&& e.message@ == "Provider '"@ + p + "' is not available"@
    &&& e.provider@ == "client"@
}

/// Whether `e` is the error of a registry built with no provider at all.
pub open spec fn is_empty_registry_error(e: ProviderError) -> bool {
    &&& e.error_type == ErrorType::ApiError
    &&& e.message@ == "No search providers could be initialized. Please check your API keys."@
    &&& e.provider@ == "client"@
}

/// The abstract state of a search in progress.
pub struct DispatchView {
    pub query: Seq<char>,
    /// The providers to try, in order.
    pub candidates: Seq<Seq<char>>,
    /// How many of them have failed so far.
    pub next: int,
    pub last_error: Option<ProviderError>,
}

/// A search about to start on `candidates`.
pub open spec fn planned(query: Seq<char>, candidates: Seq<Seq<char>>) -> DispatchView {
    DispatchView { query, candidates, next: 0, last_error: None }
}

/// The provider to invoke next, if any is left.
pub open spec fn current(d: DispatchView) -> Option<Seq<char>> {
    if 0 <= d.next < d.candidates.len() {
        Some(d.candidates[d.next])
    } else {
        None
    }
}

/// The state once the current provider has failed with `e`.
pub open spec fn after_provider_failure(d: DispatchView, e: ProviderError) -> DispatchView {
    DispatchView { next: d.next + 1, last_error: Some(e), ..d }
}

/// The state once the providers tried in turn have failed with `errs`.
pub open spec fn after_failures(d: DispatchView, errs: Seq<ProviderError>) -> DispatchView
    decreases errs.len(),
{
    if errs.len() == 0 {
        d
    } else {
        after_provider_failure(after_failures(d, errs.drop_last()), errs.last())
    }
}

/// The providers named in the answer when the current provider succeeds.
pub open spec fn winners(d: DispatchView) -> Seq<Seq<char>> {
    seq![d.candidates[d.next]]
}

/// The error a search ends with when no candidate is left: the last
/// provider failure, or, if no provider was tried, a "no providers" error.
pub open spec fn ends_with(d: DispatchView, e: ProviderError) -> bool {
    match d.last_error {
        Some(last) => e == last,
        None => is_no_providers_error(e),
    }
}

proof fn lemma_after_failures(d: DispatchView, errs: Seq<ProviderError>)
    ensures
        after_failures(d, errs).next == d.next + errs.len(),
        after_failures(d, errs).candidates == d.candidates,
        after_failures(d, errs).query == d.query,
        errs.len() > 0 ==> after_failures(d, errs).last_error == Some(errs.last()),
        errs.len() == 0 ==> after_failures(d, errs).last_error == d.last_error,
    decreases errs.len(),
{
    if errs.len() > 0 {
        lemma_after_failures(d, errs.drop_last());
    }
}

/// Fallback: when the first k candidates of a fresh search have failed and
/// more are left, candidate k is invoked next, each earlier one was invoked
/// in its turn, and if candidate k succeeds the answer names it alone.
pub proof fn lemma_fallback(d: DispatchView, errs: Seq<ProviderError>)
    requires
        d.next == 0,
        errs.len() < d.candidates.len(),
    ensures
        forall|k: int|
            0 <= k < errs.len() ==> current(#[trigger] after_failures(d, errs.take(k))) == Some(
                d.candidates[k],
            ),
        current(after_failures(d, errs)) == Some(d.candidates[errs.len() as int]),
        winners(after_failures(d, errs)) == seq![d.candidates[errs.len() as int]],
{
    assert forall|k: int| 0 <= k < errs.len() implies current(
        #[trigger] after_failures(d, errs.take(k)),
    ) == Some(d.candidates[k]) by {
        lemma_after_failures(d, errs.take(k));
    }
    lemma_after_failures(d, errs);
}

/// Exhaustion: when every candidate of a fresh search has failed, none is
/// left to invoke and the search ends with the last failure.
pub proof fn lemma_exhaustion(d: DispatchView, errs: Seq<ProviderError>, e: ProviderError)
    requires
        d.next == 0,
        errs.len() == d.candidates.len(),
        errs.len() >= 1,
    ensures
        current(after_failures(d, errs)) is None,
        ends_with(after_failures(d, errs), e) <==> e == errs.last(),
{
    lemma_after_failures(d, errs);
}

/// A search in progress: the plan, and how far it has got.
pub struct Dispatch {
    query: String,
    params: BaseSearchParams,
    candidates: Vec<String>,
    next: usize,
    last_error: Option<ProviderError>,
}

impl View for Dispatch {
    type V = DispatchView;

    closed spec fn view(&self) -> DispatchView {
        DispatchView {
            query: self.query@,
            candidates: names_of(self.candidates@),
            next: self.next as int,
            last_error: self.last_error,
        }
    }
}

impl Dispatch {
    /// A search of `request` that will try `candidates` in order.
    fn start(request: SearchRequest, candidates: Vec<String>) -> (r: Self)
        ensures
            r.wf(),
            r@ == planned(request.query@, names_of(candidates@)),
            r.spec_params() == (BaseSearchParams {
                query: request.query,
                limit: request.limit,
                include_domains: request.include_domains,
                exclude_domains: request.exclude_domains,
            }),
    {
        let query = request.query.clone();
        Dispatch {
            query,
            params: request.into_search_params(),
            candidates,
            next: 0,
            last_error: None,
        }
    }

    pub closed spec fn wf(&self) -> bool {
        self.next <= self.candidates@.len()
    }

    pub closed spec fn spec_params(&self) -> BaseSearchParams {
        self.params
    }

    /// The parameters to hand to each provider.
    pub fn params(&self) -> (r: &BaseSearchParams)
        ensures
            *r == self.spec_params(),
    {
        &self.params
    }

    /// The provider to invoke next; none once every candidate has failed.
    pub fn next_provider(&self) -> (r: Option<String>)
        requires
            self.wf(),
        ensures
            r matches Some(p) ==> current(self@) == Some(p@),
            r is None ==> current(self@) is None,
    {
        if self.next < self.candidates.len() {
            Some(self.candidates[self.next].clone())
        } else {
            None
        }
    }

    /// Records that the current provider failed with `err`; the next
    /// candidate, if any, is tried after it.
    pub fn record_failure(&mut self, err: ProviderError)
        requires
            old(self).wf(),
            current(old(self)@) is Some,
        ensures
            final(self).wf(),
            final(self)@ == after_provider_failure(old(self)@, err),
            final(self).spec_params() == old(self).spec_params(),
    {
        let n = self.candidates.len();
        proof {
            assert(names_of(self.candidates@).len() == n);
        }
        self.next = self.next + 1;
        self.last_error = Some(err);
        proof {
            assert(names_of(self.candidates@) == old(self)@.candidates);
        }
    }

    /// Ends the search with the results of the current provider; no later
    /// candidate is tried.
    pub fn succeed(self, results: Vec<SearchResult>) -> (r: SearchResponse)
        requires
            self.wf(),
            current(self@) is Some,
        ensures
            r.results == results,
            names_of(r.providers_used@) == winners(self@),
            r.query@ == self@.query,
            !r.cache_hit,
    {
        self.answer(results, false)
    }

    /// Ends the search with results for the current provider found in the
    /// cache; the provider is not invoked.
    pub fn succeed_from_cache(self, results: Vec<SearchResult>) -> (r: SearchResponse)
        requires
            self.wf(),
            current(self@) is Some,
        ensures
            r.results == results,
            names_of(r.providers_used@) == winners(self@),
            r.query@ == self@.query,
            r.cache_hit,
    {
        self.answer(results, true)
    }

    fn answer(self, results: Vec<SearchResult>, cache_hit: bool) -> (r: SearchResponse)
        requires
            self.wf(),
            current(self@) is Some,
        ensures
            r.results == results,
            names_of(r.providers_used@) == winners(self@),
            r.query@ == self@.query,
            r.cache_hit == cache_hit,
    {
        let mut used: Vec<String> = Vec::new();
        used.push(self.candidates[self.next].clone());
        proof {
            assert(names_of(used@) =~= winners(self@));
        }
        SearchResponse { results, providers_used: used, query: self.query, cache_hit }
    }

    /// The error the search ends with once no candidate is left.
    pub fn exhausted(self) -> (r: ProviderError)
        requires
            current(self@) is None,
        ensures
            ends_with(self@, r),
    {
        match self.last_error {
            Some(e) => e,
            None => no_providers_error(),
        }
    }
}

pub(crate) fn no_providers_error() -> (r: ProviderError)
    ensures
        is_no_providers_error(r),
{
    ProviderError::new(
        ErrorType::ProviderError,
        "No providers available for search".to_string(),
        "client".to_string(),
    )
}

/// Whether `e` is the error for a preferred provider named `p` that is not
/// registered, as a bounded search reports it.
pub open spec fn is_unavailable_preferred_error(e: ProviderError, p: Seq<char>) -> bool {
    &&& e.error_type == ErrorType::InvalidInput
    &&& e.message@ == "Preferred provider '"@ + p + "' not available"@
    &&& e.provider@ == "client"@
}

/// The registered providers, by name, each with a description. The host
/// program holds the adapters themselves under the same names.
pub struct OmnisearchClient {
    names: Vec<String>,
    descriptions: Vec<String>,
}

impl OmnisearchClient {
    /// The registered names, in order of registration.
    pub closed spec fn providers(&self) -> Seq<Seq<char>> {
        names_of(self.names@)
    }

    /// The registered (name, description) pairs.
    pub closed spec fn entries(&self) -> Seq<(Seq<char>, Seq<char>)> {
        Seq::new(self.names@.len(), |i: int| (self.names@[i]@, self.descriptions@[i]@))
    }

    pub closed spec fn wf(&self) -> bool {
        &&& self.names@.len() == self.descriptions@.len()
        &&& forall|i: int, j: int|
            0 <= i < self.names@.len() && 0 <= j < self.names@.len() && i != j ==> self.names@[i]@
                != self.names@[j]@
    }

    /// Whether a name is registered.
    pub open spec fn in_registry(&self) -> spec_fn(Seq<char>) -> bool {
        |n: Seq<char>| self.providers().contains(n)
    }

    /// A registry with the given (name, description) pairs; a name given
    /// twice keeps its last description. An empty list is refused.
    pub fn new(providers: Vec<(String, String)>) -> (r: Result<Self, ProviderError>)
        ensures
            (r is Err) == (providers@.len() == 0),
            r matches Err(e) ==> is_empty_registry_error(e),
            r matches Ok(c) ==> c.wf() && forall|n: Seq<char>|
                c.providers().contains(n) <==> exists|i: int|
                    0 <= i < providers@.len() && #[trigger] providers@[i].0@ == n,
    {
        if providers.len() == 0 {
            return Err(
                ProviderError::new(
                    ErrorType::ApiError,
                    "No search providers could be initialized. Please check your API keys.".to_string(),
                    "client".to_string(),
                ),
            );
        }
        let ghost all = providers@;
        let n_all = providers.len();
        let mut rest = providers;
        let mut c = OmnisearchClient { names: Vec::new(), descriptions: Vec::new() };
        let mut i: usize = 0;
        while rest.len() > 0
            invariant
                i <= all.len(),
                all.len() == n_all,
                rest@ == all.skip(i as int),
                c.wf(),
                forall|n: Seq<char>|
                    c.providers().contains(n) <==> exists|j: int|
                        0 <= j < i && #[trigger] all[j].0@ == n,
            decreases rest@.len(),
        {
            let (name, description) = rest.remove(0);
            proof {
                assert(all[i as int].0 == name);
            }
            let ghost pre = c.providers();
            c.register(name, description);
            proof {
                assert forall|n: Seq<char>|
                    c.providers().contains(n) <==> exists|j: int|
                        0 <= j < i + 1 && #[trigger] all[j].0@ == n by {
                    if exists|j: int| 0 <= j < i + 1 && #[trigger] all[j].0@ == n {
                        let j = choose|j: int| 0 <= j < i + 1 && #[trigger] all[j].0@ == n;
                        if j < i {
                            assert(pre.contains(n));
                        } else {
                            assert(n == all[i as int].0@);
                        }
                    }
                }
                assert(rest@ =~= all.skip(i + 1));
            }
            i = i + 1;
        }
        Ok(c)
    }

    /// The position of `name`, if it is registered.
    fn find(&self, name: &String) -> (r: Option<usize>)
        requires
            self.wf(),
        ensures
            r matches Some(i) ==> i < self.names@.len() && self.names@[i as int]@ == name@,
            r is None ==> !self.providers().contains(name@),
    {
        let mut i: usize = 0;
        while i < self.names.len()
            invariant
                self.wf(),
                i <= self.names@.len(),
                forall|j: int| 0 <= j < i ==> self.names@[j]@ != name@,
            decreases self.names@.len() - i,
        {
            if self.names[i] == *name {
                return Some(i);
            }
            i = i + 1;
        }
        None
    }

    /// Adds a provider, or gives a registered one a new description.
    pub fn register(&mut self, name: String, description: String)
        requires
            old(self).wf(),
        ensures
            final(self).wf(),
            old(self).providers().contains(name@) ==> final(self).providers() == old(self).providers(),
            !old(self).providers().contains(name@) ==> final(self).providers() == old(self).providers().push(name@),
            forall|n: Seq<char>| #[trigger] final(self).providers().contains(n) <==> (old(self).providers().contains(n) || n == name@),
            final(self).entries().contains((name@, description@)),
    {
        match self.find(&name) {
            Some(i) => {
                self.descriptions.set(i, description);
                proof {
                    assert(self.entries()[i as int] == (name@, description@));
                    assert(self.providers()[i as int] == name@);
                }
            },
            None => {
                let ghost pre = *self;
                proof {
                    assert forall|k: int| 0 <= k < pre.names@.len() implies pre.names@[k]@ != name@ by {
                        if pre.names@[k]@ == name@ {
                            assert(pre.providers()[k] == name@);
                        }
                    }
                    lemma_names_push(pre.names@, name);
                }
                self.names.push(name);
                self.descriptions.push(description);
                proof {
                    assert(self.providers() == pre.providers().push(name@));
                    assert(self.providers()[self.names@.len() - 1] == name@);
                    assert(self.entries()[self.names@.len() - 1] == (name@, description@));
                    assert forall|n: Seq<char>| #[trigger] self.providers().contains(n) implies (pre.providers().contains(n) || n == name@) by {
                        let k = choose|k: int| 0 <= k < self.providers().len() && self.providers()[k] == n;
                        if k < pre.names@.len() {
                            assert(pre.providers()[k] == n);
                        }
                    }
                    assert forall|n: Seq<char>| pre.providers().contains(n) implies #[trigger] self.providers().contains(n) by {
                        let k = choose|k: int| 0 <= k < pre.providers().len() && pre.providers()[k] == n;
                        assert(self.providers()[k] == n);
                    }
                }
            },
        }
    }

    /// Whether a provider is registered under `name`.
    pub fn has_provider(&self, name: &str) -> (r: bool)
        requires
            self.wf(),
        ensures
            r == self.providers().contains(name@),
    {
        let key = name.to_string();
        match self.find(&key) {
            Some(i) => {
                proof {
                    assert(self.providers()[i as int] == name@);
                }
                true
            },
            None => false,
        }
    }

    /// The registered names, in order of registration.
    pub fn available_providers(&self) -> (r: Vec<String>)
        ensures
            names_of(r@) == self.providers(),
    {
        let mut r: Vec<String> = Vec::new();
        let mut i: usize = 0;
        while i < self.names.len()
            invariant
                i <= self.names@.len(),
                names_of(r@) == self.providers().take(i as int),
            decreases self.names@.len() - i,
        {
            let ghost before = r@;
            let x = self.names[i].clone();
            r.push(x);
            proof {
                lemma_names_push(before, x);
                assert(self.providers().take(i as int + 1) =~= self.providers().take(i as int).push(self.providers()[i as int]));
            }
            i = i + 1;
        }
        proof {
            assert(self.providers().take(i as int) =~= self.providers());
        }
        r
    }

    /// The name and description of the provider `name`, if registered.
    pub fn provider_info(&self, name: &str) -> (r: Option<(String, String)>)
        requires
            self.wf(),
        ensures
            (r is Some) == self.providers().contains(name@),
            r matches Some((n, d)) ==> n@ == name@ && self.entries().contains((n@, d@)),
    {
        let key = name.to_string();
        match self.find(&key) {
            Some(i) => {
                proof {
                    assert(self.providers()[i as int] == name@);
                    assert(self.entries()[i as int] == (self.names@[i as int]@, self.descriptions@[i as int]@));
                }
                Some((self.names[i].clone(), self.descriptions[i].clone()))
            },
            None => None,
        }
    }

    /// The registered providers among `order`, in that order.
    fn registered_in_order(&self, order: &Vec<String>) -> (r: Vec<String>)
        requires
            self.wf(),
        ensures
            names_of(r@) == names_of(order@).filter(self.in_registry()),
    {
        let ghost pred = self.in_registry();
        let ghost all = names_of(order@);
        let mut r: Vec<String> = Vec::new();
        let mut i: usize = 0;
        while i < order.len()
            invariant
                self.wf(),
                i <= order@.len(),
                pred == self.in_registry(),
                all == names_of(order@),
                names_of(r@) == all.take(i as int).filter(pred),
            decreases order@.len() - i,
        {
            let ghost s = all.take(i as int + 1);
            let ghost before = r@;
            proof {
                assert(s.drop_last() =~= all.take(i as int));
                assert(s.last() == order@[i as int]@);
                reveal(Seq::filter);
                assert(s.filter(pred) == (if pred(s.last()) {
                    s.drop_last().filter(pred).push(s.last())
                } else {
                    s.drop_last().filter(pred)
                }));
            }
            if self.has_provider(order[i].as_str()) {
                r.push(order[i].clone());
                proof {
                    assert(names_of(r@) =~= names_of(before).push(order@[i as int]@));
                }
            }
            i = i + 1;
        }
        proof {
            assert(all.take(i as int) =~= all);
        }
        r
    }

    /// Plans a search. A preferred provider is used alone, and must be
    /// registered; otherwise the registered providers are tried in the fixed
    /// priority order.
    pub fn search(&self, request: SearchRequest) -> (r: Result<Dispatch, ProviderError>)
        requires
            self.wf(),
        ensures
            r matches Ok(d) ==> d.wf() && d.spec_params() == (BaseSearchParams {
                query: request.query,
                limit: request.limit,
                include_domains: request.include_domains,
                exclude_domains: request.exclude_domains,
            }),
            match request.preferred_provider {
                Some(p) => if self.providers().contains(p@) {
                    r matches Ok(d) && d@ == planned(request.query@, seq![p@])
                } else {
                    r matches Err(e) && is_unknown_provider_error(e, p@)
                },
                None => r matches Ok(d) && d@ == planned(
                    request.query@,
                    priority_order().filter(self.in_registry()),
                ),
            },
    {
        let candidates = match &request.preferred_provider {
            Some(p) => {
                if !self.has_provider(p.as_str()) {
                    let mut m = String::from_str("Provider '");
                    m.append(p.as_str());
                    m.append("' is not available");
                    return Err(ProviderError::new(ErrorType::InvalidInput, m, "client".to_string()));
                }
                let mut v: Vec<String> = Vec::new();
                v.push(p.clone());
                proof {
                    assert(names_of(v@) =~= seq![p@]);
                }
                v
            },
            None => {
                let order = strings_of(&["tavily", "google", "duckduckgo", "reddit", "exa", "brave"]);
                proof {
                    assert(names_of(order@) =~= priority_order());
                }
                self.registered_in_order(&order)
            },
        };
        Ok(Dispatch::start(request, candidates))
    }

    /// Plans a search bounded to `max_providers` candidates: a preferred
    /// provider alone, which must be registered, or else the first
    /// `max_providers` registered providers in order of registration.
    pub fn multi_search(&self, request: SearchRequest, max_providers: usize) -> (r: Result<
        Dispatch,
        ProviderError,
    >)
        requires
            self.wf(),
        ensures
            r matches Ok(d) ==> d.wf() && d.spec_params() == (BaseSearchParams {
                query: request.query,
                limit: request.limit,
                include_domains: request.include_domains,
                exclude_domains: request.exclude_domains,
            }),
            match request.preferred_provider {
                Some(p) => if self.providers().contains(p@) {
                    r matches Ok(d) && d@ == planned(request.query@, seq![p@])
                } else {
                    r matches Err(e) && is_unavailable_preferred_error(e, p@)
                },
                None => r matches Ok(d) && d@ == planned(
                    request.query@,
                    self.providers().take(
                        if max_providers < self.providers().len() {
                            max_providers as int
                        } else {
                            self.providers().len() as int
                        },
                    ),
                ),
            },
    {
        let candidates = match &request.preferred_provider {
            Some(p) => {
                if !self.has_provider(p.as_str()) {
                    let mut m = String::from_str("Preferred provider '");
                    m.append(p.as_str());
                    m.append("' not available");
                    return Err(ProviderError::new(ErrorType::InvalidInput, m, "client".to_string()));
                }
                let mut v: Vec<String> = Vec::new();
                v.push(p.clone());
                proof {
                    assert(names_of(v@) =~= seq![p@]);
                }
                v
            },
            None => {
                let mut v: Vec<String> = Vec::new();
                let mut i: usize = 0;
                while i < self.names.len() && i < max_providers
                    invariant
                        i <= self.names@.len(),
                        i <= max_providers,
                        names_of(v@) == self.providers().take(i as int),
                    decreases self.names@.len() - i,
                {
                    let ghost before = v@;
                    let x = self.names[i].clone();
                    v.push(x);
                    proof {
                        lemma_names_push(before, x);
                        assert(self.providers().take(i as int + 1) =~= self.providers().take(i as int).push(self.providers()[i as int]));
                    }
                    i = i + 1;
                }
                v
            },
        };
        Ok(Dispatch::start(request, candidates))
    }
}

} // verus!
