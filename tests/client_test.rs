use omnisearch_core::client::{OmnisearchClient, SearchRequest};
use omnisearch_core::types::{ErrorType, ProviderError, SearchResult};

#[test]
fn test_search_request_builder() {
    let request = SearchRequest::new("test query")
        .limit(10)
        .include_domains(&["example.com", "test.org"])
        .provider("tavily");

    assert_eq!(request.query, "test query");
    assert_eq!(request.limit, Some(10));
    assert_eq!(request.preferred_provider, Some("tavily".to_string()));
    assert_eq!(
        request.include_domains,
        Some(vec!["example.com".to_string(), "test.org".to_string()])
    );
}

#[test]
fn test_search_params_conversion() {
    let request = SearchRequest::new("test").limit(5).exclude_domains(&["spam.com"]);

    let params = request.into_search_params();
    assert_eq!(params.query, "test");
    assert_eq!(params.limit, Some(5));
    assert_eq!(params.exclude_domains, Some(vec!["spam.com".to_string()]));
}

fn registry(names: &[&str]) -> OmnisearchClient {
    let list = names
        .iter()
        .map(|n| (n.to_string(), format!("{} search", n)))
        .collect::<Vec<_>>();
    OmnisearchClient::new(list).unwrap()
}

fn failure(provider: &str) -> ProviderError {
    ProviderError::new(ErrorType::ProviderError, format!("{} failed", provider), provider.to_string())
}

fn hit(provider: &str) -> SearchResult {
    SearchResult {
        title: "t".to_string(),
        url: "https://example.com".to_string(),
        snippet: "s".to_string(),
        score: Some(950_000),
        source_provider: provider.to_string(),
    }
}

#[test]
fn fallback_returns_first_success() {
    let client = registry(&["tavily", "google", "duckduckgo"]);
    let mut d = client.search(SearchRequest::new("rust")).unwrap();
    let mut invoked = Vec::new();
    let response = loop {
        let p = d.next_provider().expect("a candidate is left");
        invoked.push(p.clone());
        if p == "duckduckgo" {
            break d.succeed(vec![hit(&p)]);
        }
        d.record_failure(failure(&p));
    };
    assert_eq!(invoked, vec!["tavily", "google", "duckduckgo"]);
    assert_eq!(response.providers_used, vec!["duckduckgo".to_string()]);
    assert_eq!(response.len(), 1);
    assert_eq!(response.results[0].source_provider, "duckduckgo");
    assert_eq!(response.query, "rust");
}

#[test]
fn exhaustion_returns_last_failure() {
    let client = registry(&["tavily", "google"]);
    let mut d = client.search(SearchRequest::new("rust")).unwrap();
    while let Some(p) = d.next_provider() {
        d.record_failure(failure(&p));
    }
    let e = d.exhausted();
    assert_eq!(e.provider, "google");
    assert_eq!(e.message, "google failed");
}

#[test]
fn no_candidates_gives_no_providers_error() {
    let client = registry(&["kagi"]);
    let d = client.search(SearchRequest::new("rust")).unwrap();
    assert!(d.next_provider().is_none());
    let e = d.exhausted();
    assert_eq!(e.error_type, ErrorType::ProviderError);
    assert_eq!(e.message, "No providers available for search");
}

#[test]
fn unknown_preferred_provider_is_invalid_input() {
    let client = registry(&["tavily", "google"]);
    let r = client.search(SearchRequest::new("rust").provider("bing"));
    let e = r.err().unwrap();
    assert_eq!(e.error_type, ErrorType::InvalidInput);
    assert_eq!(e.message, "Provider 'bing' is not available");
}

#[test]
fn preferred_provider_is_used_alone() {
    let client = registry(&["tavily", "google"]);
    let mut d = client.search(SearchRequest::new("rust").provider("google")).unwrap();
    assert_eq!(d.next_provider(), Some("google".to_string()));
    d.record_failure(failure("google"));
    assert!(d.next_provider().is_none());
    assert_eq!(d.exhausted().provider, "google");
}

#[test]
fn priority_order_skips_unregistered() {
    let client = registry(&["exa", "reddit", "tavily"]);
    let mut d = client.search(SearchRequest::new("q")).unwrap();
    let mut order = Vec::new();
    while let Some(p) = d.next_provider() {
        order.push(p.clone());
        d.record_failure(failure(&p));
    }
    assert_eq!(order, vec!["tavily", "reddit", "exa"]);
}

#[test]
fn multi_search_is_bounded() {
    let client = registry(&["a", "b", "c"]);
    let mut d = client.multi_search(SearchRequest::new("q"), 2).unwrap();
    let mut order = Vec::new();
    while let Some(p) = d.next_provider() {
        order.push(p.clone());
        d.record_failure(failure(&p));
    }
    assert_eq!(order, vec!["a", "b"]);
    let e = client.multi_search(SearchRequest::new("q").provider("z"), 2).err().unwrap();
    assert_eq!(e.message, "Preferred provider 'z' not available");
}

#[test]
fn registry_lookups() {
    let client = registry(&["tavily", "google"]);
    assert!(client.has_provider("tavily"));
    assert!(!client.has_provider("Tavily"));
    assert_eq!(client.available_providers(), vec!["tavily".to_string(), "google".to_string()]);
    assert_eq!(
        client.provider_info("google"),
        Some(("google".to_string(), "google search".to_string()))
    );
    assert!(client.provider_info("bing").is_none());
    assert!(OmnisearchClient::new(Vec::new()).is_err());
}

#[test]
fn results_from_provider_filters() {
    let client = registry(&["tavily"]);
    let d = client.search(SearchRequest::new("q")).unwrap();
    let response = d.succeed(vec![hit("tavily"), hit("google"), hit("tavily")]);
    assert_eq!(response.results_from_provider("tavily").len(), 2);
    assert_eq!(response.results_from_provider("google").len(), 1);
    assert!(!response.is_empty());
}
