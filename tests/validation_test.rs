use omnisearch_core::types::BaseSearchParams;
use omnisearch_core::validation::{
    has_excessive_repetition, is_suspicious_domain, is_suspicious_url, sanitize_query,
    validate_operation_name, validate_provider_name, validate_search_params, NameProblem,
};

#[test]
fn test_valid_query() {
    let params = BaseSearchParams {
        query: "rust programming".to_string(),
        limit: Some(10),
        include_domains: Some(vec!["github.com".to_string()]),
        exclude_domains: None,
    };
    let result = validate_search_params(&params);
    assert!(result.is_ok());
}

#[test]
fn test_malicious_query() {
    let params = BaseSearchParams {
        query: "<script>alert('xss')</script>".to_string(),
        limit: Some(10),
        include_domains: None,
        exclude_domains: None,
    };
    let result = validate_search_params(&params);
    assert!(result.is_err());
    assert!(result.unwrap_err().message().contains("malicious"));
}

#[test]
fn test_excessive_repetition() {
    let params = BaseSearchParams {
        query: "test test test test test test test test test test".to_string(),
        limit: Some(10),
        include_domains: None,
        exclude_domains: None,
    };
    let result = validate_search_params(&params);
    assert!(result.is_err());
}

#[test]
fn test_invalid_domain() {
    let params = BaseSearchParams {
        query: "test query".to_string(),
        limit: Some(10),
        include_domains: Some(vec!["not-a-valid-domain".to_string()]),
        exclude_domains: None,
    };
    let result = validate_search_params(&params);
    assert!(result.is_err());
}

#[test]
fn test_query_length_limits() {
    let long_query = "a".repeat(1001);
    let params = BaseSearchParams { query: long_query, limit: Some(10), include_domains: None, exclude_domains: None };
    let result = validate_search_params(&params);
    assert!(result.is_err());
}

#[test]
fn test_limit_validation() {
    let params = BaseSearchParams {
        query: "test".to_string(),
        limit: Some(101),
        include_domains: None,
        exclude_domains: None,
    };
    let result = validate_search_params(&params);
    assert!(result.is_err());
}

#[test]
fn test_sanitize_query() {
    let dirty_query = "test\0query\x01with\x7fcontrol";
    let clean_query = sanitize_query(dirty_query);
    assert_eq!(clean_query, "testquerywithcontrol");
}

#[test]
fn test_provider_name_validation() {
    assert!(validate_provider_name("valid_provider").is_ok());
    assert!(validate_provider_name("valid-provider").is_ok());
    assert!(validate_provider_name("").is_err());
    assert!(validate_provider_name("invalid provider").is_err());
    assert!(validate_provider_name(&"a".repeat(51)).is_err());
}

#[test]
fn test_suspicious_domain_detection() {
    assert!(is_suspicious_domain("example.tk"));
    assert!(is_suspicious_domain("test-with-many-hyphens-here.com"));
    assert!(is_suspicious_domain("123456789.com"));
    assert!(!is_suspicious_domain("github.com"));
    assert!(!is_suspicious_domain("docs.rs"));
}

#[test]
fn test_suspicious_url_detection() {
    assert!(is_suspicious_url("https://bit.ly/123"));
    assert!(is_suspicious_url("http://192.168.1.1/test"));
    assert!(is_suspicious_url("https://iplogger.org/test"));
    assert!(!is_suspicious_url("https://github.com/user/repo"));
    assert!(!is_suspicious_url("https://docs.rs/crate"));
}

#[test]
fn validation_failure_lists_every_finding() {
    let params = BaseSearchParams {
        query: "".to_string(),
        limit: Some(0),
        include_domains: None,
        exclude_domains: Some(vec!["a.com".to_string(), "A.com".to_string()]),
    };
    let e = validate_search_params(&params).unwrap_err();
    assert_eq!(
        e.message(),
        "Validation failed: query: Invalid length, limit: Value out of range, exclude_domains: Duplicate domains not allowed"
    );
}

#[test]
fn query_content_edge_cases() {
    let base = |q: &str| BaseSearchParams { query: q.to_string(), limit: None, include_domains: None, exclude_domains: None };
    assert!(validate_search_params(&base("first line\nsecond part\tend")).is_ok());
    assert!(validate_search_params(&base("bad\u{7}bell")).is_err());
    assert!(validate_search_params(&base("select name")).is_err());
    assert!(validate_search_params(&base("javascript:alert")).is_err());
    assert!(validate_search_params(&base(&"a".repeat(1000))).is_err());
}

#[test]
fn repetition_thresholds() {
    assert!(!has_excessive_repetition("aaaaaaaaaa"));
    assert!(has_excessive_repetition("aaaaaaaaaaa"));
    assert!(!has_excessive_repetition("one two three one five six seven eight nine ten"));
    assert!(has_excessive_repetition("One one ONE one two three four five six seven"));
    assert!(!has_excessive_repetition("a a a b"));
}

#[test]
fn sanitize_trims_and_truncates() {
    assert_eq!(sanitize_query("  keep\nthis\t  "), "keep\nthis");
    assert_eq!(sanitize_query(&"b".repeat(1200)).len(), 1000);
}

#[test]
fn name_problems_are_told_apart() {
    assert_eq!(validate_operation_name(""), Err(NameProblem::Empty));
    assert_eq!(validate_operation_name(&"x".repeat(51)), Err(NameProblem::TooLong));
    assert_eq!(validate_operation_name("search!"), Err(NameProblem::InvalidCharacters));
    assert_eq!(validate_operation_name("web_search-2"), Ok(()));
}

#[test]
fn url_ip_hosts_and_schemes() {
    assert!(is_suspicious_url("example.com/no-scheme"));
    assert!(!is_suspicious_url("https://300.1.1.1/x"));
    assert!(is_suspicious_url("https://+1.2.3.4"));
    assert!(!is_suspicious_url("https://1.2.3/x"));
}
