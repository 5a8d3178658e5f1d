//! Values exchanged with provider adapters.
use vstd::prelude::*;

verus! {

/// One search hit, passed through the core unchanged.
#[derive(Debug, Clone)]
pub struct SearchResult {
    pub title: String,
    pub url: String,
    pub snippet: String,
    /// Relevance in millionths (0.95 is 950000), when the provider gives one.
    pub score: Option<u32>,
    pub source_provider: String,
}

/// The parameters handed to a provider adapter.
#[derive(Debug, Clone)]
pub struct BaseSearchParams {
    pub query: String,
    pub limit: Option<u32>,
    pub include_domains: Option<Vec<String>>,
    pub exclude_domains: Option<Vec<String>>,
}

#[derive(Debug, Clone)]
pub struct ProcessingResult {
    pub content: String,
    pub raw_contents: Option<Vec<RawContent>>,
    pub metadata: ProcessingMetadata,
    pub source_provider: String,
}

#[derive(Debug, Clone)]
pub struct RawContent {
    pub url: String,
    pub content: String,
}

#[derive(Debug, Clone)]
pub struct ProcessingMetadata {
    pub title: Option<String>,
    pub author: Option<String>,
    pub date: Option<String>,
    pub word_count: Option<u32>,
    pub failed_urls: Option<Vec<String>>,
    pub urls_processed: Option<u32>,
    pub successful_extractions: Option<u32>,
    pub extract_depth: Option<String>,
}

#[derive(Debug, Clone)]
pub struct EnhancementResult {
    pub original_content: String,
    pub enhanced_content: String,
    pub enhancements: Vec<Enhancement>,
    pub sources: Option<Vec<EnhancementSource>>,
    pub source_provider: String,
}

#[derive(Debug, Clone)]
pub struct Enhancement {
    pub kind: String,
    pub description: String,
}

#[derive(Debug, Clone)]
pub struct EnhancementSource {
    pub title: String,
    pub url: String,
}

/// A search provider: an adapter over one vendor's search service.
pub trait SearchProvider {
    fn search(&self, params: &BaseSearchParams) -> Result<Vec<SearchResult>, ProviderError>;

    fn name(&self) -> &'static str;

    fn description(&self) -> &'static str;
}

/// A provider that extracts content from pages.
pub trait ProcessingProvider {
    fn process_content(&self, url: Vec<String>, extract_depth: Option<String>) -> Result<
        ProcessingResult,
        ProviderError,
    >;

    fn name(&self) -> &'static str;

    fn description(&self) -> &'static str;
}

/// A provider that enriches a piece of content.
pub trait EnhancementProvider {
    fn enhance_content(&self, content: String) -> Result<EnhancementResult, ProviderError>;

    fn name(&self) -> &'static str;

    fn description(&self) -> &'static str;
}

/// The class of a provider failure.
#[derive(Debug, Clone, Copy, PartialEq, Eq, Structural)]
pub enum ErrorType {
    ApiError,
    RateLimit,
    InvalidInput,
    ProviderError,
}

/// A failure reported by, or on behalf of, a provider.
#[derive(Debug, Clone)]
pub struct ProviderError {
    pub error_type: ErrorType,
    pub message: String,
    pub provider: String,
}

impl ErrorType {
    /// The label of the class, as shown to users.
    pub fn label(&self) -> (r: &'static str)
        ensures
            r@ == error_type_label(*self),
    {
        match self {
            ErrorType::ApiError => "API Error",
            ErrorType::RateLimit => "Rate Limit",
            ErrorType::InvalidInput => "Invalid Input",
            ErrorType::ProviderError => "Provider Error",
        }
    }
}

pub open spec fn error_type_label(t: ErrorType) -> Seq<char> {
    match t {
        ErrorType::ApiError => "API Error"@,
        ErrorType::RateLimit => "Rate Limit"@,
        ErrorType::InvalidInput => "Invalid Input"@,
        ErrorType::ProviderError => "Provider Error"@,
    }
}

impl ProviderError {
    pub fn new(error_type: ErrorType, message: String, provider: String) -> (r: Self)
        ensures
            r.error_type == error_type,
            r.message == message,
            r.provider == provider,
    {
        ProviderError { error_type, message, provider }
    }
}

} // verus!
