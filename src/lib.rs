//! Resilience and dispatch core for a multi-provider search service: a
//! per-provider circuit breaker, a per-provider rate limiter, a result cache
//! and a dispatcher that falls back from one provider to the next.
use vstd::prelude::*;

pub mod cache;
pub mod circuit_breaker;
pub mod client;
pub mod config;
pub mod dispatcher;
pub mod health;
pub mod metrics;
pub mod provider_base;
pub mod provider_factory;
pub mod rate_limiter;
pub mod text;
pub mod tools;
pub mod types;
pub mod validation;

verus! {

} // verus!
