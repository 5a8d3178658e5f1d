//! Helpers shared by provider adapters: credential checks and the shaping
//! of domain filters.
use vstd::prelude::*;

use crate::types::{ErrorType, ProviderError};

verus! {

/// Whether `e` reports that provider `p` has no API key.
pub open spec fn is_missing_key_error(e: ProviderError, p: Seq<char>) -> bool {
    &&& e.error_type == ErrorType::ApiError
    &&& e.message@ == "Missing API key for "@ + p
    &&& e.provider@ == p
}

/// Providers that authenticate with one API key.
pub trait ApiKeyProvider {
    /// Refuses a missing key.
    fn validate_api_key(&self, api_key: Option<&String>, provider_name: &str) -> (r: Result<
        (),
        ProviderError,
    >)
        ensures
            (r is Ok) == (api_key is Some),
            r matches Err(e) ==> is_missing_key_error(e, provider_name@),
    {
        match api_key {
            Some(_) => Ok(()),
            None => {
                let mut m = String::from_str("Missing API key for ");
                m.append(provider_name);
                Err(ProviderError::new(ErrorType::ApiError, m, provider_name.to_string()))
            },
        }
    }
}

/// Providers that authenticate with several credentials.
pub trait MultiCredentialProvider {
    /// Refuses the first missing credential, with the message given for it.
    fn validate_credentials(
        &self,
        credentials: Vec<Option<&String>>,
        error_messages: Vec<&str>,
        provider_name: &str,
    ) -> (r: Result<(), ProviderError>)
        requires
            error_messages@.len() >= credentials@.len(),
        ensures
            (r is Ok) == (forall|i: int| 0 <= i < credentials@.len() ==> #[trigger] credentials@[i] is Some),
            r matches Err(e) ==> exists|i: int|
                0 <= i < credentials@.len() && #[trigger] credentials@[i] is None && (forall|j: int|
                    0 <= j < i ==> credentials@[j] is Some) && e.error_type == ErrorType::ApiError
                    && e.message@ == error_messages@[i]@ && e.provider@ == provider_name@,
    {
        let mut i: usize = 0;
        while i < credentials.len()
            invariant
                i <= credentials@.len(),
                error_messages@.len() >= credentials@.len(),
                forall|j: int| 0 <= j < i ==> #[trigger] credentials@[j] is Some,
            decreases credentials@.len() - i,
        {
            if credentials[i].is_none() {
                return Err(
                    ProviderError::new(
                        ErrorType::ApiError,
                        error_messages[i].to_string(),
                        provider_name.to_string(),
                    ),
                );
            }
            i = i + 1;
        }
        Ok(())
    }
}

/// The items joined with `sep` between them.
pub open spec fn joined(items: Seq<Seq<char>>, sep: Seq<char>) -> Seq<char>
    decreases items.len(),
{
    if items.len() == 0 {
        Seq::empty()
    } else if items.len() == 1 {
        items[0]
    } else {
        joined(items.drop_last(), sep) + sep + items.last()
    }
}

/// Utility functions for provider adapters.
pub struct ProviderUtils;

impl ProviderUtils {
    /// A provider error without an underlying cause.
    pub fn provider_error(error_type: ErrorType, message: String, provider_name: String) -> (r:
        ProviderError)
        ensures
            r.error_type == error_type,
            r.message == message,
            r.provider == provider_name,
    {
        ProviderError::new(error_type, message, provider_name)
    }

    /// The domains separated by commas.
    pub fn join_domains(domains: &[String]) -> (r: String)
        ensures
            r@ == joined(domains@.map_values(|d: String| d@), ","@),
    {
        let r = join_with(domains, "", ",");
        proof {
            reveal_strlit("");
            assert forall|k: int| 0 <= k < domains@.len() implies ""@ + domains@[k]@ == domains@[k]@ by {
                assert(""@ + domains@[k]@ =~= domains@[k]@);
            }
            assert(domains@.map_values(|d: String| ""@ + d@) =~= domains@.map_values(|d: String| d@));
        }
        r
    }

    /// A search filter that admits any of the domains: `site:a OR site:b`.
    pub fn create_site_filter(domains: &[String]) -> (r: String)
        ensures
            r@ == joined(domains@.map_values(|d: String| "site:"@ + d@), " OR "@),
    {
        join_with(domains, "site:", " OR ")
    }
}

/// Each item behind `prefix`, joined with `sep`.
fn join_with(items: &[String], prefix: &str, sep: &str) -> (r: String)
    ensures
        r@ == joined(items@.map_values(|d: String| prefix@ + d@), sep@),
{
    let ghost all = items@.map_values(|d: String| prefix@ + d@);
    let mut out = String::new();
    let mut i: usize = 0;
    while i < items.len()
        invariant
            i <= items@.len(),
            all == items@.map_values(|d: String| prefix@ + d@),
            out@ == joined(all.take(i as int), sep@),
        decreases items@.len() - i,
    {
        proof {
            assert(all.take(i as int + 1).drop_last() =~= all.take(i as int));
        }
        if i > 0 {
            out.append(sep);
        }
        out.append(prefix);
        out.append(items[i].as_str());
        i = i + 1;
        proof {
            assert(out@ =~= joined(all.take(i as int), sep@));
        }
    }
    proof {
        assert(all.take(i as int) =~= all);
    }
    out
}

} // verus!
