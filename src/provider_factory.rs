//! Which search providers the configuration allows to be created.
use vstd::prelude::*;

use crate::client::{lemma_names_push, names_of};
use crate::config::Config;

verus! {

/// `[n]` if `b` holds, else nothing.
#[verifier::opaque]
pub open spec fn named_if(b: bool, n: Seq<char>) -> Seq<Seq<char>> {
    if b {
        seq![n]
    } else {
        Seq::empty()
    }
}

/// The search providers whose credentials are configured, in the order in
/// which they are created: Tavily, Google (key and engine id), Reddit
/// (client id, secret and user agent), DuckDuckGo (always), Baidu, Bright
/// Data (user name and password), Exa.
pub open spec fn configured_providers(c: Config) -> Seq<Seq<char>> {
    named_if(c.providers.tavily.api_key is Some, "tavily"@) + named_if(
        c.providers.google.api_key is Some && c.providers.google.search_engine_id is Some,
        "google"@,
    ) + named_if(
        c.providers.reddit.client_id is Some && c.providers.reddit.client_secret is Some
            && c.providers.reddit.user_agent is Some,
        "reddit"@,
    ) + named_if(true, "duckduckgo"@) + named_if(c.providers.baidu.api_key is Some, "baidu"@)
        + named_if(
        c.providers.brightdata.username is Some && c.providers.brightdata.password is Some,
        "brightdata"@,
    ) + named_if(c.providers.exa.api_key is Some, "exa"@)
}

fn push_if(v: &mut Vec<String>, b: bool, name: &str)
    ensures
        names_of(final(v)@) == names_of(old(v)@) + named_if(b, name@),
{
    reveal(named_if);
    if b {
        let s = name.to_string();
        v.push(s);
        proof {
            lemma_names_push(old(v)@, s);
            assert(names_of(old(v)@).push(name@) =~= names_of(old(v)@) + seq![name@]);
        }
    } else {
        assert(names_of(old(v)@) + Seq::<Seq<char>>::empty() =~= names_of(old(v)@));
    }
}

/// Creation of search providers.
pub struct ProviderFactory;

impl ProviderFactory {
    /// The names of the search providers to create under `config`.
    pub fn configured_search_providers(config: &Config) -> (r: Vec<String>)
        ensures
            names_of(r@) == configured_providers(*config),
    {
        let p = &config.providers;
        let mut v: Vec<String> = Vec::new();
        proof {
            assert(names_of(v@) =~= Seq::<Seq<char>>::empty());
        }
        push_if(&mut v, p.tavily.api_key.is_some(), "tavily");
        push_if(&mut v, p.google.api_key.is_some() && p.google.search_engine_id.is_some(), "google");
        push_if(
            &mut v,
            p.reddit.client_id.is_some() && p.reddit.client_secret.is_some() && p.reddit.user_agent.is_some(),
            "reddit",
        );
        push_if(&mut v, true, "duckduckgo");
        push_if(&mut v, p.baidu.api_key.is_some(), "baidu");
        push_if(&mut v, p.brightdata.username.is_some() && p.brightdata.password.is_some(), "brightdata");
        push_if(&mut v, p.exa.api_key.is_some(), "exa");
        proof {
            assert(Seq::<Seq<char>>::empty() + named_if(config.providers.tavily.api_key is Some, "tavily"@)
                =~= named_if(config.providers.tavily.api_key is Some, "tavily"@));
        }
        v
    }
}

} // verus!
