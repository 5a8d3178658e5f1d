//! The registry of available tools, by category.
use vstd::prelude::*;

use crate::client::names_of;

verus! {

/// The provider names available in each category.
pub struct AvailableProviders {
    pub search: Vec<String>,
    pub ai_response: Vec<String>,
    pub processing: Vec<String>,
    pub enhancement: Vec<String>,
}

impl AvailableProviders {
    /// No provider in any category.
    pub fn new() -> (r: Self)
        ensures
            r.search@.len() == 0,
            r.ai_response@.len() == 0,
            r.processing@.len() == 0,
            r.enhancement@.len() == 0,
    {
        AvailableProviders {
            search: Vec::new(),
            ai_response: Vec::new(),
            processing: Vec::new(),
            enhancement: Vec::new(),
        }
    }

    /// Records a search provider, as an AI-response one if `is_ai_response`;
    /// a name already recorded in that category is not repeated.
    pub fn register_search_provider(&mut self, name: &str, is_ai_response: bool)
        ensures
            is_ai_response ==> names_of(final(self).ai_response@).contains(name@) && final(self).search
                == old(self).search,
            !is_ai_response ==> names_of(final(self).search@).contains(name@) && final(self).ai_response
                == old(self).ai_response,
            final(self).processing == old(self).processing,
            final(self).enhancement == old(self).enhancement,
    {
        if is_ai_response {
            add_name(&mut self.ai_response, name);
        } else {
            add_name(&mut self.search, name);
        }
    }

    /// Records a processing provider.
    pub fn register_processing_provider(&mut self, name: &str)
        ensures
            names_of(final(self).processing@).contains(name@),
            final(self).search == old(self).search,
            final(self).ai_response == old(self).ai_response,
            final(self).enhancement == old(self).enhancement,
    {
        add_name(&mut self.processing, name);
    }

    /// Records an enhancement provider.
    pub fn register_enhancement_provider(&mut self, name: &str)
        ensures
            names_of(final(self).enhancement@).contains(name@),
            final(self).search == old(self).search,
            final(self).ai_response == old(self).ai_response,
            final(self).processing == old(self).processing,
    {
        add_name(&mut self.enhancement, name);
    }
}

/// Adds `name` to a set of names kept as a list.
fn add_name(names: &mut Vec<String>, name: &str)
    ensures
        names_of(final(names)@).contains(name@),
        forall|n: Seq<char>| #[trigger] names_of(final(names)@).contains(n) <==> (names_of(old(names)@).contains(n) || n == name@),
{
    let key = name.to_string();
    let mut i: usize = 0;
    while i < names.len()
        invariant
            i <= names@.len(),
            key@ == name@,
            forall|j: int| 0 <= j < i ==> names@[j]@ != name@,
        decreases names@.len() - i,
    {
        if names[i] == key {
            proof {
                assert(names_of(names@)[i as int] == name@);
            }
            return;
        }
        i = i + 1;
    }
    let ghost before = names@;
    names.push(key);
    proof {
        crate::client::lemma_names_push(before, key);
        assert(names_of(names@)[names@.len() - 1] == name@);
        assert forall|n: Seq<char>| #[trigger] names_of(names@).contains(n) implies (names_of(before).contains(n) || n == name@) by {
            let k = choose|k: int| 0 <= k < names_of(names@).len() && names_of(names@)[k] == n;
            if k < before.len() {
                assert(names_of(before)[k] == n);
            }
        }
        assert forall|n: Seq<char>| names_of(before).contains(n) implies #[trigger] names_of(names@).contains(n) by {
            let k = choose|k: int| 0 <= k < names_of(before).len() && names_of(before)[k] == n;
            assert(names_of(names@)[k] == n);
        }
    }
}

/// Tool registration with the protocol server; there is nothing to register
/// beyond the providers themselves.
pub fn register_tools() -> (r: Result<(), ()>)
    ensures
        r is Ok,
{
    Ok(())
}

} // verus!
