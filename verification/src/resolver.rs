//! The resolver factory: turns dependency requests into module records and
//! keeps a cache of resolutions that is cleared once per build, so results
//! from a previous generation never leak into the new one.
//!
//! Path-resolution internals are an external collaborator; here a request
//! resolves to a module carrying the request's bytes, and the side-effect
//! annotation comes from metadata the factory was constructed with.

use vstd::prelude::*;

verus! {

/// A module record in the module graph.
#[derive(Debug, Clone, PartialEq, Eq)]
pub struct Module {
    /// The request this module was resolved from.
    pub request: String,
    /// The module's built content.
    pub source: Vec<u8>,
    /// Whether the module is known to be free of import side effects.
    pub side_effect_free: bool,
}

/// Builds resolvers and caches their results across one build.
#[derive(Debug)]
pub struct ResolverFactory {
    /// Requests that resolve to side-effect-free modules, per the package
    /// metadata this factory was constructed with.
    pub side_effect_free_requests: Vec<String>,
    /// Requests resolved since the cache was last cleared.
    pub cache_entries: Vec<String>,
}

impl ResolverFactory {
    /// Whether `request` is annotated side-effect-free.
    pub open spec fn spec_side_effect_free(&self, request: Seq<char>) -> bool {
        exists|i: int|
            0 <= i < self.side_effect_free_requests@.len()
                && self.side_effect_free_requests@[i]@ == request
    }

    pub fn new(side_effect_free_requests: Vec<String>) -> (r: Self)
        ensures
            r.side_effect_free_requests == side_effect_free_requests,
            r.cache_entries@.len() == 0,
    {
        ResolverFactory { side_effect_free_requests, cache_entries: Vec::new() }
    }

    /// Drop every cached resolution: results of a previous build generation
    /// must not leak into the next one.
    pub fn clear_entries(&mut self)
        ensures
            final(self).cache_entries@.len() == 0,
            final(self).side_effect_free_requests == old(self).side_effect_free_requests,
    {
        self.cache_entries.clear();
    }

    /// Resolve a dependency request to a module: the module carries the
    /// request, its bytes as content, and the side-effect annotation.
    pub fn resolve(&mut self, request: &String) -> (m: Module)
        ensures
            m.request@ == request@,
            m.source@ == vstd::utf8::encode_utf8(request@),
            m.side_effect_free == old(self).spec_side_effect_free(request@),
            final(self).side_effect_free_requests == old(self).side_effect_free_requests,
    {
        let side_effect_free = crate::paths::in_string_list(
            &self.side_effect_free_requests,
            request.as_str(),
        );
        self.cache_entries.push(request.clone());
        let source = request.as_str().as_bytes_vec();
        Module { request: request.clone(), source, side_effect_free }
    }
}

} // verus!
