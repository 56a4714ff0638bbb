//! Newly derived instances for one request: some to use directly, the rest
//! to cache.
use vstd::prelude::*;
use crate::pre_derived_keys_cache::requests::{all_satisfy, UnquantifiedUnindexDerivationRequest};
use crate::types::factor_instances::FactorInstances;
use crate::types::keys::HierarchicalDeterministicFactorInstance;

verus! {

/// Instances newly derived for one request: those to cache (never empty)
/// and those to use directly (maybe empty), all answering the request.
#[derive(Debug)]
pub struct NewlyDerived {
    key: UnquantifiedUnindexDerivationRequest,
    to_cache: FactorInstances,
    pub to_use_directly: FactorInstances,
}

impl View for NewlyDerived {
    type V = (UnquantifiedUnindexDerivationRequest, Seq<HierarchicalDeterministicFactorInstance>, Seq<HierarchicalDeterministicFactorInstance>);

    closed spec fn view(&self) -> Self::V {
        (self.key, self.to_cache@, self.to_use_directly@)
    }
}

impl NewlyDerived {
    /// All of `to_cache` goes to the cache, none is used directly.
    pub fn cache_all(key: UnquantifiedUnindexDerivationRequest, to_cache: FactorInstances) -> (n: Self)
        requires
            to_cache@.len() > 0,
            all_satisfy(to_cache@, key),
        ensures
            n@ == (key, to_cache@, Seq::<HierarchicalDeterministicFactorInstance>::empty()),
    {
        Self::new(key, to_cache, FactorInstances::empty())
    }

    /// `to_cache` goes to the cache, `to_use_directly` is used directly.
    pub fn maybe_some_to_use_directly(
        key: UnquantifiedUnindexDerivationRequest,
        to_cache: FactorInstances,
        to_use_directly: FactorInstances,
    ) -> (n: Self)
        requires
            to_cache@.len() > 0,
            all_satisfy(to_cache@, key),
            all_satisfy(to_use_directly@, key),
        ensures
            n@ == (key, to_cache@, to_use_directly@),
    {
        Self::new(key, to_cache, to_use_directly)
    }

    fn new(key: UnquantifiedUnindexDerivationRequest, to_cache: FactorInstances, to_use_directly: FactorInstances) -> (n: Self)
        requires
            to_cache@.len() > 0,
            all_satisfy(to_cache@, key),
            all_satisfy(to_use_directly@, key),
        ensures
            n@ == (key, to_cache@, to_use_directly@),
    {
        Self { key, to_cache, to_use_directly }
    }

    /// The instances to use directly.
    pub fn to_use_directly(&self) -> (f: FactorInstances)
        ensures
            f@ == self@.2,
    {
        self.to_use_directly.clone()
    }

    /// The request and the instances to cache under it.
    pub fn key_value_for_cache(&self) -> (kv: (UnquantifiedUnindexDerivationRequest, FactorInstances))
        ensures
            kv.0 == self@.0,
            kv.1@ == self@.1,
    {
        (self.key, self.to_cache.clone())
    }
}

} // verus!
