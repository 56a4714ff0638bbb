//! What a caller asks the provider for, and what it hands back.
use vstd::prelude::*;
use crate::factor_instances_provider::mixed::InstancesToUseDirectly;
use crate::factor_instances_provider::network_cache::FactorInstancesForSpecificNetworkCache;
use crate::types::keys::{HDFactorSource, HierarchicalDeterministicFactorInstance};

verus! {

/// A request for factor instances; the network is already known to the
/// provider.
#[derive(Clone, Debug, PartialEq, Eq)]
pub enum InstancesQuery {
    /// The instance at the next derivation entity index for a new account,
    /// from one factor source (typically the main one).
    AccountVeci { factor_source: HDFactorSource },
    /// A range of instances per factor source, starting at the next index:
    /// `number_of_instances_per_factor_source` for each of `factor_sources`
    /// (the number of accounts to securify).
    AccountMfa { number_of_instances_per_factor_source: usize, factor_sources: Vec<HDFactorSource> },
}

impl InstancesQuery {
    /// The factor sources the query derives with.
    pub fn factor_sources(&self) -> (v: Vec<HDFactorSource>)
        ensures
            match self {
                InstancesQuery::AccountVeci { factor_source } => v@ == seq![*factor_source],
                InstancesQuery::AccountMfa { factor_sources, .. } => v@ == factor_sources@,
            },
    {
        match self {
            InstancesQuery::AccountVeci { factor_source } => vec![*factor_source],
            InstancesQuery::AccountMfa { factor_sources, .. } => {
                let mut v: Vec<HDFactorSource> = Vec::new();
                let mut i: usize = 0;
                while i < factor_sources.len()
                    invariant
                        i <= factor_sources@.len(),
                        v@ == factor_sources@.take(i as int),
                    decreases factor_sources@.len() - i,
                {
                    v.push(factor_sources[i]);
                    i = i + 1;
                    assert(v@ =~= factor_sources@.take(i as int));
                }
                assert(factor_sources@.take(i as int) =~= factor_sources@);
                v
            },
        }
    }
}

/// What providing instances gives: the cache to persist in place of the one
/// read, and the instances to use directly (empty when all went into the
/// cache, as when deriving ahead for a new factor source).
pub struct ProvidedInstances {
    pub cache_to_persist: FactorInstancesForSpecificNetworkCache,
    pub instances_to_be_used: InstancesToUseDirectly,
}

impl ProvidedInstances {
    pub fn new(cache: FactorInstancesForSpecificNetworkCache, to_use_directly: InstancesToUseDirectly) -> (p: Self)
        ensures
            p.cache_to_persist == cache,
            p.instances_to_be_used == to_use_directly,
    {
        ProvidedInstances { cache_to_persist: cache, instances_to_be_used: to_use_directly }
    }

    /// The cache to persist and the one instance of a new account.
    pub fn for_account_veci(cache: FactorInstancesForSpecificNetworkCache, instance: HierarchicalDeterministicFactorInstance) -> (p: Self)
        ensures
            p.cache_to_persist == cache,
            p.instances_to_be_used.0@ == seq![instance],
    {
        Self::new(cache, InstancesToUseDirectly::just(instance))
    }
}

} // verus!
