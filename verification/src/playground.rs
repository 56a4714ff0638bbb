//! The factor sources to derive instances for, each with the base index to
//! start at in each key space, and what matching derived instances against a
//! profile found.
use vstd::prelude::*;
use crate::types::appendable::OrderedSet;
use crate::types::derivation::HDPathValue;
use crate::types::entities::VirtualEntityCreatingFactorInstance;
use crate::types::factor_instances::FactorInstances;
use crate::types::keys::HDFactorSource;
use crate::types::ordered_map::{entries_get, MapKey, OrderedMap};

verus! {

/// Per factor source, the base index at which derivation starts in each key
/// space.
pub struct FactorSourceDerivations {
    derivations_per_factor_source: OrderedMap<HDFactorSource, HDPathValue>,
}

impl View for FactorSourceDerivations {
    type V = Seq<(HDFactorSource, HDPathValue)>;

    closed spec fn view(&self) -> Seq<(HDFactorSource, HDPathValue)> {
        self.derivations_per_factor_source@
    }
}

impl FactorSourceDerivations {
    /// One factor source, starting at `start_base_index_for_each_key_space`.
    pub fn single_factor_source(factor_source: HDFactorSource, start_base_index_for_each_key_space: HDPathValue) -> (d: Self)
        ensures
            d@ == seq![(factor_source, start_base_index_for_each_key_space)],
    {
        let mut m = OrderedMap::new();
        m.insert(factor_source, start_base_index_for_each_key_space);
        Self { derivations_per_factor_source: m }
    }

    /// A factor source being added: derivation starts at zero.
    pub fn add_factor_source(factor_source: HDFactorSource) -> (d: Self)
        ensures
            d@ == seq![(factor_source, 0u32)],
    {
        Self::single_factor_source(factor_source, 0)
    }

    /// The base index derivation starts at for `factor_source`, if it is one
    /// of the factor sources.
    pub fn start_base_index_of(&self, factor_source: &HDFactorSource) -> (i: Option<HDPathValue>)
        ensures
            i == entries_get(self@, *factor_source),
    {
        match self.derivations_per_factor_source.get(factor_source) {
            Some(i) => Some(*i),
            None => None,
        }
    }

    /// Factor sources being recovered: for each, derivation starts at zero.
    pub fn recovery(factor_sources: OrderedSet<HDFactorSource>) -> (d: Self)
        ensures
            d@ == factor_sources@.map_values(|f: HDFactorSource| (f, 0u32)),
    {
        let v = factor_sources.elements();
        let mut m: OrderedMap<HDFactorSource, HDPathValue> = OrderedMap::new();
        let mut i: usize = 0;
        while i < v.len()
            invariant
                i <= v@.len(),
                v@ == factor_sources@,
                v@.no_duplicates(),
                m@ == v@.take(i as int).map_values(|f: HDFactorSource| (f, 0u32)),
            decreases v@.len() - i,
        {
            let f = v[i];
            proof {
                assert(!m.spec_has(f)) by {
                    if m.spec_has(f) {
                        let j = choose|j: int| 0 <= j < m@.len() && m@[j].0 == f;
                        assert(v@[j] == v@[i as int]);
                    }
                }
            }
            m.insert(f, 0);
            assert(m@ =~= v@.take(i + 1).map_values(|f: HDFactorSource| (f, 0u32)));
            i = i + 1;
        }
        assert(v@.take(v@.len() as int) =~= v@);
        Self { derivations_per_factor_source: m }
    }
}

impl MapKey for VirtualEntityCreatingFactorInstance {
    fn same(&self, other: &Self) -> (b: bool) {
        *self == *other
    }
}

/// Derived instances matched against a profile: those that created
/// securified entities of the profile, and those the profile already knew.
#[derive(Debug)]
pub struct FactorInstancesAnalysisMatchedAgainstProfile {
    /// Instances matched against securified entities as the instance that
    /// created them.
    pub rediscovered_virtually_creating_instances: OrderedSet<VirtualEntityCreatingFactorInstance>,
    /// Instances skipped since the profile already knew them.
    pub skipped_instances_since_already_known: FactorInstances,
}

} // verus!
