use vstd::prelude::*;
use crate::factor_instances_provider::agnostic_paths::{spec_agnostic_path, spec_preset_of, IndexAgnosticPath};
use crate::factor_instances_provider::next_index_assigner::offsets::NextDerivationEntityIndexWithEphemeralOffsets;
use crate::factor_instances_provider::next_index_assigner::profile_analyzing::{
    is_next_after, larger_opt, lemma_max_index_is_some_index, next_after,
    NextDerivationEntityIndexProfileAnalyzingAssigner,
};
use crate::types::derivation::CAP26EntityKind;
use crate::types::entities::EntityFacet;
use crate::factor_instances_provider::provider::factor_instances_cache::{CacheModel, FactorInstancesCache};
use crate::types::derivation::{BIP32_SECURIFIED_HALF, HDPathComponent, KeySpace};
use crate::types::entities::Profile;
use crate::types::error::CommonError;
use crate::types::factor_instances::FactorInstances;
use crate::types::keys::{FactorSourceIDFromHash, HierarchicalDeterministicFactorInstance};
use crate::types::network::NetworkID;
use crate::types::ordered_map::OrderedMap;

verus! {

/// The derivation entity index of the last instance the cache model holds
/// for `fsid` under `p`, if any.
pub open spec fn cache_max(m: CacheModel, fsid: FactorSourceIDFromHash, p: IndexAgnosticPath) -> Option<
    HDPathComponent,
> {
    if m.0.contains_key((fsid, p)) {
        Some(m.0[(fsid, p)].last().spec_path().index)
    } else {
        None
    }
}

/// An assigner of next indices that reads a cache: the index after the last
/// one cached for a factor source and path.
pub struct NextDerivationEntityIndexCacheAnalyzingAssigner {
    cache: FactorInstancesCache,
}

impl NextDerivationEntityIndexCacheAnalyzingAssigner {
    pub closed spec fn spec_cache_model(&self) -> CacheModel {
        self.cache.spec_model()
    }

    pub fn new(cache: FactorInstancesCache) -> (s: Self)
        ensures
            s.spec_cache_model() == cache.spec_model(),
    {
        Self { cache }
    }

    /// A copy of the analysed cache.
    pub fn cache(&self) -> (c: FactorInstancesCache)
        ensures
            c.spec_model() == self.spec_cache_model(),
    {
        self.cache.clone()
    }

    /// The index after the last one cached for `factor_source_id` under
    /// `index_agnostic_path`, none if nothing is cached there, or
    /// `IndexOverflow`.
    pub fn next(&self, factor_source_id: FactorSourceIDFromHash, index_agnostic_path: IndexAgnosticPath) -> (r:
        Result<Option<HDPathComponent>, CommonError>)
        ensures
            is_next_after(cache_max(self.spec_cache_model(), factor_source_id, index_agnostic_path), r),
    {
        let max = self.cache.max_index_for(factor_source_id, index_agnostic_path);
        next_after(max)
    }
}

/// The largest derivation entity index among the instances of `s` on path
/// `p`, if there is one.
pub open spec fn max_index_on_path(s: Seq<HierarchicalDeterministicFactorInstance>, p: IndexAgnosticPath) -> Option<
    HDPathComponent,
>
    decreases s.len(),
{
    if s.len() == 0 {
        None
    } else {
        let rest = max_index_on_path(s.drop_last(), p);
        let x = s.last();
        if spec_agnostic_path(x) == p {
            larger_opt(rest, Some(x.spec_path().index))
        } else {
            rest
        }
    }
}

/// Where the largest index already taken from a cache comes from.
pub enum OffsetFromCache {
    /// The largest among the instances already taken out of the cache.
    FindMaxInRemoved { pf_found_in_cache: OrderedMap<FactorSourceIDFromHash, FactorInstances> },
    /// Known by having peeked into the cache earlier.
    KnownMax { instance: HierarchicalDeterministicFactorInstance },
}

/// The instances under `fsid` in `m`, or none.
pub open spec fn instances_of(m: OrderedMap<FactorSourceIDFromHash, FactorInstances>, fsid: FactorSourceIDFromHash) -> Seq<
    HierarchicalDeterministicFactorInstance,
> {
    match m.spec_get(fsid) {
        Some(fi) => fi@,
        None => Seq::empty(),
    }
}

impl OffsetFromCache {
    /// The largest index taken from the cache for `fsid` under `p`.
    pub open spec fn spec_max(&self, fsid: FactorSourceIDFromHash, p: IndexAgnosticPath) -> Option<HDPathComponent> {
        match self {
            OffsetFromCache::FindMaxInRemoved { pf_found_in_cache } => max_index_on_path(
                instances_of(*pf_found_in_cache, fsid),
                p,
            ),
            OffsetFromCache::KnownMax { instance } => Some(instance.spec_path().index),
        }
    }

    /// The known largest instance belongs to `fsid` and `p`.
    pub open spec fn spec_consistent(&self, fsid: FactorSourceIDFromHash, p: IndexAgnosticPath) -> bool {
        match self {
            OffsetFromCache::FindMaxInRemoved { .. } => true,
            OffsetFromCache::KnownMax { instance } => instance.factor_source_id == fsid
                && spec_agnostic_path(*instance) == p,
        }
    }

    fn max(&self, factor_source_id: FactorSourceIDFromHash, index_agnostic_path: IndexAgnosticPath) -> (m:
        Option<HDPathComponent>)
        requires
            self.spec_consistent(factor_source_id, index_agnostic_path),
        ensures
            m == self.spec_max(factor_source_id, index_agnostic_path),
    {
        match self {
            OffsetFromCache::FindMaxInRemoved { pf_found_in_cache } => {
                let found: Vec<HierarchicalDeterministicFactorInstance> = match pf_found_in_cache.get(
                    &factor_source_id,
                ) {
                    Some(fi) => fi.factor_instances(),
                    None => Vec::new(),
                };
                let ghost s = instances_of(*pf_found_in_cache, factor_source_id);
                assert(found@ == s);
                let mut m: Option<HDPathComponent> = None;
                let mut i: usize = 0;
                while i < found.len()
                    invariant
                        i <= found.len(),
                        found@ == s,
                        m == max_index_on_path(s.take(i as int), index_agnostic_path),
                    decreases found.len() - i,
                {
                    proof {
                        assert(s.take(i + 1).drop_last() =~= s.take(i as int));
                    }
                    let f = found[i];
                    if f.agnostic_path() == index_agnostic_path {
                        let index = f.derivation_entity_index();
                        m = match m {
                            None => Some(index),
                            Some(prev) => Some(HDPathComponent::max_of(prev, index)),
                        };
                    }
                    i = i + 1;
                }
                assert(s.take(i as int) =~= s);
                m
            },
            OffsetFromCache::KnownMax { instance } => Some(instance.derivation_entity_index()),
        }
    }

    /// The index after the largest taken from the cache, none if none was
    /// taken, or `IndexOverflow`.
    pub fn next(&self, factor_source_id: FactorSourceIDFromHash, index_agnostic_path: IndexAgnosticPath) -> (r:
        Result<Option<HDPathComponent>, CommonError>)
        requires
            self.spec_consistent(factor_source_id, index_agnostic_path),
        ensures
            is_next_after(self.spec_max(factor_source_id, index_agnostic_path), r),
    {
        let m = self.max(factor_source_id, index_agnostic_path);
        next_after(m)
    }
}

/// The largest index the profile analysis finds for a preset is in the key
/// space of the preset, when the analysis can be made.
proof fn lemma_profile_max_key_space(
    pa: NextDerivationEntityIndexProfileAnalyzingAssigner,
    p: crate::factor_instances_provider::agnostic_paths::DerivationPreset,
    fsid: FactorSourceIDFromHash,
    path: IndexAgnosticPath,
)
    requires
        pa.spec_analyzable(p, fsid),
        spec_preset_of(path) == Some(p),
    ensures
        pa.spec_max_for(p, fsid) matches Some(c) ==> c.spec_key_space() == path.key_space,
{
    let ek = match p {
        crate::factor_instances_provider::agnostic_paths::DerivationPreset::AccountVeci
        | crate::factor_instances_provider::agnostic_paths::DerivationPreset::AccountMfa => CAP26EntityKind::Account,
        _ => CAP26EntityKind::Identity,
    };
    let a = pa.spec_instances(ek, EntityFacet::UnsecurifiedVeci);
    let b = pa.spec_instances(ek, EntityFacet::SecurifiedVeci);
    let c = pa.spec_instances(ek, EntityFacet::SecurifiedMatrix);
    lemma_max_index_is_some_index(a, fsid);
    lemma_max_index_is_some_index(b, fsid);
    lemma_max_index_is_some_index(c, fsid);
}

/// Whether the index after `m` leaves its key space.
pub open spec fn overflows_after(m: Option<HDPathComponent>) -> bool {
    m matches Some(c) && c.spec_base_index() + 1 >= BIP32_SECURIFIED_HALF
}

/// The position of the index after `m` in the whole index space; without
/// `m`, the first index of `key_space`.
pub open spec fn value_after(m: Option<HDPathComponent>, key_space: KeySpace) -> int {
    match m {
        Some(c) => c.spec_value() + 1,
        None => if key_space == KeySpace::Securified {
            BIP32_SECURIFIED_HALF as int
        } else {
            0
        },
    }
}

/// The base index of the index at position `v` of the whole index space.
pub open spec fn base_of_value(v: int) -> int {
    if v >= BIP32_SECURIFIED_HALF {
        v - BIP32_SECURIFIED_HALF
    } else {
        v
    }
}

/// An assigner of derivation entity indices: for a factor source and an
/// index agnostic path it takes the later of the index after the last one in
/// the cache and the index after the largest one used in the profile, and adds
/// an ephemeral offset, so that consecutive calls give consecutive indices.
pub struct NextDerivationEntityIndexAssigner {
    network_id: NetworkID,
    profile_analyzing: NextDerivationEntityIndexProfileAnalyzingAssigner,
    cache_analyzing: NextDerivationEntityIndexCacheAnalyzingAssigner,
    ephemeral_offsets: NextDerivationEntityIndexWithEphemeralOffsets,
}

impl NextDerivationEntityIndexAssigner {
    pub closed spec fn spec_network_id(&self) -> NetworkID {
        self.network_id
    }

    pub closed spec fn spec_profile_analyzing(&self) -> NextDerivationEntityIndexProfileAnalyzingAssigner {
        self.profile_analyzing
    }

    pub closed spec fn spec_cache_model(&self) -> CacheModel {
        self.cache_analyzing.spec_cache_model()
    }

    pub closed spec fn spec_offset(&self, fsid: FactorSourceIDFromHash, p: IndexAgnosticPath) -> u32 {
        self.ephemeral_offsets.spec_offset(fsid, p)
    }

    /// An assigner for `network_id` reading `profile` and `cache`, with no
    /// offsets yet.
    pub fn new(network_id: NetworkID, profile: Option<Profile>, cache: FactorInstancesCache) -> (s: Self)
        ensures
            s.spec_network_id() == network_id,
            s.spec_profile_analyzing().spec_network_id() == network_id,
            forall|k, f| #[trigger] s.spec_profile_analyzing().spec_instances(k, f)
                == crate::factor_instances_provider::next_index_assigner::profile_analyzing::profile_instances(
                profile,
                k,
                f,
                network_id,
            ),
            s.spec_cache_model() == cache.spec_model(),
            forall|f: FactorSourceIDFromHash, p: IndexAgnosticPath| #[trigger] s.spec_offset(f, p) == 0,
    {
        let profile_analyzing = NextDerivationEntityIndexProfileAnalyzingAssigner::new(network_id, profile);
        let cache_analyzing = NextDerivationEntityIndexCacheAnalyzingAssigner::new(cache);
        let ephemeral_offsets = NextDerivationEntityIndexWithEphemeralOffsets::default();
        Self { network_id, profile_analyzing, cache_analyzing, ephemeral_offsets }
    }

    pub fn network_id(&self) -> (n: NetworkID)
        ensures
            n == self.spec_network_id(),
    {
        self.network_id
    }

    /// A copy of the cache read.
    pub fn cache(&self) -> (c: FactorInstancesCache)
        ensures
            c.spec_model() == self.spec_cache_model(),
    {
        self.cache_analyzing.cache()
    }

    /// The next index for `factor_source_id` on `index_agnostic_path`.
    ///
    /// The index after the last cached one, or the first of the path's key
    /// space, is compared with the index after the largest one of the profile,
    /// or that first index; the later of the two, moved on by the ephemeral
    /// offset of the pair, is the result, and the offset grows by one. An error
    /// of the cache analysis comes before any offset is taken; the profile's
    /// errors (`NetworkDiscrepancy`, `NonStandardDerivationPath`,
    /// `IndexOverflow`) come after.
    pub fn next(&mut self, factor_source_id: FactorSourceIDFromHash, index_agnostic_path: IndexAgnosticPath) -> (r:
        Result<HDPathComponent, CommonError>)
        requires
            old(self).spec_offset(factor_source_id, index_agnostic_path) < u32::MAX,
            index_agnostic_path.network_id == old(self).spec_profile_analyzing().spec_network_id()
                ==> match spec_preset_of(index_agnostic_path) {
                Some(p) => old(self).spec_profile_analyzing().spec_analyzable(p, factor_source_id),
                None => true,
            },
        ensures
            r matches Ok(c) ==> c.spec_key_space() == index_agnostic_path.key_space,
            final(self).spec_network_id() == old(self).spec_network_id(),
            final(self).spec_profile_analyzing() == old(self).spec_profile_analyzing(),
            final(self).spec_cache_model() == old(self).spec_cache_model(),
            ({
                let cm = cache_max(old(self).spec_cache_model(), factor_source_id, index_agnostic_path);
                let pa = old(self).spec_profile_analyzing();
                let local = old(self).spec_offset(factor_source_id, index_agnostic_path);
                let ks = index_agnostic_path.key_space;
                if overflows_after(cm) {
                    &&& r == Err::<HDPathComponent, CommonError>(CommonError::IndexOverflow)
                    &&& forall|f: FactorSourceIDFromHash, p: IndexAgnosticPath| #[trigger] final(self).spec_offset(f, p)
                        == old(self).spec_offset(f, p)
                } else {
                    &&& final(self).spec_offset(factor_source_id, index_agnostic_path) == local + 1
                    &&& forall|f: FactorSourceIDFromHash, p: IndexAgnosticPath|
                        (f != factor_source_id || p != index_agnostic_path) ==> #[trigger] final(self).spec_offset(f, p)
                            == old(self).spec_offset(f, p)
                    &&& if index_agnostic_path.network_id != pa.spec_network_id() {
                        r == Err::<HDPathComponent, CommonError>(CommonError::NetworkDiscrepancy)
                    } else {
                        match spec_preset_of(index_agnostic_path) {
                            None => r == Err::<HDPathComponent, CommonError>(CommonError::NonStandardDerivationPath),
                            Some(preset) => {
                                let pm = pa.spec_max_for(preset, factor_source_id);
                                if overflows_after(pm) {
                                    r == Err::<HDPathComponent, CommonError>(CommonError::IndexOverflow)
                                } else {
                                    let t = if value_after(cm, ks) >= value_after(pm, ks) {
                                        value_after(cm, ks)
                                    } else {
                                        value_after(pm, ks)
                                    };
                                    if base_of_value(t) + local < BIP32_SECURIFIED_HALF {
                                        r matches Ok(c) && c.spec_value() == t + local
                                    } else {
                                        r == Err::<HDPathComponent, CommonError>(CommonError::IndexOverflow)
                                    }
                                }
                            },
                        }
                    }
                }
            }),
    {
        let default_index = HDPathComponent::new_with_key_space_and_base_index(
            index_agnostic_path.key_space,
            0,
        );
        let _ = self.cache_analyzing.cache.is_grouped();
        proof {
            let m = self.cache_analyzing.cache.spec_model();
            let k = (factor_source_id, index_agnostic_path);
            if m.0.contains_key(k) {
                assert(spec_agnostic_path(m.0[k][m.0[k].len() - 1]) == index_agnostic_path);
                assert(m.0[k].last() == m.0[k][m.0[k].len() - 1]);
            }
            let pa = self.profile_analyzing;
            if index_agnostic_path.network_id == pa.spec_network_id() {
                if let Some(p) = spec_preset_of(index_agnostic_path) {
                    lemma_profile_max_key_space(pa, p, factor_source_id, index_agnostic_path);
                }
            }
        }
        let maybe_next_from_cache = match self.cache_analyzing.next(factor_source_id, index_agnostic_path) {
            Ok(m) => m,
            Err(e) => return Err(e),
        };
        let next_from_cache = match maybe_next_from_cache {
            Some(c) => c,
            None => default_index,
        };
        let local = self.ephemeral_offsets.reserve(factor_source_id, index_agnostic_path);
        let maybe_next_from_profile = match self.profile_analyzing.next(factor_source_id, index_agnostic_path) {
            Ok(m) => m,
            Err(e) => return Err(e),
        };
        let next_from_profile = match maybe_next_from_profile {
            Some(c) => c,
            None => default_index,
        };
        let max_index = if next_from_cache.value() >= next_from_profile.value() {
            next_from_cache
        } else {
            next_from_profile
        };
        let base = max_index.base_index();
        proof {
            assert(base_of_value(max_index.spec_value()) == base);
        }
        max_index.add_n(local)
    }
}

} // verus!
