use vstd::prelude::*;
use crate::factor_instances_provider::agnostic_paths::{spec_agnostic_path, spec_preset_of, DerivationPreset};
use crate::factor_instances_provider::next_index_assigner::assigner::instances_of;
use crate::factor_instances_provider::provider::factor_instances_cache::{
    all_presets, cached_dup, del_of, model_delete, pf_matches, pf_pdp_matches, satisfied_for,
    CachedInstancesWithQuantitiesOutcome, FactorInstancesCache, InstancesPerFactorSource,
    QuantifiedDerivationPreset, QuantitiesPerFactorSource,
};
use crate::factor_instances_provider::agnostic_paths::CACHE_FILLING_QUANTITY;
use crate::factor_instances_provider::provider::outcome::{
    all_of_factor, field_or_empty, pf_consistent, FactorInstancesProviderOutcomeForFactor, InternalFactorInstancesProviderOutcome,
    InternalFactorInstancesProviderOutcomeForFactor, OutcomeField,
};
use crate::factor_instances_provider::agnostic_paths::{preset_path, spec_agnostic, IndexAgnosticPath};
use crate::factor_instances_provider::next_index_assigner::assigner::NextDerivationEntityIndexAssigner;
use crate::factor_instances_provider::next_index_assigner::profile_analyzing::{
    lemma_profile_pair_max, preset_reads,
    larger_opt, max_index_of_factor, profile_analyzable, profile_instances, NextDerivationEntityIndexProfileAnalyzingAssigner,
};
use crate::factor_instances_provider::next_index_assigner::assigner::{base_of_value, cache_max, overflows_after, value_after};
use crate::factor_instances_provider::provider::factor_instances_cache::CacheModel;
use crate::types::derivation::{BIP32_SECURIFIED_HALF, HDPathComponent};
use crate::types::derivation::CAP26EntityKind;
use crate::types::entities::EntityFacet;
use crate::factor_instances_provider::provider::factor_instances_cache::{model_insert_all, QuantitiesPerPreset};
use crate::types::appendable::OrderedSet;
use crate::types::derivation::DerivationPath;
use crate::types::entities::{AddressOfAccountOrPersona, IsEntity, MatrixOfFactorSources, Profile};
use crate::types::keys::HDFactorSource;
use crate::types::derivation::KeySpace;
use crate::factor_instances_provider::agnostic_paths::{preset_entity_kind, preset_key_space};
use crate::types::error::CommonError;
use crate::types::factor_instances::{append_new, lemma_append_new, FactorInstances};
use crate::types::keys::{FactorSourceIDFromHash, HierarchicalDeterministicFactorInstance};
use crate::types::network::NetworkID;
use crate::types::ordered_map::{entries_keys, lemma_entries_get_at, OrderedMap};

verus! {

/// The preset whose path an instance has, if any.
pub open spec fn instance_preset(x: HierarchicalDeterministicFactorInstance) -> Option<DerivationPreset> {
    spec_preset_of(spec_agnostic_path(x))
}

/// The instances of `s` of preset `p`, in order.
pub open spec fn of_preset(s: Seq<HierarchicalDeterministicFactorInstance>, p: DerivationPreset) -> Seq<
    HierarchicalDeterministicFactorInstance,
>
    decreases s.len(),
{
    if s.len() == 0 {
        Seq::empty()
    } else {
        let rest = of_preset(s.drop_last(), p);
        if instance_preset(s.last()) == Some(p) {
            rest.push(s.last())
        } else {
            rest
        }
    }
}

/// The instances of `s` of the presets of `presets` other than `p`, preset
/// by preset in the order of `presets`.
pub open spec fn others_in(
    s: Seq<HierarchicalDeterministicFactorInstance>,
    p: DerivationPreset,
    presets: Seq<DerivationPreset>,
) -> Seq<HierarchicalDeterministicFactorInstance>
    decreases presets.len(),
{
    if presets.len() == 0 {
        Seq::empty()
    } else {
        others_in(s, p, presets.drop_last()) + if presets.last() == p {
            Seq::empty()
        } else {
            of_preset(s, presets.last())
        }
    }
}

/// The instances found in the cache for `k`, followed by the newly derived
/// ones not among them.
pub open spec fn merged_of(
    found: OrderedMap<FactorSourceIDFromHash, FactorInstances>,
    derived: OrderedMap<FactorSourceIDFromHash, FactorInstances>,
    k: FactorSourceIDFromHash,
) -> Seq<HierarchicalDeterministicFactorInstance> {
    append_new(append_new(Seq::empty(), instances_of(found, k)), instances_of(derived, k))
}

/// What to use directly of `merged`: the first requested quantity of the
/// instances of the requested preset, if there is any instance of it.
pub open spec fn split_use(merged: Seq<HierarchicalDeterministicFactorInstance>, q: QuantifiedDerivationPreset) -> Option<
    Seq<HierarchicalDeterministicFactorInstance>,
> {
    let rel = of_preset(merged, q.derivation_preset);
    if rel.len() > 0 {
        Some(rel.take(q.quantity as int))
    } else {
        None
    }
}

/// What to cache of `merged`: the instances of the requested preset beyond
/// the requested quantity, then those of the other presets.
pub open spec fn split_cache(merged: Seq<HierarchicalDeterministicFactorInstance>, q: QuantifiedDerivationPreset) -> Seq<
    HierarchicalDeterministicFactorInstance,
> {
    let rel = of_preset(merged, q.derivation_preset);
    append_new(
        if rel.len() > 0 {
            rel.skip(q.quantity as int)
        } else {
            Seq::empty()
        },
        others_in(merged, q.derivation_preset, all_presets()),
    )
}

/// The factor sources of `ids` that have something to use directly, in order.
pub open spec fn ids_with_use(
    ids: Seq<FactorSourceIDFromHash>,
    found: OrderedMap<FactorSourceIDFromHash, FactorInstances>,
    derived: OrderedMap<FactorSourceIDFromHash, FactorInstances>,
    q: QuantifiedDerivationPreset,
) -> Seq<FactorSourceIDFromHash>
    decreases ids.len(),
{
    if ids.len() == 0 {
        Seq::empty()
    } else {
        let rest = ids_with_use(ids.drop_last(), found, derived, q);
        if split_use(merged_of(found, derived, ids.last()), q) is Some {
            rest.push(ids.last())
        } else {
            rest
        }
    }
}

/// The instances of `fi` of preset `p`.
fn filter_preset(fi: &FactorInstances, p: DerivationPreset) -> (r: FactorInstances)
    ensures
        r@ == of_preset(fi@, p),
        forall|x: HierarchicalDeterministicFactorInstance| #[trigger] r@.contains(x) ==> fi@.contains(x),
{
    let v = fi.factor_instances();
    let mut out: Vec<HierarchicalDeterministicFactorInstance> = Vec::new();
    let mut i: usize = 0;
    while i < v.len()
        invariant
            i <= v@.len(),
            v@ == fi@,
            v@.no_duplicates(),
            out@ == of_preset(v@.take(i as int), p),
            out@.no_duplicates(),
            forall|x: HierarchicalDeterministicFactorInstance| #[trigger] out@.contains(x) ==> v@.take(i as int).contains(x),
        decreases v@.len() - i,
    {
        proof {
            assert(v@.take(i + 1).drop_last() =~= v@.take(i as int));
            assert(v@.take(i + 1)[i as int] == v@[i as int]);
        }
        let f = v[i];
        let ghost out0 = out@;
        let preset = DerivationPreset::try_from(f.agnostic_path());
        let keep = match preset {
            Ok(q) => q == p,
            Err(_) => false,
        };
        if keep {
            proof {
                assert(!out@.contains(f)) by {
                    if out@.contains(f) {
                        let k = choose|k: int| 0 <= k < i && #[trigger] v@.take(i as int)[k] == f;
                        assert(v@[k] == v@[i as int]);
                    }
                }
            }
            out.push(f);
        }
        proof {
            assert forall|x: HierarchicalDeterministicFactorInstance| #[trigger] out@.contains(x) implies v@.take(i + 1).contains(x) by {
                let k = choose|k: int| 0 <= k < out@.len() && out@[k] == x;
                if k < out0.len() {
                    assert(out0[k] == x);
                    assert(out0.contains(x));
                    let l = choose|l: int| 0 <= l < i && #[trigger] v@.take(i as int)[l] == x;
                    assert(v@.take(i + 1)[l] == x);
                } else {
                    assert(x == f);
                }
            }
        }
        i = i + 1;
    }
    assert(v@.take(i as int) =~= v@);
    FactorInstances::from_unique(out)
}

/// The instances of `fi` of the presets other than `p`, preset by preset.
fn others_of(fi: &FactorInstances, p: DerivationPreset) -> (r: Vec<HierarchicalDeterministicFactorInstance>)
    ensures
        r@ == others_in(fi@, p, all_presets()),
        forall|x: HierarchicalDeterministicFactorInstance| #[trigger] r@.contains(x) ==> fi@.contains(x),
{
    let presets = DerivationPreset::all();
    let mut r: Vec<HierarchicalDeterministicFactorInstance> = Vec::new();
    let mut i: usize = 0;
    while i < presets.len()
        invariant
            i <= presets@.len(),
            presets@ == all_presets(),
            r@ == others_in(fi@, p, presets@.take(i as int)),
            forall|x: HierarchicalDeterministicFactorInstance| #[trigger] r@.contains(x) ==> fi@.contains(x),
        decreases presets@.len() - i,
    {
        proof {
            assert(presets@.take(i + 1).drop_last() =~= presets@.take(i as int));
            assert(presets@.take(i + 1).last() == presets@[i as int]);
        }
        let q = presets[i];
        if q != p {
            let group = filter_preset(fi, q);
            let more = group.factor_instances();
            let ghost before = r@;
            let mut j: usize = 0;
            while j < more.len()
                invariant
                    j <= more@.len(),
                    r@ == before + more@.take(j as int),
                    forall|x: HierarchicalDeterministicFactorInstance| #[trigger] before.contains(x) ==> fi@.contains(x),
                    forall|x: HierarchicalDeterministicFactorInstance| #[trigger] more@.contains(x) ==> fi@.contains(x),
                decreases more@.len() - j,
            {
                r.push(more[j]);
                j = j + 1;
                assert(r@ =~= before + more@.take(j as int));
            }
            proof {
                assert(more@.take(j as int) =~= more@);
                assert forall|x: HierarchicalDeterministicFactorInstance| #[trigger] r@.contains(x) implies fi@.contains(x) by {
                    let k = choose|k: int| 0 <= k < r@.len() && r@[k] == x;
                    if k < before.len() {
                        assert(before[k] == x);
                        assert(before.contains(x));
                    } else {
                        assert(more@[k - before.len()] == x);
                        assert(more@.contains(x));
                    }
                }
            }
        } else {
            proof {
                assert(r@ + Seq::<HierarchicalDeterministicFactorInstance>::empty() =~= r@);
            }
        }
        i = i + 1;
    }
    assert(presets@.take(i as int) =~= presets@);
    r
}

/// A copy of the instances under `k`, or none.
fn instances_under(m: &OrderedMap<FactorSourceIDFromHash, FactorInstances>, k: &FactorSourceIDFromHash) -> (r: FactorInstances)
    ensures
        r@ == instances_of(*m, *k),
{
    match m.get(k) {
        Some(fi) => fi.clone(),
        None => FactorInstances::empty(),
    }
}

/// The first step of providing instances: whether the cache alone can
/// satisfy the request.
pub enum ProviderStep {
    /// Every factor source had enough in the cache: these were taken from it.
    SatisfiedByCache(InstancesPerFactorSource),
    /// More must be derived: what was found in the cache (left there), and the
    /// quantities per factor source and preset to derive.
    DeriveMore { partial_instances: InstancesPerFactorSource, quantities_to_derive: QuantitiesPerFactorSource },
}

/// A coordinator between a cache, an optional profile and the derivation of
/// keys: instances are read from the start of each cached collection, and
/// when some are missing, enough are derived to satisfy the request and to
/// refill the cache for every preset.
pub struct FactorInstancesProvider;

impl FactorInstancesProvider {
    /// Reads the requested quantity of the requested preset on `network_id`
    /// for every factor source of `factor_source_ids` from `cache`. When every
    /// factor source has enough, the instances are taken out of the cache and
    /// returned; otherwise the cache is left as it was and what was found is
    /// returned with the quantities to derive.
    pub fn provide_from_cache(
        network_id: NetworkID,
        factor_source_ids: &Vec<FactorSourceIDFromHash>,
        originally_requested_quantified_derivation_preset: QuantifiedDerivationPreset,
        cache: &mut FactorInstancesCache,
    ) -> (step: ProviderStep)
        requires
            factor_source_ids@.no_duplicates(),
            originally_requested_quantified_derivation_preset.quantity + CACHE_FILLING_QUANTITY <= usize::MAX,
        ensures
            match step {
                ProviderStep::SatisfiedByCache(pf) => {
                    &&& forall|f: FactorSourceIDFromHash| #[trigger] factor_source_ids@.contains(f) ==> satisfied_for(
                        old(cache).spec_model(),
                        f,
                        network_id,
                        originally_requested_quantified_derivation_preset,
                    )
                    &&& pf_matches(pf, factor_source_ids@, old(cache).spec_model(), network_id, originally_requested_quantified_derivation_preset)
                    &&& final(cache).spec_model() == model_delete(old(cache).spec_model(), pf)
                },
                ProviderStep::DeriveMore { partial_instances, quantities_to_derive } => {
                    &&& exists|f: FactorSourceIDFromHash| #[trigger] factor_source_ids@.contains(f) && !satisfied_for(
                        old(cache).spec_model(),
                        f,
                        network_id,
                        originally_requested_quantified_derivation_preset,
                    )
                    &&& pf_matches(partial_instances, factor_source_ids@, old(cache).spec_model(), network_id, originally_requested_quantified_derivation_preset)
                    &&& pf_pdp_matches(quantities_to_derive, factor_source_ids@, old(cache).spec_model(), network_id, originally_requested_quantified_derivation_preset)
                    &&& final(cache).spec_model() == old(cache).spec_model()
                },
            },
    {
        let cached = cache.get_poly_factor_with_quantities(
            factor_source_ids,
            &originally_requested_quantified_derivation_preset,
            network_id,
        );
        match cached {
            Ok(CachedInstancesWithQuantitiesOutcome::Satisfied(enough_instances)) => {
                proof {
                    let m = cache.spec_model();
                    let q = originally_requested_quantified_derivation_preset;
                    assert forall|f: FactorSourceIDFromHash, x: HierarchicalDeterministicFactorInstance| #[trigger] del_of(
                        enough_instances,
                        f,
                    ).contains(x) implies cached_dup(m, f, x) by {
                        if factor_source_ids@.contains(f) {
                            assert(enough_instances.spec_get(f) is Some);
                            assert(crate::factor_instances_provider::provider::factor_instances_cache::kept_instances(m, f, network_id, q).contains(x));
                        } else {
                            assert(!crate::types::ordered_map::entries_have_key(enough_instances@, f)) by {
                                if crate::types::ordered_map::entries_have_key(enough_instances@, f) {
                                    let j = choose|j: int| 0 <= j < enough_instances@.len() && enough_instances@[j].0 == f;
                                    assert(entries_keys(enough_instances@)[j] == f);
                                }
                            }
                        }
                    }
                }
                cache.delete(&enough_instances);
                ProviderStep::SatisfiedByCache(enough_instances)
            },
            Ok(CachedInstancesWithQuantitiesOutcome::NotSatisfied { partial_instances, pf_pdp_qty_to_derive }) => {
                ProviderStep::DeriveMore { partial_instances, quantities_to_derive: pf_pdp_qty_to_derive }
            },
            Err(_) => {
                proof {
                    assert(false);
                }
                ProviderStep::DeriveMore { partial_instances: OrderedMap::new(), quantities_to_derive: OrderedMap::new() }
            },
        }
    }

    /// Per factor source of `factor_source_ids`, merges the instances found in
    /// the cache (first) and the newly derived ones (after), then splits them:
    /// the first requested quantity of the requested preset is to be used
    /// directly, the rest of that preset and every instance of the other
    /// presets go to the cache.
    pub fn split(
        originally_requested_quantified_derivation_preset: &QuantifiedDerivationPreset,
        factor_source_ids: &Vec<FactorSourceIDFromHash>,
        pf_found_in_cache_leq_requested: &OrderedMap<FactorSourceIDFromHash, FactorInstances>,
        pf_newly_derived: &OrderedMap<FactorSourceIDFromHash, FactorInstances>,
    ) -> (r: (OrderedMap<FactorSourceIDFromHash, FactorInstances>, OrderedMap<FactorSourceIDFromHash, FactorInstances>))
        requires
            factor_source_ids@.no_duplicates(),
            forall|k: FactorSourceIDFromHash| #[trigger] factor_source_ids@.contains(k) ==> of_preset(
                merged_of(*pf_found_in_cache_leq_requested, *pf_newly_derived, k),
                originally_requested_quantified_derivation_preset.derivation_preset,
            ).len() > 0 ==> originally_requested_quantified_derivation_preset.quantity <= of_preset(
                merged_of(*pf_found_in_cache_leq_requested, *pf_newly_derived, k),
                originally_requested_quantified_derivation_preset.derivation_preset,
            ).len(),
        ensures
            entries_keys(r.0@) == ids_with_use(factor_source_ids@, *pf_found_in_cache_leq_requested, *pf_newly_derived,
                *originally_requested_quantified_derivation_preset),
            entries_keys(r.1@) == factor_source_ids@,
            forall|k: FactorSourceIDFromHash| #[trigger] factor_source_ids@.contains(k) ==> {
                let merged = merged_of(*pf_found_in_cache_leq_requested, *pf_newly_derived, k);
                &&& match split_use(merged, *originally_requested_quantified_derivation_preset) {
                    Some(u) => r.0.spec_get(k) matches Some(fi) && fi@ == u,
                    None => r.0.spec_get(k) is None,
                }
                &&& r.1.spec_get(k) matches Some(fi) && fi@ == split_cache(merged, *originally_requested_quantified_derivation_preset)
            },
            forall|k: FactorSourceIDFromHash, x: HierarchicalDeterministicFactorInstance| #[trigger] instances_of(r.0, k).contains(x)
                ==> merged_of(*pf_found_in_cache_leq_requested, *pf_newly_derived, k).contains(x),
            forall|k: FactorSourceIDFromHash, x: HierarchicalDeterministicFactorInstance| #[trigger] instances_of(r.1, k).contains(x)
                ==> merged_of(*pf_found_in_cache_leq_requested, *pf_newly_derived, k).contains(x),
    {
        let q = *originally_requested_quantified_derivation_preset;
        let preset = q.derivation_preset;
        let quantity = q.quantity;
        let ghost ids = factor_source_ids@;
        let ghost found = *pf_found_in_cache_leq_requested;
        let ghost derived = *pf_newly_derived;
        let mut pf_to_use_directly: OrderedMap<FactorSourceIDFromHash, FactorInstances> = OrderedMap::new();
        let mut pf_to_cache: OrderedMap<FactorSourceIDFromHash, FactorInstances> = OrderedMap::new();
        let n = factor_source_ids.len();
        let mut i: usize = 0;
        while i < n
            invariant
                i <= n,
                n == ids.len(),
                ids == factor_source_ids@,
                ids.no_duplicates(),
                q == *originally_requested_quantified_derivation_preset,
                preset == q.derivation_preset,
                quantity == q.quantity,
                found == *pf_found_in_cache_leq_requested,
                derived == *pf_newly_derived,
                forall|k: FactorSourceIDFromHash| #[trigger] ids.contains(k) ==> of_preset(merged_of(found, derived, k), preset).len() > 0
                    ==> quantity <= of_preset(merged_of(found, derived, k), preset).len(),
                entries_keys(pf_to_use_directly@) == ids_with_use(ids.take(i as int), found, derived, q),
                entries_keys(pf_to_cache@) == ids.take(i as int),
                forall|k: FactorSourceIDFromHash| #[trigger] pf_to_use_directly.spec_has(k) ==> ids.take(i as int).contains(k),
                forall|k: FactorSourceIDFromHash| #[trigger] pf_to_cache.spec_has(k) ==> ids.take(i as int).contains(k),
                forall|k: FactorSourceIDFromHash| #[trigger] ids.take(i as int).contains(k) ==> {
                    let merged = merged_of(found, derived, k);
                    &&& match split_use(merged, q) {
                        Some(u) => pf_to_use_directly.spec_get(k) matches Some(fi) && fi@ == u,
                        None => pf_to_use_directly.spec_get(k) is None,
                    }
                    &&& pf_to_cache.spec_get(k) matches Some(fi) && fi@ == split_cache(merged, q)
                },
                forall|k: FactorSourceIDFromHash, x: HierarchicalDeterministicFactorInstance| #[trigger] instances_of(pf_to_use_directly, k).contains(x)
                    ==> merged_of(found, derived, k).contains(x),
                forall|k: FactorSourceIDFromHash, x: HierarchicalDeterministicFactorInstance| #[trigger] instances_of(pf_to_cache, k).contains(x)
                    ==> merged_of(found, derived, k).contains(x),
            decreases n - i,
        {
            let k = factor_source_ids[i];
            proof {
                assert(ids.take(i + 1) =~= ids.take(i as int).push(k));
                assert(!ids.take(i as int).contains(k)) by {
                    if ids.take(i as int).contains(k) {
                        let j = choose|j: int| 0 <= j < i && #[trigger] ids.take(i as int)[j] == k;
                        assert(ids[j] == ids[i as int]);
                    }
                }
                assert(ids.contains(k)) by {
                    assert(ids[i as int] == k);
                }
                assert(ids.take(i + 1).drop_last() =~= ids.take(i as int));
            }
            let mut merged = FactorInstances::empty();
            let from_cache = instances_under(pf_found_in_cache_leq_requested, &k);
            let newly_derived = instances_under(pf_newly_derived, &k);
            merged.extend(&from_cache);
            merged.extend(&newly_derived);
            let ghost mg = merged@;
            assert(mg == merged_of(found, derived, k));
            let rel = filter_preset(&merged, preset);
            let ghost u0 = pf_to_use_directly;
            let ghost c0 = pf_to_cache;
            proof {
                lemma_append_new(Seq::<HierarchicalDeterministicFactorInstance>::empty(), instances_of(found, k));
                lemma_append_new(append_new(Seq::<HierarchicalDeterministicFactorInstance>::empty(), instances_of(found, k)), instances_of(derived, k));
                crate::types::ordered_map::lemma_entries_keys_contains(u0@, k);
                crate::types::ordered_map::lemma_entries_keys_contains(c0@, k);
            }
            let others = others_of(&merged, preset);
            if rel.len() > 0 {
                let (to_use_directly, to_cache) = rel.split_at(quantity);
                let mut to_cache = to_cache;
                let ghost skipped = to_cache@;
                to_cache.extend_from_vec(&others);
                proof {
                    lemma_append_new(skipped, others@);
                    assert forall|x: HierarchicalDeterministicFactorInstance| #[trigger] to_cache@.contains(x) implies mg.contains(x) by {
                        if skipped.contains(x) {
                            let j = choose|j: int| 0 <= j < skipped.len() && skipped[j] == x;
                            assert(rel@[j + quantity] == x);
                            assert(rel@.contains(x));
                        }
                    }
                    assert forall|x: HierarchicalDeterministicFactorInstance| #[trigger] to_use_directly@.contains(x) implies mg.contains(x) by {
                        let j = choose|j: int| 0 <= j < to_use_directly@.len() && to_use_directly@[j] == x;
                        assert(rel@[j] == x);
                        assert(rel@.contains(x));
                    }
                }
                pf_to_use_directly.insert(k, to_use_directly);
                pf_to_cache.insert(k, to_cache);
                proof {
                    assert(entries_keys(pf_to_use_directly@) =~= entries_keys(u0@).push(k));
                    assert(pf_to_use_directly.spec_get(k) matches Some(fi) && fi@ == rel@.take(quantity as int));
                    assert(pf_to_cache.spec_get(k) matches Some(fi) && fi@ == split_cache(mg, q));
                    assert(split_use(mg, q) == Some(rel@.take(quantity as int)));
                    assert forall|x: HierarchicalDeterministicFactorInstance| #[trigger] instances_of(pf_to_use_directly, k).contains(x) implies mg.contains(x) by {}
                    assert forall|x: HierarchicalDeterministicFactorInstance| #[trigger] instances_of(pf_to_cache, k).contains(x) implies mg.contains(x) by {}
                }
            } else {
                let to_cache = FactorInstances::new(others);
                proof {
                    lemma_append_new(Seq::<HierarchicalDeterministicFactorInstance>::empty(), others@);
                }
                pf_to_cache.insert(k, to_cache);
                proof {
                    assert(entries_keys(pf_to_use_directly@) =~= entries_keys(u0@));
                    assert(!u0.spec_has(k));
                    assert(pf_to_use_directly.spec_get(k) is None);
                    assert(pf_to_cache.spec_get(k) matches Some(fi) && fi@ == split_cache(mg, q));
                    assert(split_use(mg, q) is None);
                    assert forall|x: HierarchicalDeterministicFactorInstance| #[trigger] instances_of(pf_to_use_directly, k).contains(x) implies mg.contains(x) by {}
                    assert forall|x: HierarchicalDeterministicFactorInstance| #[trigger] instances_of(pf_to_cache, k).contains(x) implies mg.contains(x) by {}
                }
            }
            proof {
                assert(entries_keys(pf_to_cache@) =~= entries_keys(c0@).push(k));
                assert forall|k2: FactorSourceIDFromHash| #[trigger] ids.take(i + 1).contains(k2) implies {
                    let merged2 = merged_of(found, derived, k2);
                    &&& match split_use(merged2, q) {
                        Some(u) => pf_to_use_directly.spec_get(k2) matches Some(fi) && fi@ == u,
                        None => pf_to_use_directly.spec_get(k2) is None,
                    }
                    &&& pf_to_cache.spec_get(k2) matches Some(fi) && fi@ == split_cache(merged2, q)
                } by {
                    if k2 != k {
                        assert(ids.take(i as int).contains(k2)) by {
                            let j = choose|j: int| 0 <= j < i + 1 && #[trigger] ids.take(i + 1)[j] == k2;
                            assert(ids.take(i as int)[j] == k2);
                        }
                        assert(pf_to_use_directly.spec_get(k2) == u0.spec_get(k2));
                        assert(pf_to_cache.spec_get(k2) == c0.spec_get(k2));
                    }
                }
                assert forall|k2: FactorSourceIDFromHash, x: HierarchicalDeterministicFactorInstance| #[trigger] instances_of(pf_to_use_directly, k2).contains(x)
                    implies merged_of(found, derived, k2).contains(x) by {
                    if k2 != k {
                        assert(pf_to_use_directly.spec_get(k2) == u0.spec_get(k2));
                        assert(instances_of(u0, k2).contains(x));
                    }
                }
                assert forall|k2: FactorSourceIDFromHash, x: HierarchicalDeterministicFactorInstance| #[trigger] instances_of(pf_to_cache, k2).contains(x)
                    implies merged_of(found, derived, k2).contains(x) by {
                    if k2 != k {
                        assert(pf_to_cache.spec_get(k2) == c0.spec_get(k2));
                        assert(instances_of(c0, k2).contains(x));
                    }
                }
                assert(ids_with_use(ids.take(i + 1), found, derived, q) == if split_use(merged_of(found, derived, k), q) is Some {
                    ids_with_use(ids.take(i as int), found, derived, q).push(k)
                } else {
                    ids_with_use(ids.take(i as int), found, derived, q)
                });
            }
            i = i + 1;
        }
        proof {
            assert(ids.take(n as int) =~= ids);
        }
        (pf_to_use_directly, pf_to_cache)
    }
}

/// `to_use` and `to_cache` are what `split` gives for `ids`, `found` and
/// `derived`.
pub open spec fn is_split(
    q: QuantifiedDerivationPreset,
    ids: Seq<FactorSourceIDFromHash>,
    found: OrderedMap<FactorSourceIDFromHash, FactorInstances>,
    derived: OrderedMap<FactorSourceIDFromHash, FactorInstances>,
    to_use: OrderedMap<FactorSourceIDFromHash, FactorInstances>,
    to_cache: OrderedMap<FactorSourceIDFromHash, FactorInstances>,
) -> bool {
    &&& entries_keys(to_use@) == ids_with_use(ids, found, derived, q)
    &&& entries_keys(to_cache@) == ids
    &&& forall|k: FactorSourceIDFromHash| #[trigger] ids.contains(k) ==> {
        let merged = merged_of(found, derived, k);
        &&& match split_use(merged, q) {
            Some(u) => to_use.spec_get(k) matches Some(fi) && fi@ == u,
            None => to_use.spec_get(k) is None,
        }
        &&& to_cache.spec_get(k) matches Some(fi) && fi@ == split_cache(merged, q)
    }
}

/// The total quantity of `s`.
pub open spec fn pdp_total(s: Seq<(DerivationPreset, usize)>) -> nat
    decreases s.len(),
{
    if s.len() == 0 {
        0
    } else {
        pdp_total(s.drop_last()) + s.last().1 as nat
    }
}

/// The total quantity over every factor source of `s`.
pub open spec fn pf_pdp_total(s: Seq<(FactorSourceIDFromHash, QuantitiesPerPreset)>) -> nat
    decreases s.len(),
{
    if s.len() == 0 {
        0
    } else {
        pf_pdp_total(s.drop_last()) + pdp_total(s.last().1@)
    }
}

proof fn lemma_pf_pdp_total_prefix(s: Seq<(FactorSourceIDFromHash, QuantitiesPerPreset)>, i: int)
    requires
        0 <= i <= s.len(),
    ensures
        pf_pdp_total(s.take(i)) <= pf_pdp_total(s),
    decreases s.len() - i,
{
    if i < s.len() {
        lemma_pf_pdp_total_prefix(s, i + 1);
        assert(s.take(i + 1).drop_last() =~= s.take(i));
    } else {
        assert(s.take(i) =~= s);
    }
}

/// The largest index `f` was used at in `profile` on `network_id` for
/// preset `p`, as the profile analysis reads it.
pub open spec fn profile_max_for(profile: Option<Profile>, network_id: NetworkID, p: DerivationPreset, f: FactorSourceIDFromHash) -> Option<
    HDPathComponent,
> {
    match p {
        DerivationPreset::AccountVeci => larger_opt(
            max_index_of_factor(profile_instances(profile, CAP26EntityKind::Account, EntityFacet::UnsecurifiedVeci, network_id), f),
            max_index_of_factor(profile_instances(profile, CAP26EntityKind::Account, EntityFacet::SecurifiedVeci, network_id), f),
        ),
        DerivationPreset::IdentityVeci => larger_opt(
            max_index_of_factor(profile_instances(profile, CAP26EntityKind::Identity, EntityFacet::UnsecurifiedVeci, network_id), f),
            max_index_of_factor(profile_instances(profile, CAP26EntityKind::Identity, EntityFacet::SecurifiedVeci, network_id), f),
        ),
        DerivationPreset::AccountMfa => max_index_of_factor(
            profile_instances(profile, CAP26EntityKind::Account, EntityFacet::SecurifiedMatrix, network_id),
            f,
        ),
        DerivationPreset::IdentityMfa => max_index_of_factor(
            profile_instances(profile, CAP26EntityKind::Identity, EntityFacet::SecurifiedMatrix, network_id),
            f,
        ),
    }
}

/// The position in the index space of the first index assigned to `f` for
/// preset `p`: the later of the index after the last one cached and the index
/// after the largest one used in the profile (the first of the key space when
/// there is none).
pub open spec fn first_assigned_value(
    cm: CacheModel,
    profile: Option<Profile>,
    network_id: NetworkID,
    f: FactorSourceIDFromHash,
    p: DerivationPreset,
) -> int {
    let path = preset_path(network_id, p);
    let a = value_after(cache_max(cm, f, path), path.key_space);
    let b = value_after(profile_max_for(profile, network_id, p, f), path.key_space);
    if a >= b {
        a
    } else {
        b
    }
}

/// `qty` consecutive indices of preset `p` can be assigned to `f`: none of
/// them, nor the one after the last cached or used, leaves the key space.
pub open spec fn preset_fits(
    cm: CacheModel,
    profile: Option<Profile>,
    network_id: NetworkID,
    f: FactorSourceIDFromHash,
    p: DerivationPreset,
    qty: nat,
) -> bool {
    qty == 0 || {
        &&& !overflows_after(cache_max(cm, f, preset_path(network_id, p)))
        &&& !overflows_after(profile_max_for(profile, network_id, p, f))
        &&& base_of_value(first_assigned_value(cm, profile, network_id, f, p)) + qty - 1 < BIP32_SECURIFIED_HALF
    }
}

/// Every preset and quantity of `pdp` fits for `f`.
pub open spec fn factor_fits(
    cm: CacheModel,
    profile: Option<Profile>,
    network_id: NetworkID,
    f: FactorSourceIDFromHash,
    pdp: Seq<(DerivationPreset, usize)>,
) -> bool {
    forall|j: int| 0 <= j < pdp.len() ==> #[trigger] preset_fits(cm, profile, network_id, f, pdp[j].0, pdp[j].1 as nat)
}

/// `seg` are paths of preset `p` on `network_id` at consecutive positions
/// of the index space from `first`.
pub open spec fn consecutive_paths(seg: Seq<DerivationPath>, network_id: NetworkID, p: DerivationPreset, first: int) -> bool {
    forall|c: int| 0 <= c < seg.len() ==> spec_agnostic(#[trigger] seg[c]) == preset_path(network_id, p) && seg[c].index.spec_value()
        == first + c
}

/// `s` holds, preset by preset of `pdp`, as many paths as asked for, on the
/// preset's path at consecutive indices from the first assigned one.
pub open spec fn assigned_paths(
    s: Seq<DerivationPath>,
    pdp: Seq<(DerivationPreset, usize)>,
    cm: CacheModel,
    profile: Option<Profile>,
    network_id: NetworkID,
    f: FactorSourceIDFromHash,
) -> bool
    decreases pdp.len(),
{
    if pdp.len() == 0 {
        s.len() == 0
    } else {
        let q = pdp.last().1 as int;
        let p = pdp.last().0;
        &&& s.len() >= q
        &&& assigned_paths(s.take(s.len() - q), pdp.drop_last(), cm, profile, network_id, f)
        &&& s.skip(s.len() - q).len() == q
        &&& consecutive_paths(s.skip(s.len() - q), network_id, p, first_assigned_value(cm, profile, network_id, f, p))
    }
}

/// Paths assigned preset by preset are each on the path of one of the presets.
proof fn lemma_assigned_paths_presets(
    s: Seq<DerivationPath>,
    pdp: Seq<(DerivationPreset, usize)>,
    cm: CacheModel,
    profile: Option<Profile>,
    network_id: NetworkID,
    f: FactorSourceIDFromHash,
)
    requires
        assigned_paths(s, pdp, cm, profile, network_id, f),
    ensures
        forall|x: DerivationPath| #[trigger] s.contains(x) ==> exists|k: int| 0 <= k < pdp.len() && spec_agnostic(x) == preset_path(network_id, #[trigger] pdp[k].0),
    decreases pdp.len(),
{
    if pdp.len() > 0 {
        let q = pdp.last().1 as int;
        let pre = s.take(s.len() - q);
        let seg = s.skip(s.len() - q);
        lemma_assigned_paths_presets(pre, pdp.drop_last(), cm, profile, network_id, f);
        assert forall|x: DerivationPath| #[trigger] s.contains(x) implies exists|k: int| 0 <= k < pdp.len() && spec_agnostic(x) == preset_path(network_id, #[trigger] pdp[k].0) by {
            let i = choose|i: int| 0 <= i < s.len() && s[i] == x;
            if i < s.len() - q {
                assert(pre[i] == x);
                assert(pre.contains(x));
                let k = choose|k: int| 0 <= k < pdp.drop_last().len() && spec_agnostic(x) == preset_path(network_id, #[trigger] pdp.drop_last()[k].0);
                assert(pdp.drop_last()[k] == pdp[k]);
            } else {
                assert(seg[i - (s.len() - q)] == x);
                assert(pdp[pdp.len() - 1] == pdp.last());
            }
        }
    }
}

/// An analysis of `profile` on `network_id` reads its instances: its largest
/// indices and whether it can be made are those of the profile.
proof fn lemma_pa_is_profile(pa: NextDerivationEntityIndexProfileAnalyzingAssigner, profile: Option<Profile>, network_id: NetworkID)
    requires
        pa.spec_network_id() == network_id,
        forall|k, f| #[trigger] pa.spec_instances(k, f) == profile_instances(profile, k, f, network_id),
    ensures
        forall|p: DerivationPreset, f: FactorSourceIDFromHash| #[trigger] pa.spec_max_for(p, f) == profile_max_for(profile, network_id, p, f),
        forall|p: DerivationPreset, f: FactorSourceIDFromHash| #[trigger] pa.spec_analyzable(p, f) == profile_analyzable(profile, network_id, p, f),
{
    assert(pa.spec_instances(CAP26EntityKind::Account, EntityFacet::UnsecurifiedVeci)
        == profile_instances(profile, CAP26EntityKind::Account, EntityFacet::UnsecurifiedVeci, network_id));
    assert(pa.spec_instances(CAP26EntityKind::Account, EntityFacet::SecurifiedVeci)
        == profile_instances(profile, CAP26EntityKind::Account, EntityFacet::SecurifiedVeci, network_id));
    assert(pa.spec_instances(CAP26EntityKind::Account, EntityFacet::SecurifiedMatrix)
        == profile_instances(profile, CAP26EntityKind::Account, EntityFacet::SecurifiedMatrix, network_id));
    assert(pa.spec_instances(CAP26EntityKind::Identity, EntityFacet::UnsecurifiedVeci)
        == profile_instances(profile, CAP26EntityKind::Identity, EntityFacet::UnsecurifiedVeci, network_id));
    assert(pa.spec_instances(CAP26EntityKind::Identity, EntityFacet::SecurifiedVeci)
        == profile_instances(profile, CAP26EntityKind::Identity, EntityFacet::SecurifiedVeci, network_id));
    assert(pa.spec_instances(CAP26EntityKind::Identity, EntityFacet::SecurifiedMatrix)
        == profile_instances(profile, CAP26EntityKind::Identity, EntityFacet::SecurifiedMatrix, network_id));
}

/// The first index assigned to `f` for preset `p` comes after every index
/// the profile counts as used by `f` for `p`: after every instance `x` of
/// `f` that `p` reads, the instances that created securified entities
/// included for a veci preset. Derived paths therefore never reuse one.
pub proof fn law_first_assigned_after_every_used_index(
    cm: CacheModel,
    profile: Option<Profile>,
    network_id: NetworkID,
    f: FactorSourceIDFromHash,
    p: DerivationPreset,
    k: CAP26EntityKind,
    facet: EntityFacet,
    x: HierarchicalDeterministicFactorInstance,
)
    requires
        profile_analyzable(profile, network_id, p, f),
        preset_reads(p, k, facet),
        profile_instances(profile, k, facet, network_id).contains(x),
        x.factor_source_id == f,
    ensures
        first_assigned_value(cm, profile, network_id, f, p) > x.spec_path().index.spec_value(),
{
    lemma_profile_pair_max(profile, network_id, p, f, k, facet, x);
}

impl FactorInstancesProvider {
    /// The derivation paths to derive per factor source, in the order of
    /// `pf_pdp_quantity_to_derive`: for each preset and quantity asked for,
    /// that many paths of the preset at consecutive indices, from the later of
    /// the index after the last one cached in `cache` and the index after the
    /// largest one used in `profile` on `network_id`. When some preset's
    /// indices would leave its key space, the result is `IndexOverflow`.
    pub fn paths_to_derive(
        pf_pdp_quantity_to_derive: &QuantitiesPerFactorSource,
        network_id: NetworkID,
        profile: Option<Profile>,
        cache: &FactorInstancesCache,
    ) -> (r: Result<OrderedMap<FactorSourceIDFromHash, OrderedSet<DerivationPath>>, CommonError>)
        requires
            pf_pdp_total(pf_pdp_quantity_to_derive@) < u32::MAX,
            forall|f: FactorSourceIDFromHash, p: DerivationPreset| #[trigger] pf_pdp_quantity_to_derive.spec_has(f) ==> #[trigger] profile_analyzable(
                profile,
                network_id,
                p,
                f,
            ),
        ensures
            (r is Ok) == (forall|i: int| 0 <= i < pf_pdp_quantity_to_derive@.len() ==> #[trigger] factor_fits(
                cache.spec_model(),
                profile,
                network_id,
                pf_pdp_quantity_to_derive@[i].0,
                pf_pdp_quantity_to_derive@[i].1@,
            )),
            r is Err ==> r == Err::<OrderedMap<FactorSourceIDFromHash, OrderedSet<DerivationPath>>, CommonError>(CommonError::IndexOverflow),
            r matches Ok(m) ==> entries_keys(m@) == entries_keys(pf_pdp_quantity_to_derive@) && forall|i: int| 0 <= i < m@.len()
                ==> assigned_paths(
                (#[trigger] m@[i]).1@,
                pf_pdp_quantity_to_derive@[i].1@,
                cache.spec_model(),
                profile,
                network_id,
                pf_pdp_quantity_to_derive@[i].0,
            ),
    {
        let mut assigner = NextDerivationEntityIndexAssigner::new(network_id, profile, cache.clone());
        let ghost pa = assigner.spec_profile_analyzing();
        let ghost cm = cache.spec_model();
        let ghost s = pf_pdp_quantity_to_derive@;
        let _ = pf_pdp_quantity_to_derive.has_unique_keys();
        proof {
            assert forall|f: FactorSourceIDFromHash, p: DerivationPreset| #[trigger] pf_pdp_quantity_to_derive.spec_has(f)
                implies #[trigger] pa.spec_analyzable(p, f) by {
                assert(profile_analyzable(profile, network_id, p, f));
                lemma_pa_is_profile(pa, profile, network_id);
            }
            assert forall|p: DerivationPreset, f: FactorSourceIDFromHash| #[trigger] pa.spec_max_for(p, f) == profile_max_for(profile, network_id, p, f) by {
                lemma_pa_is_profile(pa, profile, network_id);
            }
        }
        let mut out: Vec<(FactorSourceIDFromHash, OrderedSet<DerivationPath>)> = Vec::new();
        let n = pf_pdp_quantity_to_derive.len();
        let ghost mut calls: nat = 0;
        let ghost mut touched: Set<(FactorSourceIDFromHash, IndexAgnosticPath)> = Set::empty();
        let mut i: usize = 0;
        while i < n
            invariant
                i <= n,
                n == s.len(),
                s == pf_pdp_quantity_to_derive@,
                crate::types::ordered_map::unique_keys(s),
                pf_pdp_total(s) < u32::MAX,
                assigner.spec_profile_analyzing() == pa,
                assigner.spec_cache_model() == cm,
                cm == cache.spec_model(),
                pa.spec_network_id() == network_id,
                forall|f: FactorSourceIDFromHash, p: DerivationPreset| #[trigger] pf_pdp_quantity_to_derive.spec_has(f)
                    ==> #[trigger] pa.spec_analyzable(p, f),
                forall|p: DerivationPreset, f: FactorSourceIDFromHash| #[trigger] pa.spec_max_for(p, f) == profile_max_for(profile, network_id, p, f),
                calls == pf_pdp_total(s.take(i as int)),
                forall|f: FactorSourceIDFromHash, p: IndexAgnosticPath| #[trigger] assigner.spec_offset(f, p) <= calls,
                forall|f: FactorSourceIDFromHash, p: IndexAgnosticPath| !touched.contains((f, p)) ==> #[trigger] assigner.spec_offset(f, p) == 0,
                forall|x: (FactorSourceIDFromHash, IndexAgnosticPath)| #[trigger] touched.contains(x) ==> crate::types::ordered_map::entries_have_key(s.take(i as int), x.0),
                out@.len() == i,
                forall|j: int| 0 <= j < i ==> (#[trigger] out@[j]).0 == s[j].0 && assigned_paths(out@[j].1@, s[j].1@, cm, profile, network_id, s[j].0),
                forall|j: int| 0 <= j < i ==> #[trigger] factor_fits(cm, profile, network_id, s[j].0, s[j].1@),
            decreases n - i,
        {
            let e = pf_pdp_quantity_to_derive.get_index(i);
            let fsid = e.0;
            proof {
                lemma_entries_get_at(s, i as int);
                assert(pf_pdp_quantity_to_derive.spec_has(fsid));
                assert(s.take(i + 1).drop_last() =~= s.take(i as int));
                lemma_pf_pdp_total_prefix(s, i + 1);
                crate::types::ordered_map::lemma_entries_get_take(s, i as int, fsid);
            }
            let ghost t = e.1@;
            let _ = e.1.has_unique_keys();
            let mut paths: OrderedSet<DerivationPath> = OrderedSet::new();
            let m = e.1.len();
            let mut j: usize = 0;
            while j < m
                invariant
                    j <= m,
                    m == t.len(),
                    t == e.1@,
                    crate::types::ordered_map::unique_keys(t),
                    e == s[i as int],
                    fsid == e.0,
                    i < n,
                    n == s.len(),
                    s == pf_pdp_quantity_to_derive@,
                    !crate::types::ordered_map::entries_have_key(s.take(i as int), fsid),
                    pf_pdp_total(s.take(i + 1)) <= pf_pdp_total(s),
                    pf_pdp_total(s) < u32::MAX,
                    pf_pdp_total(s.take(i + 1)) == pf_pdp_total(s.take(i as int)) + pdp_total(t),
                    assigner.spec_profile_analyzing() == pa,
                    assigner.spec_cache_model() == cm,
                    cm == cache.spec_model(),
                    pa.spec_network_id() == network_id,
                    forall|p: DerivationPreset| #[trigger] pa.spec_analyzable(p, fsid),
                    forall|p: DerivationPreset, f: FactorSourceIDFromHash| #[trigger] pa.spec_max_for(p, f) == profile_max_for(profile, network_id, p, f),
                    calls == pf_pdp_total(s.take(i as int)) + pdp_total(t.take(j as int)),
                    forall|f: FactorSourceIDFromHash, p: IndexAgnosticPath| #[trigger] assigner.spec_offset(f, p) <= calls,
                    forall|f: FactorSourceIDFromHash, p: IndexAgnosticPath| !touched.contains((f, p)) ==> #[trigger] assigner.spec_offset(f, p) == 0,
                    forall|x: (FactorSourceIDFromHash, IndexAgnosticPath)| #[trigger] touched.contains(x) ==> crate::types::ordered_map::entries_have_key(s.take(i as int), x.0)
                        || (x.0 == fsid && exists|k: int| 0 <= k < j && x.1 == preset_path(network_id, #[trigger] t[k].0)),
                    assigned_paths(paths@, t.take(j as int), cm, profile, network_id, fsid),
                    factor_fits(cm, profile, network_id, fsid, t.take(j as int)),
                decreases m - j,
            {
                let pe = e.1.get_index(j);
                let preset = pe.0;
                let qty = pe.1;
                let path = preset.index_agnostic_path_on_network(network_id);
                let ghost prefix = paths@;
                let ghost first = first_assigned_value(cm, profile, network_id, fsid, preset);
                proof {
                    crate::factor_instances_provider::agnostic_paths::lemma_preset_path_roundtrip(network_id, preset, path);
                    assert(t.take(j + 1).drop_last() =~= t.take(j as int));
                    assert(t.take(j + 1).last() == t[j as int]);
                    lemma_pdp_total_prefix(t, j + 1);
                    assert(!touched.contains((fsid, path))) by {
                        if touched.contains((fsid, path)) {
                            let k = choose|k: int| 0 <= k < j && path == preset_path(network_id, #[trigger] t[k].0);
                            crate::factor_instances_provider::agnostic_paths::lemma_preset_path_roundtrip(network_id, t[k].0, path);
                            assert(t[k].0 == preset);
                            assert(t[k].0 == t[j as int].0);
                        }
                    }
                    lemma_assigned_paths_presets(prefix, t.take(j as int), cm, profile, network_id, fsid);
                }
                let mut c: usize = 0;
                while c < qty
                    invariant
                        c <= qty,
                        qty == t[j as int].1,
                        preset == t[j as int].0,
                        j < m,
                        m == t.len(),
                        crate::types::ordered_map::unique_keys(t),
                        i < n,
                        n == s.len(),
                        !crate::types::ordered_map::entries_have_key(s.take(i as int), fsid),
                        pf_pdp_total(s.take(i + 1)) <= pf_pdp_total(s),
                        pf_pdp_total(s) < u32::MAX,
                        pf_pdp_total(s.take(i + 1)) == pf_pdp_total(s.take(i as int)) + pdp_total(t),
                        pdp_total(t.take(j + 1)) <= pdp_total(t),
                        pdp_total(t.take(j + 1)) == pdp_total(t.take(j as int)) + qty,
                        assigner.spec_profile_analyzing() == pa,
                        assigner.spec_cache_model() == cm,
                        cm == cache.spec_model(),
                        fsid == e.0,
                        pa.spec_network_id() == network_id,
                        path == preset_path(network_id, preset),
                        spec_preset_of(path) == Some(preset),
                        pa.spec_analyzable(preset, fsid),
                        forall|p: DerivationPreset, f: FactorSourceIDFromHash| #[trigger] pa.spec_max_for(p, f) == profile_max_for(profile, network_id, p, f),
                        first == first_assigned_value(cm, profile, network_id, fsid, preset),
                        calls == pf_pdp_total(s.take(i as int)) + pdp_total(t.take(j as int)) + c,
                        forall|f: FactorSourceIDFromHash, p: IndexAgnosticPath| #[trigger] assigner.spec_offset(f, p) <= calls,
                        assigner.spec_offset(fsid, path) == c,
                        forall|f: FactorSourceIDFromHash, p: IndexAgnosticPath| !touched.contains((f, p)) && (f != fsid || p != path) ==> #[trigger] assigner.spec_offset(f, p) == 0,
                        forall|x: (FactorSourceIDFromHash, IndexAgnosticPath)| #[trigger] touched.contains(x) ==> crate::types::ordered_map::entries_have_key(s.take(i as int), x.0)
                            || (x.0 == fsid && exists|k: int| 0 <= k < j + 1 && x.1 == preset_path(network_id, #[trigger] t[k].0)),
                        c > 0 ==> touched.contains((fsid, path)),
                        s == pf_pdp_quantity_to_derive@,
                        e == s[i as int],
                        t == e.1@,
                        forall|x: DerivationPath| #[trigger] prefix.contains(x) ==> exists|k: int| 0 <= k < j && spec_agnostic(x) == preset_path(network_id, #[trigger] t[k].0),
                        assigned_paths(prefix, t.take(j as int), cm, profile, network_id, fsid),
                        paths@.len() == prefix.len() + c,
                        paths@.take(prefix.len() as int) == prefix,
                        consecutive_paths(paths@.skip(prefix.len() as int), network_id, preset, first),
                        c > 0 ==> {
                            &&& !overflows_after(cache_max(cm, fsid, path))
                            &&& !overflows_after(profile_max_for(profile, network_id, preset, fsid))
                            &&& base_of_value(first) + c - 1 < BIP32_SECURIFIED_HALF
                        },
                    decreases qty - c,
                {
                    let ghost before = assigner;
                    let index = match assigner.next(fsid, path) {
                        Ok(index) => index,
                        Err(err) => {
                            proof {
                                assert(!preset_fits(cm, profile, network_id, fsid, preset, qty as nat));
                                assert(!factor_fits(cm, profile, network_id, fsid, t)) by {
                                    assert(t[j as int].0 == preset);
                                }
                                assert(pf_pdp_quantity_to_derive@[i as int].1@ == t);
                            }
                            return Err(err);
                        },
                    };
                    let p = path.with_index(index);
                    let ghost old_paths = paths@;
                    proof {
                        assert(!old_paths.contains(p)) by {
                            if old_paths.contains(p) {
                                let k = choose|k: int| 0 <= k < old_paths.len() && old_paths[k] == p;
                                if k < prefix.len() {
                                    assert(prefix[k] == p);
                                    assert(prefix.contains(p));
                                    let kk = choose|kk: int| 0 <= kk < j && spec_agnostic(p) == preset_path(network_id, #[trigger] t[kk].0);
                                    crate::factor_instances_provider::agnostic_paths::lemma_preset_path_roundtrip(network_id, t[kk].0, path);
                                    assert(t[kk].0 == preset);
                                } else {
                                    assert(old_paths.skip(prefix.len() as int)[k - prefix.len()] == p);
                                }
                            }
                        }
                    }
                    let one = vec![p];
                    assert(one@ =~= seq![p]);
                    paths.extend_from_vec(&one);
                    proof {
                        crate::types::factor_instances::lemma_append_new_one(old_paths, p);
                        assert(paths@ == old_paths.push(p));
                        assert(paths@.take(prefix.len() as int) =~= prefix) by {
                            assert(old_paths.take(prefix.len() as int) == prefix);
                        }
                        assert(paths@.skip(prefix.len() as int) =~= old_paths.skip(prefix.len() as int).push(p));
                        touched = touched.insert((fsid, path));
                        calls = calls + 1;
                        assert(path == preset_path(network_id, t[j as int].0));
                    }
                    c = c + 1;
                }
                proof {
                    let tj = t.take(j + 1);
                    assert(tj.drop_last() =~= t.take(j as int));
                    assert(tj.last() == t[j as int]);
                    assert(paths@.take(paths@.len() - qty) =~= prefix);
                    assert forall|k: int| 0 <= k < tj.len() implies #[trigger] preset_fits(cm, profile, network_id, fsid, tj[k].0, tj[k].1 as nat) by {
                        if k < j {
                            assert(tj[k] == t.take(j as int)[k]);
                        }
                    }
                    assert forall|f: FactorSourceIDFromHash, q: IndexAgnosticPath| !touched.contains((f, q)) implies #[trigger] assigner.spec_offset(f, q) == 0 by {
                        if f == fsid && q == path {
                            assert(c == qty);
                        }
                    }
                }
                j = j + 1;
            }
            proof {
                assert(t.take(m as int) =~= t);
                assert forall|x: (FactorSourceIDFromHash, IndexAgnosticPath)| #[trigger] touched.contains(x) implies crate::types::ordered_map::entries_have_key(s.take(i + 1), x.0) by {
                    crate::types::ordered_map::lemma_entries_keys_contains(s.take(i + 1), x.0);
                    crate::types::ordered_map::lemma_entries_keys_contains(s.take(i as int), x.0);
                }
            }
            out.push((fsid, paths));
            i = i + 1;
        }
        proof {
            assert(entries_keys(out@) =~= entries_keys(s));
            assert(crate::types::ordered_map::unique_keys(out@)) by {
                assert forall|a: int, b: int| 0 <= a < out@.len() && 0 <= b < out@.len() && a != b implies out@[a].0 != out@[b].0 by {
                    assert(out@[a].0 == s[a].0);
                    assert(out@[b].0 == s[b].0);
                }
            }
        }
        Ok(OrderedMap::from_entries(out))
    }

    /// What follows the derivation of `pf_newly_derived`: the instances found
    /// in the cache and the derived ones are split into those to use directly
    /// and those to cache, the found ones are deleted from `cache`, the ones to
    /// cache are inserted, and the outcome is the transposition of the four
    /// maps. The cache must accept the instances to cache.
    pub fn derive_more_and_cache(
        originally_requested_quantified_derivation_preset: &QuantifiedDerivationPreset,
        factor_source_ids: &Vec<FactorSourceIDFromHash>,
        cache: &mut FactorInstancesCache,
        pf_found_in_cache_leq_requested: OrderedMap<FactorSourceIDFromHash, FactorInstances>,
        pf_newly_derived: OrderedMap<FactorSourceIDFromHash, FactorInstances>,
    ) -> (r: Result<InternalFactorInstancesProviderOutcome, CommonError>)
        requires
            factor_source_ids@.no_duplicates(),
            pf_consistent(pf_found_in_cache_leq_requested),
            pf_consistent(pf_newly_derived),
            forall|f: FactorSourceIDFromHash, x: HierarchicalDeterministicFactorInstance| #[trigger] del_of(
                pf_found_in_cache_leq_requested,
                f,
            ).contains(x) ==> cached_dup(old(cache).spec_model(), f, x),
            forall|k: FactorSourceIDFromHash| #[trigger] factor_source_ids@.contains(k) ==> of_preset(
                merged_of(pf_found_in_cache_leq_requested, pf_newly_derived, k),
                originally_requested_quantified_derivation_preset.derivation_preset,
            ).len() > 0 ==> originally_requested_quantified_derivation_preset.quantity <= of_preset(
                merged_of(pf_found_in_cache_leq_requested, pf_newly_derived, k),
                originally_requested_quantified_derivation_preset.derivation_preset,
            ).len(),
            caching_accepted(
                *originally_requested_quantified_derivation_preset,
                factor_source_ids@,
                old(cache).spec_model(),
                pf_found_in_cache_leq_requested,
                pf_newly_derived,
            ),
        ensures
            r is Ok,
            exists|to_use: OrderedMap<FactorSourceIDFromHash, FactorInstances>, to_cache: OrderedMap<FactorSourceIDFromHash, FactorInstances>| {
                &&& #[trigger] is_split(*originally_requested_quantified_derivation_preset, factor_source_ids@,
                    pf_found_in_cache_leq_requested, pf_newly_derived, to_use, to_cache)
                &&& final(cache).spec_model() == model_insert_all(model_delete(old(cache).spec_model(), pf_found_in_cache_leq_requested), to_cache@).0
                &&& match r {
                    Ok(o) => model_insert_all(model_delete(old(cache).spec_model(), pf_found_in_cache_leq_requested), to_cache@).1 is Ok
                        && forall|k: FactorSourceIDFromHash, w: OutcomeField| #[trigger] field_or_empty(o.per_factor, k, w)
                        == append_new(
                        Seq::<HierarchicalDeterministicFactorInstance>::empty(),
                        match w {
                            OutcomeField::ToCache => instances_of(to_cache, k),
                            OutcomeField::ToUseDirectly => instances_of(to_use, k),
                            OutcomeField::FoundInCache => instances_of(pf_found_in_cache_leq_requested, k),
                            OutcomeField::NewlyDerived => instances_of(pf_newly_derived, k),
                        },
                    ),
                    Err(e) => model_insert_all(model_delete(old(cache).spec_model(), pf_found_in_cache_leq_requested), to_cache@).1 == Err::<(), CommonError>(e),
                }
            },
    {
        let (pf_to_use_directly, pf_to_cache) = Self::split(
            originally_requested_quantified_derivation_preset,
            factor_source_ids,
            &pf_found_in_cache_leq_requested,
            &pf_newly_derived,
        );
        let ghost found = pf_found_in_cache_leq_requested;
        let ghost derived = pf_newly_derived;
        let ghost m0 = cache.spec_model();
        proof {
            assert(is_split(*originally_requested_quantified_derivation_preset, factor_source_ids@, found, derived, pf_to_use_directly, pf_to_cache));
            assert forall|k: FactorSourceIDFromHash, x: HierarchicalDeterministicFactorInstance| #[trigger] merged_of(found, derived, k).contains(x)
                implies x.factor_source_id == k by {
                lemma_append_new(Seq::<HierarchicalDeterministicFactorInstance>::empty(), instances_of(found, k));
                lemma_append_new(append_new(Seq::<HierarchicalDeterministicFactorInstance>::empty(), instances_of(found, k)), instances_of(derived, k));
                assert(all_of_factor(instances_of(found, k), k));
                assert(all_of_factor(instances_of(derived, k), k));
            }
            assert forall|k: FactorSourceIDFromHash| #[trigger] all_of_factor(instances_of(pf_to_use_directly, k), k) by {
                assert forall|x: HierarchicalDeterministicFactorInstance| #[trigger] instances_of(pf_to_use_directly, k).contains(x)
                    implies x.factor_source_id == k by {
                    assert(merged_of(found, derived, k).contains(x));
                }
            }
            assert forall|k: FactorSourceIDFromHash| #[trigger] all_of_factor(instances_of(pf_to_cache, k), k) by {
                assert forall|x: HierarchicalDeterministicFactorInstance| #[trigger] instances_of(pf_to_cache, k).contains(x)
                    implies x.factor_source_id == k by {
                    assert(merged_of(found, derived, k).contains(x));
                }
            }
        }
        cache.delete(&pf_found_in_cache_leq_requested);
        let inserted = cache.insert_all(&pf_to_cache);
        match inserted {
            Err(e) => {
                proof {
                    assert(is_split(*originally_requested_quantified_derivation_preset, factor_source_ids@, found, derived, pf_to_use_directly, pf_to_cache));
                }
                Err(e)
            },
            Ok(()) => Ok(InternalFactorInstancesProviderOutcome::transpose(
                pf_to_cache,
                pf_to_use_directly,
                pf_found_in_cache_leq_requested,
                pf_newly_derived,
            )),
        }
    }
}

/// Inserting the instances to cache that splitting `found` and `derived`
/// gives, into the content `m` without the instances of `found`, succeeds.
pub open spec fn caching_accepted(
    q: QuantifiedDerivationPreset,
    ids: Seq<FactorSourceIDFromHash>,
    m: CacheModel,
    found: OrderedMap<FactorSourceIDFromHash, FactorInstances>,
    derived: OrderedMap<FactorSourceIDFromHash, FactorInstances>,
) -> bool {
    forall|to_use: OrderedMap<FactorSourceIDFromHash, FactorInstances>, to_cache: OrderedMap<FactorSourceIDFromHash, FactorInstances>|
        #[trigger] is_split(q, ids, found, derived, to_use, to_cache) ==> model_insert_all(model_delete(m, found), to_cache@).1 is Ok
}

/// Two sequences of entries with the same keys and the same instances, in order.
pub open spec fn same_entry_views(a: Seq<(FactorSourceIDFromHash, FactorInstances)>, b: Seq<(FactorSourceIDFromHash, FactorInstances)>) -> bool {
    &&& a.len() == b.len()
    &&& forall|i: int| 0 <= i < a.len() ==> (#[trigger] a[i]).0 == b[i].0 && a[i].1@ == b[i].1@
}

/// Inserting depends on the keys and the instances of the entries alone.
proof fn lemma_insert_all_views(m: CacheModel, a: Seq<(FactorSourceIDFromHash, FactorInstances)>, b: Seq<(FactorSourceIDFromHash, FactorInstances)>)
    requires
        same_entry_views(a, b),
    ensures
        model_insert_all(m, a) == model_insert_all(m, b),
    decreases a.len(),
{
    if a.len() > 0 {
        assert(a.last() == a[a.len() - 1] && b.last() == b[b.len() - 1]);
        assert forall|i: int| 0 <= i < a.drop_last().len() implies (#[trigger] a.drop_last()[i]).0 == b.drop_last()[i].0
            && a.drop_last()[i].1@ == b.drop_last()[i].1@ by {
            assert(a.drop_last()[i] == a[i] && b.drop_last()[i] == b[i]);
        }
        lemma_insert_all_views(m, a.drop_last(), b.drop_last());
    }
}

/// Any two splits hold the same instances to cache, in the same order.
proof fn lemma_splits_agree(
    q: QuantifiedDerivationPreset,
    ids: Seq<FactorSourceIDFromHash>,
    found: OrderedMap<FactorSourceIDFromHash, FactorInstances>,
    derived: OrderedMap<FactorSourceIDFromHash, FactorInstances>,
    u1: OrderedMap<FactorSourceIDFromHash, FactorInstances>,
    c1: OrderedMap<FactorSourceIDFromHash, FactorInstances>,
    u2: OrderedMap<FactorSourceIDFromHash, FactorInstances>,
    c2: OrderedMap<FactorSourceIDFromHash, FactorInstances>,
)
    requires
        ids.no_duplicates(),
        is_split(q, ids, found, derived, u1, c1),
        is_split(q, ids, found, derived, u2, c2),
    ensures
        same_entry_views(c1@, c2@),
{
    let a = c1@;
    let b = c2@;
    assert(entries_keys(a).len() == a.len() && entries_keys(b).len() == b.len());
    assert(crate::types::ordered_map::unique_keys(a)) by {
        assert forall|x: int, y: int| 0 <= x < a.len() && 0 <= y < a.len() && x != y implies a[x].0 != a[y].0 by {
            assert(entries_keys(a)[x] == a[x].0 && entries_keys(a)[y] == a[y].0);
        }
    }
    assert(crate::types::ordered_map::unique_keys(b)) by {
        assert forall|x: int, y: int| 0 <= x < b.len() && 0 <= y < b.len() && x != y implies b[x].0 != b[y].0 by {
            assert(entries_keys(b)[x] == b[x].0 && entries_keys(b)[y] == b[y].0);
        }
    }
    assert forall|i: int| 0 <= i < a.len() implies (#[trigger] a[i]).0 == b[i].0 && a[i].1@ == b[i].1@ by {
        assert(entries_keys(a)[i] == a[i].0 && entries_keys(b)[i] == b[i].0);
        let k = ids[i];
        assert(ids.contains(k));
        lemma_entries_get_at(a, i);
        lemma_entries_get_at(b, i);
    }
}

impl FactorInstancesProvider {
    /// Whether the cache accepts what [`Self::derive_more_and_cache`] would
    /// insert into it; the cache is unchanged.
    pub fn caching_succeeds(
        originally_requested_quantified_derivation_preset: &QuantifiedDerivationPreset,
        factor_source_ids: &Vec<FactorSourceIDFromHash>,
        cache: &FactorInstancesCache,
        pf_found_in_cache_leq_requested: &OrderedMap<FactorSourceIDFromHash, FactorInstances>,
        pf_newly_derived: &OrderedMap<FactorSourceIDFromHash, FactorInstances>,
    ) -> (b: bool)
        requires
            factor_source_ids@.no_duplicates(),
            forall|f: FactorSourceIDFromHash, x: HierarchicalDeterministicFactorInstance| #[trigger] del_of(
                *pf_found_in_cache_leq_requested,
                f,
            ).contains(x) ==> cached_dup(cache.spec_model(), f, x),
            forall|k: FactorSourceIDFromHash| #[trigger] factor_source_ids@.contains(k) ==> of_preset(
                merged_of(*pf_found_in_cache_leq_requested, *pf_newly_derived, k),
                originally_requested_quantified_derivation_preset.derivation_preset,
            ).len() > 0 ==> originally_requested_quantified_derivation_preset.quantity <= of_preset(
                merged_of(*pf_found_in_cache_leq_requested, *pf_newly_derived, k),
                originally_requested_quantified_derivation_preset.derivation_preset,
            ).len(),
        ensures
            b == caching_accepted(
                *originally_requested_quantified_derivation_preset,
                factor_source_ids@,
                cache.spec_model(),
                *pf_found_in_cache_leq_requested,
                *pf_newly_derived,
            ),
    {
        let (to_use, to_cache) = Self::split(
            originally_requested_quantified_derivation_preset,
            factor_source_ids,
            pf_found_in_cache_leq_requested,
            pf_newly_derived,
        );
        let mut trial = cache.clone();
        trial.delete(pf_found_in_cache_leq_requested);
        let b = trial.can_insert_all(&to_cache);
        proof {
            let q = *originally_requested_quantified_derivation_preset;
            let ids = factor_source_ids@;
            let found = *pf_found_in_cache_leq_requested;
            let derived = *pf_newly_derived;
            assert(is_split(q, ids, found, derived, to_use, to_cache));
            assert forall|u2: OrderedMap<FactorSourceIDFromHash, FactorInstances>, c2: OrderedMap<FactorSourceIDFromHash, FactorInstances>|
                #[trigger] is_split(q, ids, found, derived, u2, c2) implies (model_insert_all(model_delete(cache.spec_model(), found), c2@).1 is Ok) == b by {
                lemma_splits_agree(q, ids, found, derived, to_use, to_cache, u2, c2);
                lemma_insert_all_views(model_delete(cache.spec_model(), found), to_cache@, c2@);
            }
        }
        b
    }
}

proof fn lemma_pdp_total_prefix(s: Seq<(DerivationPreset, usize)>, i: int)
    requires
        0 <= i <= s.len(),
    ensures
        pdp_total(s.take(i)) <= pdp_total(s),
    decreases s.len() - i,
{
    if i < s.len() {
        lemma_pdp_total_prefix(s, i + 1);
        assert(s.take(i + 1).drop_last() =~= s.take(i));
    } else {
        assert(s.take(i) =~= s);
    }
}

impl FactorInstancesProvider {
    /// What filling the cache for a new factor source derives: every preset,
    /// `CACHE_FILLING_QUANTITY` instances each, for `factor_source_id` alone.
    pub fn new_factor_source_quantities(factor_source_id: FactorSourceIDFromHash) -> (q: QuantitiesPerFactorSource)
        ensures
            entries_keys(q@) == seq![factor_source_id],
            q.spec_get(factor_source_id) matches Some(pdp) && entries_keys(pdp@) == all_presets() && forall|p: DerivationPreset|
                #[trigger] pdp.spec_get(p) == Some(CACHE_FILLING_QUANTITY),
    {
        let mut pdp: QuantitiesPerPreset = OrderedMap::new();
        let presets = DerivationPreset::all();
        let mut i: usize = 0;
        while i < presets.len()
            invariant
                i <= presets@.len(),
                presets@ == all_presets(),
                entries_keys(pdp@) == all_presets().take(i as int),
                forall|p: DerivationPreset| #[trigger] pdp.spec_get(p) == (if all_presets().take(i as int).contains(p) {
                    Some(CACHE_FILLING_QUANTITY)
                } else {
                    None
                }),
            decreases presets@.len() - i,
        {
            let p = presets[i];
            let ghost before = pdp;
            proof {
                assert(all_presets().take(i + 1) =~= all_presets().take(i as int).push(p));
                assert(!all_presets().take(i as int).contains(p)) by {
                    if all_presets().take(i as int).contains(p) {
                        let k = choose|k: int| 0 <= k < i && all_presets().take(i as int)[k] == p;
                        assert(all_presets()[k] == all_presets()[i as int]);
                    }
                }
                assert(!before.spec_has(p)) by {
                    crate::types::ordered_map::lemma_entries_keys_contains(before@, p);
                }
            }
            pdp.insert(p, CACHE_FILLING_QUANTITY);
            proof {
                assert(entries_keys(pdp@) =~= entries_keys(before@).push(p));
                assert forall|q: DerivationPreset| #[trigger] pdp.spec_get(q) == (if all_presets().take(i + 1).contains(q) {
                    Some(CACHE_FILLING_QUANTITY)
                } else {
                    None
                }) by {
                    if q != p {
                        crate::types::factor_instances::lemma_take_one_more_contains(all_presets(), i as int, q);
                    } else {
                        crate::types::factor_instances::lemma_take_one_more_contains(all_presets(), i as int, q);
                    }
                }
            }
            i = i + 1;
        }
        proof {
            assert(all_presets().take(4) =~= all_presets());
            assert forall|p: DerivationPreset| all_presets().contains(p) by {
                match p {
                    DerivationPreset::AccountVeci => assert(all_presets()[0] == p),
                    DerivationPreset::AccountMfa => assert(all_presets()[1] == p),
                    DerivationPreset::IdentityVeci => assert(all_presets()[2] == p),
                    DerivationPreset::IdentityMfa => assert(all_presets()[3] == p),
                }
            }
        }
        let mut q: QuantitiesPerFactorSource = OrderedMap::new();
        q.insert(factor_source_id, pdp);
        assert(entries_keys(q@) =~= seq![factor_source_id]);
        q
    }

    /// What follows deriving for a new factor source: every derived instance
    /// goes into `cache`, and the outcome for `factor_source_id` reports them
    /// as derived and cached, with nothing used directly or found in the
    /// cache. The cache must accept every derived instance.
    pub fn cache_new_factor_source(
        cache: &mut FactorInstancesCache,
        factor_source_id: FactorSourceIDFromHash,
        derived: &InstancesPerFactorSource,
    ) -> (r: Result<FactorInstancesProviderOutcomeForFactor, CommonError>)
        requires
            derived.spec_has(factor_source_id),
            all_of_factor(derived.spec_get(factor_source_id).unwrap()@, factor_source_id),
            model_insert_all(old(cache).spec_model(), derived@).1 is Ok,
        ensures
            final(cache).spec_model() == model_insert_all(old(cache).spec_model(), derived@).0,
            r matches Ok(o) && {
                &&& o.factor_source_id == factor_source_id
                &&& o.to_use_directly@ == Seq::<HierarchicalDeterministicFactorInstance>::empty()
                &&& o.debug_was_cached@ == derived.spec_get(factor_source_id).unwrap()@
                &&& o.debug_found_in_cache@ == Seq::<HierarchicalDeterministicFactorInstance>::empty()
                &&& o.debug_was_derived@ == derived.spec_get(factor_source_id).unwrap()@
            },
    {
        match cache.insert_all(derived) {
            Ok(_) => {},
            Err(e) => return Err(e),
        }
        let instances = match derived.get(&factor_source_id) {
            Some(fi) => fi.clone(),
            None => {
                proof {
                    assert(false);
                }
                FactorInstances::empty()
            },
        };
        let outcome = InternalFactorInstancesProviderOutcomeForFactor::new(
            factor_source_id,
            instances.clone(),
            FactorInstances::empty(),
            FactorInstances::empty(),
            instances,
        );
        Ok(FactorInstancesProviderOutcomeForFactor::from(outcome))
    }
}

impl FactorInstancesProvider {
    /// What securifying the entities of kind `E` at `addresses` with `matrix`
    /// asks for: on the network of the first address, one instance of the
    /// MFA preset of that kind per entity, from every factor source of the
    /// matrix, each once. Every factor source of the matrix must be in
    /// `profile`, and every address an entity of `profile` on one network.
    pub fn entity_mfa_request<E: IsEntity>(
        profile: &Profile,
        matrix_of_factor_sources: &MatrixOfFactorSources,
        addresses: &OrderedSet<AddressOfAccountOrPersona>,
    ) -> (r: (NetworkID, Vec<FactorSourceIDFromHash>, QuantifiedDerivationPreset))
        requires
            forall|f: HDFactorSource| #[trigger] matrix_of_factor_sources.spec_all_factors().contains(f) ==> profile.factor_sources@.contains(f),
            addresses@.len() > 0,
            forall|i: int| 0 <= i < addresses@.len() ==> {
                &&& profile.spec_contains_address(#[trigger] addresses@[i])
                &&& addresses@[i].spec_entity_kind() == E::spec_kind()
                &&& addresses@[i].spec_network_id() == addresses@[0].spec_network_id()
            },
        ensures
            r.0 == addresses@[0].spec_network_id(),
            r.1@ == matrix_of_factor_sources.spec_all_factors().map_values(|f: HDFactorSource| f.factor_source_id),
            r.2.quantity == addresses@.len(),
            preset_entity_kind(r.2.derivation_preset) == E::spec_kind(),
            preset_key_space(r.2.derivation_preset) == KeySpace::Securified,
    {
        let factor_sources = matrix_of_factor_sources.all_factors();
        let mut ids: Vec<FactorSourceIDFromHash> = Vec::new();
        let mut i: usize = 0;
        while i < factor_sources.len()
            invariant
                i <= factor_sources@.len(),
                ids@ == factor_sources@.take(i as int).map_values(|f: HDFactorSource| f.factor_source_id),
            decreases factor_sources@.len() - i,
        {
            ids.push(factor_sources[i].factor_source_id());
            i = i + 1;
            assert(ids@ =~= factor_sources@.take(i as int).map_values(|f: HDFactorSource| f.factor_source_id));
        }
        assert(factor_sources@.take(i as int) =~= factor_sources@);
        let all = addresses.elements();
        let network_id = all[0].network_id();
        let preset = DerivationPreset::mfa_entity_kind(E::kind());
        (network_id, ids, QuantifiedDerivationPreset::new(preset, addresses.len()))
    }
}

/// The number of instances of `s` of preset `p`.
fn count_of_preset(s: &FactorInstances, p: DerivationPreset) -> (n: usize)
    ensures
        n == of_preset(s@, p).len(),
{
    let v = s.factor_instances();
    let mut n: usize = 0;
    let mut i: usize = 0;
    while i < v.len()
        invariant
            i <= v@.len(),
            v@ == s@,
            n == of_preset(v@.take(i as int), p).len(),
            n <= i,
        decreases v@.len() - i,
    {
        proof {
            assert(v@.take(i + 1).drop_last() =~= v@.take(i as int));
            assert(v@.take(i + 1).last() == v@[i as int]);
        }
        match DerivationPreset::try_from(v[i].agnostic_path()) {
            Ok(q) => {
                if q == p {
                    n = n + 1;
                }
            },
            Err(_) => {},
        }
        i = i + 1;
    }
    assert(v@.take(i as int) =~= v@);
    n
}

impl FactorInstancesProvider {
    /// Whether newly derived instances can be split and cached as
    /// `derive_more_and_cache` does: every instance is filed under its own
    /// factor source, and each factor source of `factor_source_ids` that has
    /// any instance of the requested preset, found or derived, has at least
    /// the requested quantity of them (the split panics otherwise).
    pub fn derived_instances_fit(
        originally_requested_quantified_derivation_preset: &QuantifiedDerivationPreset,
        factor_source_ids: &Vec<FactorSourceIDFromHash>,
        pf_found_in_cache_leq_requested: &OrderedMap<FactorSourceIDFromHash, FactorInstances>,
        pf_newly_derived: &OrderedMap<FactorSourceIDFromHash, FactorInstances>,
    ) -> (b: bool)
        ensures
            b == (pf_consistent(*pf_newly_derived) && forall|k: FactorSourceIDFromHash| #[trigger] factor_source_ids@.contains(k) ==> of_preset(
                merged_of(*pf_found_in_cache_leq_requested, *pf_newly_derived, k),
                originally_requested_quantified_derivation_preset.derivation_preset,
            ).len() > 0 ==> originally_requested_quantified_derivation_preset.quantity <= of_preset(
                merged_of(*pf_found_in_cache_leq_requested, *pf_newly_derived, k),
                originally_requested_quantified_derivation_preset.derivation_preset,
            ).len()),
    {
        let q = *originally_requested_quantified_derivation_preset;
        let ghost derived = *pf_newly_derived;
        if !crate::factor_instances_provider::provider::outcome::is_pf_consistent(pf_newly_derived) {
            return false;
        }
        let mut n: usize = 0;
        while n < factor_source_ids.len()
            invariant
                n <= factor_source_ids@.len(),
                q == *originally_requested_quantified_derivation_preset,
                pf_consistent(derived),
                derived == *pf_newly_derived,
                forall|k: FactorSourceIDFromHash| #[trigger] factor_source_ids@.take(n as int).contains(k) ==> of_preset(
                    merged_of(*pf_found_in_cache_leq_requested, derived, k),
                    q.derivation_preset,
                ).len() > 0 ==> q.quantity <= of_preset(merged_of(*pf_found_in_cache_leq_requested, derived, k), q.derivation_preset).len(),
            decreases factor_source_ids@.len() - n,
        {
            let k = factor_source_ids[n];
            let mut merged = FactorInstances::empty();
            match pf_found_in_cache_leq_requested.get(&k) {
                Some(fi) => merged.extend(fi),
                None => {},
            }
            match pf_newly_derived.get(&k) {
                Some(fi) => merged.extend(fi),
                None => {},
            }
            proof {
                crate::types::factor_instances::lemma_append_new_present(Seq::<HierarchicalDeterministicFactorInstance>::empty(), Seq::<HierarchicalDeterministicFactorInstance>::empty());
                assert(merged@ == merged_of(*pf_found_in_cache_leq_requested, derived, k)) by {
                    assert(append_new(Seq::<HierarchicalDeterministicFactorInstance>::empty(), Seq::<HierarchicalDeterministicFactorInstance>::empty()) == Seq::<HierarchicalDeterministicFactorInstance>::empty());
                    assert(append_new(merged@, Seq::<HierarchicalDeterministicFactorInstance>::empty()) == merged@);
                }
            }
            let count = count_of_preset(&merged, q.derivation_preset);
            if count > 0 && q.quantity > count {
                assert(factor_source_ids@.contains(k)) by {
                    assert(factor_source_ids@[n as int] == k);
                }
                assert(of_preset(merged_of(*pf_found_in_cache_leq_requested, *pf_newly_derived, k), q.derivation_preset).len() == count);
                assert(!(forall|g: FactorSourceIDFromHash| #[trigger] factor_source_ids@.contains(g) ==> of_preset(
                    merged_of(*pf_found_in_cache_leq_requested, *pf_newly_derived, g),
                    originally_requested_quantified_derivation_preset.derivation_preset,
                ).len() > 0 ==> originally_requested_quantified_derivation_preset.quantity <= of_preset(
                    merged_of(*pf_found_in_cache_leq_requested, *pf_newly_derived, g),
                    originally_requested_quantified_derivation_preset.derivation_preset,
                ).len()));
                return false;
            }
            proof {
                assert forall|g: FactorSourceIDFromHash| #[trigger] factor_source_ids@.take(n + 1).contains(g) implies of_preset(
                    merged_of(*pf_found_in_cache_leq_requested, derived, g),
                    q.derivation_preset,
                ).len() > 0 ==> q.quantity <= of_preset(merged_of(*pf_found_in_cache_leq_requested, derived, g), q.derivation_preset).len() by {
                    crate::types::factor_instances::lemma_take_one_more_contains(factor_source_ids@, n as int, g);
                }
            }
            n = n + 1;
        }
        assert(factor_source_ids@.take(n as int) =~= factor_source_ids@);
        true
    }
}

} // verus!
