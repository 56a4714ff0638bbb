use vstd::prelude::*;
use crate::factor_instances_provider::agnostic_paths::{preset_key_space, preset_path, spec_preset_of, DerivationPreset, IndexAgnosticPath};
use crate::factor_instances_provider::next_index_assigner::assigner::{cache_max, value_after};
use crate::factor_instances_provider::mixed::{CollectionsOfFactorInstances, DerivationTemplate, CACHE_SIZE};
use crate::factor_instances_provider::next_index_assigner::assigner::NextDerivationEntityIndexAssigner;
use crate::types::derivation::HDPathComponent;
use crate::types::error::CommonError;
use crate::types::keys::FactorSourceIDFromHash;
use crate::types::ordered_map::{entries_keys, OrderedMap};

verus! {

/// The preset that matches a template.
pub open spec fn template_preset(t: DerivationTemplate) -> DerivationPreset {
    match t {
        DerivationTemplate::AccountVeci => DerivationPreset::AccountVeci,
        DerivationTemplate::AccountMfa => DerivationPreset::AccountMfa,
        DerivationTemplate::IdentityVeci => DerivationPreset::IdentityVeci,
        DerivationTemplate::IdentityMfa => DerivationPreset::IdentityMfa,
    }
}

fn preset_of_template(t: DerivationTemplate) -> (p: DerivationPreset)
    ensures
        p == template_preset(t),
{
    match t {
        DerivationTemplate::AccountVeci => DerivationPreset::AccountVeci,
        DerivationTemplate::AccountMfa => DerivationPreset::AccountMfa,
        DerivationTemplate::IdentityVeci => DerivationPreset::IdentityVeci,
        DerivationTemplate::IdentityMfa => DerivationPreset::IdentityMfa,
    }
}

/// The position of the index the assigner `a` gives `f` next for preset
/// `p` on its network: the later of the index after the last one cached and
/// the index after the largest one used in the profile, moved on by the
/// offset of the pair.
pub open spec fn next_assigned_value(a: NextDerivationEntityIndexAssigner, f: FactorSourceIDFromHash, p: DerivationPreset) -> int {
    let path = preset_path(a.spec_network_id(), p);
    let x = value_after(cache_max(a.spec_cache_model(), f, path), path.key_space);
    let y = value_after(a.spec_profile_analyzing().spec_max_for(p, f), path.key_space);
    (if x >= y {
        x
    } else {
        y
    }) + a.spec_offset(f, path)
}

/// A number of instances.
#[derive(Clone, Copy, Debug, PartialEq, Eq, Structural)]
pub struct InstancesQuantity {
    pub value: usize,
}

impl InstancesQuantity {
    pub fn new(value: usize) -> (q: Self)
        ensures
            q.value == value,
    {
        Self { value }
    }
}

impl Default for InstancesQuantity {
    /// As many as fill a cache.
    fn default() -> (q: Self)
        ensures
            q.value == CACHE_SIZE,
    {
        Self::new(CACHE_SIZE)
    }
}

/// A quantity of instances per template.
#[derive(Clone, Copy, Debug, PartialEq, Eq, Structural)]
pub struct Quantities {
    pub account_veci: InstancesQuantity,
    pub account_mfa: InstancesQuantity,
    pub identity_veci: InstancesQuantity,
    pub identity_mfa: InstancesQuantity,
}

impl Quantities {
    /// The quantity of template `t`.
    pub open spec fn spec_quantity(&self, t: DerivationTemplate) -> usize {
        match t {
            DerivationTemplate::AccountVeci => self.account_veci.value,
            DerivationTemplate::AccountMfa => self.account_mfa.value,
            DerivationTemplate::IdentityVeci => self.identity_veci.value,
            DerivationTemplate::IdentityMfa => self.identity_mfa.value,
        }
    }

    pub fn new(account_veci: usize, account_mfa: usize, identity_veci: usize, identity_mfa: usize) -> (q: Self)
        ensures
            q.account_veci.value == account_veci,
            q.account_mfa.value == account_mfa,
            q.identity_veci.value == identity_veci,
            q.identity_mfa.value == identity_mfa,
    {
        Self {
            account_veci: InstancesQuantity::new(account_veci),
            account_mfa: InstancesQuantity::new(account_mfa),
            identity_veci: InstancesQuantity::new(identity_veci),
            identity_mfa: InstancesQuantity::new(identity_mfa),
        }
    }

    /// `quantity` of `template`, none of any other.
    pub fn only(quantity: usize, template: DerivationTemplate) -> (q: Self)
        ensures
            forall|t: DerivationTemplate| #[trigger] q.spec_quantity(t) == if t == template { quantity } else { 0 },
    {
        match template {
            DerivationTemplate::AccountVeci => Self::new(quantity, 0, 0, 0),
            DerivationTemplate::AccountMfa => Self::new(0, quantity, 0, 0),
            DerivationTemplate::IdentityVeci => Self::new(0, 0, quantity, 0),
            DerivationTemplate::IdentityMfa => Self::new(0, 0, 0, quantity),
        }
    }

    /// `quantity` of every template.
    pub fn all(quantity: usize) -> (q: Self)
        ensures
            forall|t: DerivationTemplate| #[trigger] q.spec_quantity(t) == quantity,
    {
        Self::new(quantity, quantity, quantity, quantity)
    }

    pub fn quantity_for_template(&self, derivation_template: DerivationTemplate) -> (q: InstancesQuantity)
        ensures
            q.value == self.spec_quantity(derivation_template),
    {
        match derivation_template {
            DerivationTemplate::AccountVeci => self.account_veci,
            DerivationTemplate::AccountMfa => self.account_mfa,
            DerivationTemplate::IdentityVeci => self.identity_veci,
            DerivationTemplate::IdentityMfa => self.identity_mfa,
        }
    }

    /// Sets the quantity of `derivation_template`; the others stay.
    pub fn set_quantity_for_template(&mut self, derivation_template: DerivationTemplate, quantity: usize)
        ensures
            forall|t: DerivationTemplate| #[trigger] final(self).spec_quantity(t) == if t == derivation_template {
                quantity
            } else {
                old(self).spec_quantity(t)
            },
    {
        let q = InstancesQuantity::new(quantity);
        match derivation_template {
            DerivationTemplate::AccountVeci => self.account_veci = q,
            DerivationTemplate::AccountMfa => self.account_mfa = q,
            DerivationTemplate::IdentityVeci => self.identity_veci = q,
            DerivationTemplate::IdentityMfa => self.identity_mfa = q,
        }
    }
}

impl Default for Quantities {
    /// As many of every template as fill a cache.
    fn default() -> (q: Self)
        ensures
            forall|t: DerivationTemplate| #[trigger] q.spec_quantity(t) == CACHE_SIZE,
    {
        Self::all(CACHE_SIZE)
    }
}

/// Quantities for one factor source.
#[derive(Clone, Copy, Debug, PartialEq, Eq, Structural)]
pub struct QuantitiesForFactor {
    pub factor_source_id: FactorSourceIDFromHash,
    pub quantities: Quantities,
}

/// The quantities to derive, to use directly and to cache, per template,
/// for one factor source.
#[derive(Clone, Copy, Debug, PartialEq, Eq, Structural)]
pub struct QuantitiesTripleForFactor {
    pub factor_source_id: FactorSourceIDFromHash,
    pub to_derive: Quantities,
    pub to_use_directly: Quantities,
    pub to_cache: Quantities,
}

/// The number of instances of `t` in an optional cached collection.
pub open spec fn cached_quantity(in_cache: Option<CollectionsOfFactorInstances>, t: DerivationTemplate) -> int {
    match in_cache {
        Some(c) => c.collection(t).len() as int,
        None => 0,
    }
}

impl QuantitiesForFactor {
    pub fn new(factor_source_id: FactorSourceIDFromHash, quantities: Quantities) -> (q: Self)
        ensures
            q.factor_source_id == factor_source_id,
            q.quantities == quantities,
    {
        Self { factor_source_id, quantities }
    }

    /// As many of every template as fill a cache.
    pub fn fill(factor_source_id: FactorSourceIDFromHash) -> (q: Self)
        ensures
            q.factor_source_id == factor_source_id,
            forall|t: DerivationTemplate| #[trigger] q.quantities.spec_quantity(t) == CACHE_SIZE,
    {
        Self::new(factor_source_id, Quantities::default())
    }

    pub fn quantity_for_template(&self, derivation_template: DerivationTemplate) -> (q: InstancesQuantity)
        ensures
            q.value == self.quantities.spec_quantity(derivation_template),
    {
        self.quantities.quantity_for_template(derivation_template)
    }

    /// For each template: with `requested` instances asked for and some in
    /// the cache, derive `CACHE_SIZE + requested - in cache` more, use the
    /// requested ones directly, and leave the cache at `CACHE_SIZE`: in cache
    /// plus derived minus used is `CACHE_SIZE`.
    pub fn calculate_quantities_for_factor(self, requested: Quantities, in_cache: Option<CollectionsOfFactorInstances>) -> (r:
        QuantitiesTripleForFactor)
        requires
            forall|t: DerivationTemplate| #![trigger cached_quantity(in_cache, t)] cached_quantity(in_cache, t) <= CACHE_SIZE
                + requested.spec_quantity(t) && CACHE_SIZE + requested.spec_quantity(t) <= usize::MAX,
        ensures
            r.factor_source_id == self.factor_source_id,
            forall|t: DerivationTemplate| #[trigger] r.to_derive.spec_quantity(t) == CACHE_SIZE + requested.spec_quantity(t)
                - cached_quantity(in_cache, t),
            forall|t: DerivationTemplate| #[trigger] r.to_use_directly.spec_quantity(t) == requested.spec_quantity(t),
            forall|t: DerivationTemplate| #[trigger] r.to_cache.spec_quantity(t) == CACHE_SIZE,
            forall|t: DerivationTemplate| cached_quantity(in_cache, t) + #[trigger] r.to_derive.spec_quantity(t)
                - r.to_use_directly.spec_quantity(t) == CACHE_SIZE,
    {
        let mut to_derive = Quantities::all(0);
        let mut to_use_directly = Quantities::all(0);
        let mut to_cache = Quantities::all(0);
        let templates = DerivationTemplate::all();
        let mut i: usize = 0;
        while i < templates.len()
            invariant
                i <= templates@.len(),
                templates@ == seq![
                    DerivationTemplate::AccountVeci,
                    DerivationTemplate::AccountMfa,
                    DerivationTemplate::IdentityVeci,
                    DerivationTemplate::IdentityMfa,
                ],
                forall|t: DerivationTemplate| #![trigger cached_quantity(in_cache, t)] cached_quantity(in_cache, t) <= CACHE_SIZE
                    + requested.spec_quantity(t) && CACHE_SIZE + requested.spec_quantity(t) <= usize::MAX,
                forall|t: DerivationTemplate| #[trigger] templates@.take(i as int).contains(t) ==> {
                    &&& to_derive.spec_quantity(t) == CACHE_SIZE + requested.spec_quantity(t) - cached_quantity(in_cache, t)
                    &&& to_use_directly.spec_quantity(t) == requested.spec_quantity(t)
                    &&& to_cache.spec_quantity(t) == CACHE_SIZE
                },
            decreases templates@.len() - i,
        {
            let template = templates[i];
            let r = requested.quantity_for_template(template).value;
            let from_cache = match &in_cache {
                Some(c) => c.quantity_for_template(template),
                None => 0,
            };
            let ghost cq = cached_quantity(in_cache, template);
            assert(cq <= CACHE_SIZE + requested.spec_quantity(template));
            assert(CACHE_SIZE + requested.spec_quantity(template) <= usize::MAX);
            assert(from_cache == cached_quantity(in_cache, template));
            let more_to_derive = CACHE_SIZE + r - from_cache;
            to_derive.set_quantity_for_template(template, more_to_derive);
            to_use_directly.set_quantity_for_template(template, r);
            to_cache.set_quantity_for_template(template, CACHE_SIZE);
            proof {
                assert forall|t: DerivationTemplate| #[trigger] templates@.take(i + 1).contains(t) implies templates@.take(
                    i as int,
                ).contains(t) || t == template by {
                    let k = choose|k: int| 0 <= k < i + 1 && #[trigger] templates@.take(i + 1)[k] == t;
                    if k < i {
                        assert(templates@.take(i as int)[k] == t);
                    }
                }
            }
            i = i + 1;
        }
        proof {
            assert forall|t: DerivationTemplate|
                #![trigger to_derive.spec_quantity(t)]
                #![trigger to_use_directly.spec_quantity(t)]
                #![trigger to_cache.spec_quantity(t)]
            {
                &&& to_derive.spec_quantity(t) == CACHE_SIZE + requested.spec_quantity(t) - cached_quantity(in_cache, t)
                &&& to_use_directly.spec_quantity(t) == requested.spec_quantity(t)
                &&& to_cache.spec_quantity(t) == CACHE_SIZE
            } by {
                match t {
                    DerivationTemplate::AccountVeci => assert(templates@.take(4)[0] == t),
                    DerivationTemplate::AccountMfa => assert(templates@.take(4)[1] == t),
                    DerivationTemplate::IdentityVeci => assert(templates@.take(4)[2] == t),
                    DerivationTemplate::IdentityMfa => assert(templates@.take(4)[3] == t),
                }
                assert(templates@.take(4).contains(t));
            }
        }
        QuantitiesTripleForFactor {
            factor_source_id: self.factor_source_id,
            to_cache,
            to_use_directly,
            to_derive,
        }
    }
}

/// Quantities per factor source.
#[derive(Debug, PartialEq, Eq)]
pub struct QuantitiesPerFactor {
    pub per_factor_source: OrderedMap<FactorSourceIDFromHash, QuantitiesForFactor>,
}

impl QuantitiesPerFactor {
    /// The quantities of one factor source.
    pub fn just(item: QuantitiesForFactor) -> (q: Self)
        ensures
            q.per_factor_source@ == seq![(item.factor_source_id, item)],
    {
        let mut m = OrderedMap::new();
        m.insert(item.factor_source_id, item);
        Self { per_factor_source: m }
    }
}

/// The derivation entity index to use per template, for one factor source.
#[derive(Debug, PartialEq, Eq)]
pub struct FillCacheIndicesForFactor {
    /// The factor the indices are for.
    pub factor_source_id: FactorSourceIDFromHash,
    pub indices: OrderedMap<DerivationTemplate, HDPathComponent>,
}

impl FillCacheIndicesForFactor {
    /// One index, for one template.
    pub fn just(factor_source_id: FactorSourceIDFromHash, derivation_template: DerivationTemplate, index: HDPathComponent) -> (s:
        Self)
        ensures
            s.factor_source_id == factor_source_id,
            s.indices@ == seq![(derivation_template, index)],
    {
        let mut m = OrderedMap::new();
        m.insert(derivation_template, index);
        Self { factor_source_id, indices: m }
    }

    /// The indices, completed with the next index from `next_index_assigner`
    /// for every template that has none, in the order of the templates. The
    /// first error of the assigner is returned.
    pub fn merge_filling_cache(self, next_index_assigner: &mut NextDerivationEntityIndexAssigner) -> (r: Result<
        Self,
        CommonError,
    >)
        requires
            forall|t: DerivationTemplate| #[trigger] old(next_index_assigner).spec_offset(
                self.factor_source_id,
                preset_path(old(next_index_assigner).spec_network_id(), template_preset(t)),
            ) < u32::MAX,
            old(next_index_assigner).spec_profile_analyzing().spec_network_id() == old(next_index_assigner).spec_network_id(),
            forall|p: DerivationPreset| #[trigger] old(next_index_assigner).spec_profile_analyzing().spec_analyzable(
                p,
                self.factor_source_id,
            ),
        ensures
            r is Err ==> r == Err::<Self, CommonError>(CommonError::IndexOverflow),
            r matches Ok(s) ==> s.factor_source_id == self.factor_source_id && (forall|t: DerivationTemplate|
                #[trigger] s.indices.spec_has(t)) && (forall|t: DerivationTemplate| #[trigger] self.indices.spec_get(t)
                is Some ==> s.indices.spec_get(t) == self.indices.spec_get(t)),
            r matches Ok(s) ==> forall|t: DerivationTemplate| #[trigger] self.indices.spec_get(t) is None ==> (s.indices.spec_get(t) matches Some(c)
                && c.spec_key_space() == preset_key_space(template_preset(t)) && c.spec_value() == next_assigned_value(
                *old(next_index_assigner),
                self.factor_source_id,
                template_preset(t),
            )),
            final(next_index_assigner).spec_network_id() == old(next_index_assigner).spec_network_id(),
            final(next_index_assigner).spec_profile_analyzing() == old(next_index_assigner).spec_profile_analyzing(),
            final(next_index_assigner).spec_cache_model() == old(next_index_assigner).spec_cache_model(),
            forall|f: FactorSourceIDFromHash, p: IndexAgnosticPath| f != self.factor_source_id ==> #[trigger] final(next_index_assigner).spec_offset(f, p)
                == old(next_index_assigner).spec_offset(f, p),
    {
        let fsid = self.factor_source_id;
        let mut indices = self.indices;
        let network_id = next_index_assigner.network_id();
        let templates = DerivationTemplate::all();
        let ghost a0 = *next_index_assigner;
        let mut i: usize = 0;
        while i < templates.len()
            invariant
                i <= templates@.len(),
                templates@ == seq![
                    DerivationTemplate::AccountVeci,
                    DerivationTemplate::AccountMfa,
                    DerivationTemplate::IdentityVeci,
                    DerivationTemplate::IdentityMfa,
                ],
                network_id == a0.spec_network_id(),
                next_index_assigner.spec_network_id() == a0.spec_network_id(),
                next_index_assigner.spec_profile_analyzing() == a0.spec_profile_analyzing(),
                a0.spec_profile_analyzing().spec_network_id() == a0.spec_network_id(),
                forall|p: DerivationPreset| #[trigger] a0.spec_profile_analyzing().spec_analyzable(p, fsid),
                next_index_assigner.spec_cache_model() == a0.spec_cache_model(),
                fsid == self.factor_source_id,
                forall|k: int| i <= k < 4 ==> #[trigger] next_index_assigner.spec_offset(
                    fsid,
                    preset_path(network_id, template_preset(templates@[k])),
                ) == a0.spec_offset(fsid, preset_path(network_id, template_preset(templates@[k]))),
                forall|t: DerivationTemplate| #[trigger] a0.spec_offset(fsid, preset_path(a0.spec_network_id(), template_preset(t))) < u32::MAX,
                forall|f: FactorSourceIDFromHash, p: IndexAgnosticPath| f != fsid ==> #[trigger] next_index_assigner.spec_offset(f, p)
                    == a0.spec_offset(f, p),
                forall|t: DerivationTemplate| #[trigger] templates@.take(i as int).contains(t) && self.indices.spec_get(t) is None ==> (indices.spec_get(t) matches Some(c)
                    && c.spec_key_space() == preset_key_space(template_preset(t)) && c.spec_value() == next_assigned_value(a0, fsid, template_preset(t))),
                forall|t: DerivationTemplate| #[trigger] templates@.take(i as int).contains(t) ==> indices.spec_has(t),
                forall|t: DerivationTemplate| !(#[trigger] templates@.take(i as int).contains(t)) ==> indices.spec_get(t)
                    == self.indices.spec_get(t),
                a0 == *old(next_index_assigner),
                forall|t: DerivationTemplate| #[trigger] self.indices.spec_get(t) is Some ==> indices.spec_get(t)
                    == self.indices.spec_get(t),
            decreases templates@.len() - i,
        {
            let template = templates[i];
            proof {
                assert forall|t: DerivationTemplate| #[trigger] templates@.take(i + 1).contains(t) == (templates@.take(
                    i as int,
                ).contains(t) || t == template) by {
                    crate::types::factor_instances::lemma_take_one_more_contains(templates@, i as int, t);
                }
                if templates@.take(i as int).contains(template) {
                    let k = choose|k: int| 0 <= k < i && #[trigger] templates@.take(i as int)[k] == template;
                    assert(templates@[k] == templates@[i as int]);
                }
                assert(!templates@.take(i as int).contains(template));
            }
            if !indices.contains_key(&template) {
                let preset = preset_of_template(template);
                let path = preset.index_agnostic_path_on_network(network_id);
                proof {
                    crate::factor_instances_provider::agnostic_paths::lemma_preset_path_roundtrip(network_id, preset, path);
                }
                let ghost before = *next_index_assigner;
                proof {
                    assert(templates@[i as int] == template);
                    assert(before.spec_offset(fsid, path) == a0.spec_offset(fsid, path));
                    assert(a0.spec_offset(fsid, preset_path(a0.spec_network_id(), template_preset(template))) < u32::MAX);
                }
                let next = match next_index_assigner.next(fsid, path) {
                    Ok(n) => n,
                    Err(e) => return Err(e),
                };
                proof {
                    assert forall|k: int| i + 1 <= k < 4 implies #[trigger] next_index_assigner.spec_offset(
                        fsid,
                        preset_path(network_id, template_preset(templates@[k])),
                    ) == a0.spec_offset(fsid, preset_path(network_id, template_preset(templates@[k]))) by {
                        assert(template_preset(templates@[k]) != template_preset(templates@[i as int]));
                        crate::factor_instances_provider::agnostic_paths::lemma_preset_path_roundtrip(network_id, template_preset(templates@[k]), path);
                        assert(preset_path(network_id, template_preset(templates@[k])) != path);
                    }
                    assert(next.spec_value() == next_assigned_value(a0, fsid, template_preset(template)));
                }
                let ghost ind0 = indices;
                indices.insert(template, next);
                proof {
                    assert forall|t: DerivationTemplate| #[trigger] templates@.take(i + 1).contains(t) && self.indices.spec_get(t) is None implies (indices.spec_get(t) matches Some(c)
                        && c.spec_key_space() == preset_key_space(template_preset(t)) && c.spec_value() == next_assigned_value(a0, fsid, template_preset(t))) by {
                        crate::types::factor_instances::lemma_take_one_more_contains(templates@, i as int, t);
                        if t != template {
                            assert(indices.spec_get(t) == ind0.spec_get(t));
                        }
                    }
                }
            }
            i = i + 1;
        }
        proof {
            assert forall|t: DerivationTemplate|
                #![trigger indices.spec_has(t)]
                #![trigger self.indices.spec_get(t)]
                indices.spec_has(t) && (self.indices.spec_get(t) is None ==> (
            indices.spec_get(t) matches Some(c) && c.spec_key_space() == preset_key_space(template_preset(t))
                && c.spec_value() == next_assigned_value(a0, fsid, template_preset(t)))) by {
                match t {
                    DerivationTemplate::AccountVeci => assert(templates@.take(4)[0] == t),
                    DerivationTemplate::AccountMfa => assert(templates@.take(4)[1] == t),
                    DerivationTemplate::IdentityVeci => assert(templates@.take(4)[2] == t),
                    DerivationTemplate::IdentityMfa => assert(templates@.take(4)[3] == t),
                }
                assert(templates@.take(4).contains(t));
            }
        }
        Ok(Self { indices, factor_source_id: fsid })
    }
}

/// The indices to use per template, per factor source.
#[derive(Debug, PartialEq, Eq)]
pub struct FillCacheIndicesPerFactor {
    pub per_factor_source: OrderedMap<FactorSourceIDFromHash, FillCacheIndicesForFactor>,
}

impl FillCacheIndicesPerFactor {
    /// One index, for one template of one factor source.
    pub fn just(factor_source_id: FactorSourceIDFromHash, derivation_template: DerivationTemplate, index: HDPathComponent) -> (s:
        Self)
        ensures
            s.per_factor_source@.len() == 1,
            s.per_factor_source@[0].0 == factor_source_id,
            s.per_factor_source@[0].1.factor_source_id == factor_source_id,
            s.per_factor_source@[0].1.indices@ == seq![(derivation_template, index)],
    {
        let mut m = OrderedMap::new();
        m.insert(factor_source_id, FillCacheIndicesForFactor::just(factor_source_id, derivation_template, index));
        Self { per_factor_source: m }
    }
}

} // verus!
