use vstd::prelude::*;
use crate::factor_instances_provider::next_index_assigner::assigner::instances_of;
use crate::types::factor_instances::{append_new, lemma_append_new, lemma_append_new_disjoint, lemma_append_new_present, FactorInstances};
use crate::types::keys::{FactorSourceIDFromHash, HierarchicalDeterministicFactorInstance};
use crate::types::ordered_map::{
    entries_get, entries_have_key, entries_keys, lemma_entries_get_at, lemma_entries_get_take,
    lemma_entries_keys_contains, OrderedMap,
};

verus! {

/// Every instance of `s` belongs to factor source `fsid`.
pub open spec fn all_of_factor(s: Seq<HierarchicalDeterministicFactorInstance>, fsid: FactorSourceIDFromHash) -> bool {
    forall|x: HierarchicalDeterministicFactorInstance| #[trigger] s.contains(x) ==> x.factor_source_id == fsid
}

/// Every instance under a factor source in `m` belongs to that factor source.
pub open spec fn pf_consistent(m: OrderedMap<FactorSourceIDFromHash, FactorInstances>) -> bool {
    forall|k: FactorSourceIDFromHash| #[trigger] all_of_factor(instances_of(m, k), k)
}

/// Whether every instance of `m` is under its own factor source.
pub fn is_pf_consistent(m: &OrderedMap<FactorSourceIDFromHash, FactorInstances>) -> (b: bool)
    ensures
        b == pf_consistent(*m),
{
    let ghost es = m@;
    let _ = m.has_unique_keys();
    let mut i: usize = 0;
    while i < m.len()
        invariant
            i <= es.len(),
            es == m@,
            crate::types::ordered_map::unique_keys(es),
            forall|j: int| 0 <= j < i ==> all_of_factor((#[trigger] es[j]).1@, es[j].0),
        decreases es.len() - i,
    {
        let e = m.get_index(i);
        let v = e.1.factor_instances();
        let mut j: usize = 0;
        while j < v.len()
            invariant
                j <= v@.len(),
                v@ == e.1@,
                i < es.len(),
                es == m@,
                crate::types::ordered_map::unique_keys(es),
                *e == es[i as int],
                forall|l: int| 0 <= l < j ==> (#[trigger] v@[l]).factor_source_id == e.0,
            decreases v@.len() - j,
        {
            if v[j].factor_source_id != e.0 {
                proof {
                    crate::types::ordered_map::lemma_entries_get_at(es, i as int);
                    assert(instances_of(*m, e.0) == e.1@);
                    assert(instances_of(*m, e.0).contains(v@[j as int]));
                    assert(!all_of_factor(instances_of(*m, e.0), e.0));
                }
                return false;
            }
            j = j + 1;
        }
        assert(all_of_factor(e.1@, e.0)) by {
            assert forall|x: HierarchicalDeterministicFactorInstance| #[trigger] e.1@.contains(x) implies x.factor_source_id == e.0 by {
                let k = choose|k: int| 0 <= k < v@.len() && v@[k] == x;
            }
        }
        i = i + 1;
    }
    assert forall|k: FactorSourceIDFromHash| #[trigger] all_of_factor(instances_of(*m, k), k) by {
        if m.spec_has(k) {
            let j = choose|j: int| 0 <= j < es.len() && es[j].0 == k;
            crate::types::ordered_map::lemma_entries_get_at(es, j);
        }
    }
    true
}

/// The four collections of an outcome for one factor source.
#[derive(Clone, Copy, Debug, PartialEq, Eq, Structural)]
pub enum OutcomeField {
    ToCache,
    ToUseDirectly,
    FoundInCache,
    NewlyDerived,
}

/// What providing factor instances did for one factor source: which
/// instances go to the cache, which are used directly, which were found in
/// the cache and which were newly derived.
#[derive(Debug, PartialEq, Eq)]
pub struct InternalFactorInstancesProviderOutcomeForFactor {
    /// The factor source of all the instances.
    pub factor_source_id: FactorSourceIDFromHash,
    /// Instances saved into the cache; might be empty.
    pub to_cache: FactorInstances,
    /// Instances not saved into the cache; might be empty.
    pub to_use_directly: FactorInstances,
    /// Instances found in the cache before the operation; might overlap
    /// with `to_use_directly`.
    pub found_in_cache: FactorInstances,
    /// Instances newly derived; might overlap with `to_cache` and
    /// `to_use_directly`.
    pub newly_derived: FactorInstances,
}

impl InternalFactorInstancesProviderOutcomeForFactor {
    /// The collection `w` of this outcome.
    pub open spec fn field(&self, w: OutcomeField) -> Seq<HierarchicalDeterministicFactorInstance> {
        match w {
            OutcomeField::ToCache => self.to_cache@,
            OutcomeField::ToUseDirectly => self.to_use_directly@,
            OutcomeField::FoundInCache => self.found_in_cache@,
            OutcomeField::NewlyDerived => self.newly_derived@,
        }
    }

    /// Every instance of the outcome belongs to its factor source.
    pub open spec fn consistent(&self) -> bool {
        forall|w: OutcomeField| #[trigger] all_of_factor(self.field(w), self.factor_source_id)
    }

    /// An outcome whose collections must all hold instances of
    /// `factor_source_id` only.
    pub fn new(
        factor_source_id: FactorSourceIDFromHash,
        to_cache: FactorInstances,
        to_use_directly: FactorInstances,
        found_in_cache: FactorInstances,
        newly_derived: FactorInstances,
    ) -> (o: Self)
        requires
            all_of_factor(to_cache@, factor_source_id),
            all_of_factor(to_use_directly@, factor_source_id),
            all_of_factor(found_in_cache@, factor_source_id),
            all_of_factor(newly_derived@, factor_source_id),
        ensures
            o.factor_source_id == factor_source_id,
            o.to_cache@ == to_cache@,
            o.to_use_directly@ == to_use_directly@,
            o.found_in_cache@ == found_in_cache@,
            o.newly_derived@ == newly_derived@,
            o.consistent(),
    {
        Self { factor_source_id, to_cache, to_use_directly, found_in_cache, newly_derived }
    }

    /// An outcome with nothing in it.
    fn empty(factor_source_id: FactorSourceIDFromHash) -> (o: Self)
        ensures
            o.factor_source_id == factor_source_id,
            forall|w: OutcomeField| #[trigger] o.field(w) == Seq::<HierarchicalDeterministicFactorInstance>::empty(),
            o.consistent(),
    {
        Self {
            factor_source_id,
            to_cache: FactorInstances::empty(),
            to_use_directly: FactorInstances::empty(),
            found_in_cache: FactorInstances::empty(),
            newly_derived: FactorInstances::empty(),
        }
    }

    /// The outcome when the cache had everything: what was found is used
    /// directly; nothing is cached and nothing derived.
    pub fn satisfied_by_cache(factor_source_id: FactorSourceIDFromHash, found_in_cache: FactorInstances) -> (o:
        Self)
        requires
            all_of_factor(found_in_cache@, factor_source_id),
        ensures
            o.factor_source_id == factor_source_id,
            o.to_cache@ == Seq::<HierarchicalDeterministicFactorInstance>::empty(),
            o.to_use_directly@ == found_in_cache@,
            o.found_in_cache@ == found_in_cache@,
            o.newly_derived@ == Seq::<HierarchicalDeterministicFactorInstance>::empty(),
            o.consistent(),
    {
        let to_use_directly = found_in_cache.clone();
        Self::new(
            factor_source_id,
            FactorInstances::empty(),
            to_use_directly,
            found_in_cache,
            FactorInstances::empty(),
        )
    }

    /// Appends `more` to the collection `w`.
    fn extend_field(&mut self, w: OutcomeField, more: &FactorInstances)
        ensures
            final(self).factor_source_id == old(self).factor_source_id,
            forall|w2: OutcomeField| #[trigger] final(self).field(w2) == if w2 == w {
                append_new(old(self).field(w), more@)
            } else {
                old(self).field(w2)
            },
    {
        match w {
            OutcomeField::ToCache => self.to_cache.extend(more),
            OutcomeField::ToUseDirectly => self.to_use_directly.extend(more),
            OutcomeField::FoundInCache => self.found_in_cache.extend(more),
            OutcomeField::NewlyDerived => self.newly_derived.extend(more),
        }
    }
}

/// The collection `w` for `k` in `b`, or none.
pub open spec fn field_or_empty(
    b: OrderedMap<FactorSourceIDFromHash, InternalFactorInstancesProviderOutcomeForFactor>,
    k: FactorSourceIDFromHash,
    w: OutcomeField,
) -> Seq<HierarchicalDeterministicFactorInstance> {
    match b.spec_get(k) {
        Some(o) => o.field(w),
        None => Seq::empty(),
    }
}

/// Every outcome of `b` is for the factor source it is stored under and
/// holds only that factor source's instances.
pub open spec fn outcomes_consistent(
    b: OrderedMap<FactorSourceIDFromHash, InternalFactorInstancesProviderOutcomeForFactor>,
) -> bool {
    forall|k: FactorSourceIDFromHash| #[trigger] b.spec_get(k) matches Some(o) ==> o.factor_source_id == k && o.consistent()
}

/// The instances under `k` in the entries `s`, or none.
pub open spec fn entries_instances(s: Seq<(FactorSourceIDFromHash, FactorInstances)>, k: FactorSourceIDFromHash) -> Seq<
    HierarchicalDeterministicFactorInstance,
> {
    match entries_get(s, k) {
        Some(fi) => fi@,
        None => Seq::empty(),
    }
}

/// Adds the instances of `m` to the collection `w` of the outcome of each of
/// its factor sources, creating outcomes for factor sources not yet present
/// at the end, in the order of `m`.
fn absorb(
    b: &mut OrderedMap<FactorSourceIDFromHash, InternalFactorInstancesProviderOutcomeForFactor>,
    m: &OrderedMap<FactorSourceIDFromHash, FactorInstances>,
    w: OutcomeField,
)
    requires
        outcomes_consistent(*old(b)),
        pf_consistent(*m),
    ensures
        outcomes_consistent(*final(b)),
        entries_keys(final(b)@) == append_new(entries_keys(old(b)@), entries_keys(m@)),
        forall|k: FactorSourceIDFromHash, w2: OutcomeField| #[trigger] field_or_empty(*final(b), k, w2)
            == if w2 == w {
            append_new(field_or_empty(*old(b), k, w), instances_of(*m, k))
        } else {
            field_or_empty(*old(b), k, w2)
        },
{
    let ghost b0 = *b;
    let ghost s = m@;
    let _ = m.has_unique_keys();
    let n = m.len();
    let mut i: usize = 0;
    while i < n
        invariant
            i <= n,
            n == s.len(),
            s == m@,
            crate::types::ordered_map::unique_keys(s),
            pf_consistent(*m),
            outcomes_consistent(*b),
            entries_keys(b@) == append_new(entries_keys(b0@), entries_keys(s.take(i as int))),
            forall|k: FactorSourceIDFromHash, w2: OutcomeField| #[trigger] field_or_empty(*b, k, w2)
                == if w2 == w {
                append_new(field_or_empty(b0, k, w), entries_instances(s.take(i as int), k))
            } else {
                field_or_empty(b0, k, w2)
            },
        decreases n - i,
    {
        let e = m.get_index(i);
        let k = e.0;
        let ghost bi = *b;
        proof {
            assert(e == s[i as int]);
            lemma_entries_get_at(s, i as int);
            assert(instances_of(*m, k) == e.1@);
            assert(all_of_factor(e.1@, k));
            assert forall|k2: FactorSourceIDFromHash| #[trigger] entries_instances(s.take(i + 1), k2)
                == if k2 == k { e.1@ } else { entries_instances(s.take(i as int), k2) } by {
                lemma_entries_get_take(s, i as int, k2);
            }
            lemma_entries_get_take(s, i as int, k);
            lemma_entries_keys_contains(bi@, k);
            lemma_entries_keys_contains(b0@, k);
            lemma_append_new(Seq::<HierarchicalDeterministicFactorInstance>::empty(), e.1@);
        }
        match b.index_of(&k) {
            Some(j) => {
                let mut o = b.replace_at(j, InternalFactorInstancesProviderOutcomeForFactor::empty(k));
                let ghost o0 = o;
                o.extend_field(w, &e.1);
                proof {
                    assert forall|w2: OutcomeField| #[trigger] all_of_factor(o.field(w2), o.factor_source_id) by {
                        lemma_append_new(o0.field(w), e.1@);
                        assert(all_of_factor(o0.field(w2), k));
                    }
                }
                b.replace_at(j, o);
                proof {
                    assert(entries_keys(b@) =~= entries_keys(bi@));
                    assert(bi.spec_get(k) == Some(o0));
                    assert forall|w2: OutcomeField| #[trigger] field_or_empty(*b, k, w2) == if w2 == w {
                        append_new(field_or_empty(bi, k, w), e.1@)
                    } else {
                        field_or_empty(bi, k, w2)
                    } by {}
                }
            },
            None => {
                let mut o = InternalFactorInstancesProviderOutcomeForFactor::empty(k);
                o.extend_field(w, &e.1);
                proof {
                    assert forall|w2: OutcomeField| #[trigger] all_of_factor(o.field(w2), o.factor_source_id) by {
                        lemma_append_new(Seq::<HierarchicalDeterministicFactorInstance>::empty(), e.1@);
                    }
                }
                b.insert(k, o);
                proof {
                    assert(entries_keys(b@) =~= entries_keys(bi@).push(k));
                    assert(bi.spec_get(k) is None);
                    assert forall|w2: OutcomeField| #[trigger] field_or_empty(*b, k, w2) == if w2 == w {
                        append_new(field_or_empty(bi, k, w), e.1@)
                    } else {
                        field_or_empty(bi, k, w2)
                    } by {}
                }
            },
        }
        proof {
            let t = s.take(i + 1);
            let u = s.take(i as int);
            assert(entries_keys(t) == entries_keys(u).push(k));
            assert(entries_keys(t).drop_last() =~= entries_keys(u));
            assert(entries_keys(t).last() == k);
            assert(append_new(entries_keys(b0@), entries_keys(t)) == (if append_new(entries_keys(b0@), entries_keys(u)).contains(k) {
                append_new(entries_keys(b0@), entries_keys(u))
            } else {
                append_new(entries_keys(b0@), entries_keys(u)).push(k)
            }));
            assert forall|k2: FactorSourceIDFromHash, w2: OutcomeField| #[trigger] field_or_empty(*b, k2, w2)
                == if w2 == w {
                append_new(field_or_empty(b0, k2, w), entries_instances(t, k2))
            } else {
                field_or_empty(b0, k2, w2)
            } by {
                assert(field_or_empty(bi, k2, w2) == if w2 == w {
                    append_new(field_or_empty(b0, k2, w), entries_instances(u, k2))
                } else {
                    field_or_empty(b0, k2, w2)
                });
                assert(entries_instances(t, k2) == if k2 == k { e.1@ } else { entries_instances(u, k2) });
                if k2 != k {
                    assert(b.spec_get(k2) == bi.spec_get(k2));
                    assert(field_or_empty(*b, k2, w2) == field_or_empty(bi, k2, w2));
                } else {
                    assert(entries_instances(u, k) == Seq::<HierarchicalDeterministicFactorInstance>::empty());
                    assert(append_new(field_or_empty(b0, k, w), Seq::<HierarchicalDeterministicFactorInstance>::empty())
                        == field_or_empty(b0, k, w));
                    assert(field_or_empty(*b, k, w2) == if w2 == w {
                        append_new(field_or_empty(bi, k, w), e.1@)
                    } else {
                        field_or_empty(bi, k, w2)
                    });
                }
            }
        }
        i = i + 1;
    }
    proof {
        assert(s.take(n as int) =~= s);
        assert forall|k: FactorSourceIDFromHash| #[trigger] entries_instances(s, k) == instances_of(*m, k) by {}
    }
}

/// What providing factor instances did, per factor source.
#[derive(Debug, PartialEq, Eq)]
pub struct InternalFactorInstancesProviderOutcome {
    pub per_factor: OrderedMap<FactorSourceIDFromHash, InternalFactorInstancesProviderOutcomeForFactor>,
}

impl InternalFactorInstancesProviderOutcome {
    pub fn new(
        per_factor: OrderedMap<FactorSourceIDFromHash, InternalFactorInstancesProviderOutcomeForFactor>,
    ) -> (o: Self)
        ensures
            o.per_factor == per_factor,
    {
        Self { per_factor }
    }

    /// The outcome when everything came from the cache: per factor source of
    /// `pf_found_in_cache`, in its order, what was found is used directly.
    pub fn satisfied_by_cache(pf_found_in_cache: OrderedMap<FactorSourceIDFromHash, FactorInstances>) -> (o:
        Self)
        requires
            pf_consistent(pf_found_in_cache),
        ensures
            outcomes_consistent(o.per_factor),
            entries_keys(o.per_factor@) == entries_keys(pf_found_in_cache@),
            forall|k: FactorSourceIDFromHash, w: OutcomeField| #[trigger] field_or_empty(o.per_factor, k, w)
                == match w {
                OutcomeField::ToUseDirectly | OutcomeField::FoundInCache => append_new(
                    Seq::<HierarchicalDeterministicFactorInstance>::empty(),
                    instances_of(pf_found_in_cache, k),
                ),
                _ => Seq::<HierarchicalDeterministicFactorInstance>::empty(),
            },
    {
        let empty = OrderedMap::<FactorSourceIDFromHash, FactorInstances>::new();
        let _ = pf_found_in_cache.has_unique_keys();
        let ghost ks = entries_keys(pf_found_in_cache@);
        let copy = pf_found_in_cache.copied_instances();
        let none = OrderedMap::<FactorSourceIDFromHash, FactorInstances>::new();
        proof {
            assert(entries_keys(none@) =~= Seq::<FactorSourceIDFromHash>::empty());
            assert(entries_keys(empty@) =~= Seq::<FactorSourceIDFromHash>::empty());
        }
        let o = Self::transpose(none, copy, pf_found_in_cache, empty);
        proof {
            assert(ks.no_duplicates()) by {
                assert forall|i: int, j: int| 0 <= i < ks.len() && 0 <= j < ks.len() && i != j implies ks[i] != ks[j] by {
                    assert(pf_found_in_cache@[i].0 == ks[i]);
                    assert(pf_found_in_cache@[j].0 == ks[j]);
                }
            }
            lemma_append_new_disjoint(Seq::<FactorSourceIDFromHash>::empty(), ks);
            assert(Seq::<FactorSourceIDFromHash>::empty() + ks =~= ks);
            lemma_append_new_present(ks, ks);
        }
        o
    }

    /// Transposes four maps of instances per factor source (to cache, to use
    /// directly, found in cache, newly derived) into one outcome per factor
    /// source. Factor sources come in the order of first appearance, looking
    /// at the found, derived, to cache and to use directly maps in turn.
    pub fn transpose(
        pf_to_cache: OrderedMap<FactorSourceIDFromHash, FactorInstances>,
        pf_to_use_directly: OrderedMap<FactorSourceIDFromHash, FactorInstances>,
        pf_found_in_cache: OrderedMap<FactorSourceIDFromHash, FactorInstances>,
        pf_newly_derived: OrderedMap<FactorSourceIDFromHash, FactorInstances>,
    ) -> (o: Self)
        requires
            pf_consistent(pf_to_cache),
            pf_consistent(pf_to_use_directly),
            pf_consistent(pf_found_in_cache),
            pf_consistent(pf_newly_derived),
        ensures
            outcomes_consistent(o.per_factor),
            entries_keys(o.per_factor@) == append_new(
                append_new(
                    append_new(
                        append_new(Seq::<FactorSourceIDFromHash>::empty(), entries_keys(pf_found_in_cache@)),
                        entries_keys(pf_newly_derived@),
                    ),
                    entries_keys(pf_to_cache@),
                ),
                entries_keys(pf_to_use_directly@),
            ),
            forall|k: FactorSourceIDFromHash, w: OutcomeField| #[trigger] field_or_empty(o.per_factor, k, w)
                == append_new(
                Seq::<HierarchicalDeterministicFactorInstance>::empty(),
                match w {
                    OutcomeField::ToCache => instances_of(pf_to_cache, k),
                    OutcomeField::ToUseDirectly => instances_of(pf_to_use_directly, k),
                    OutcomeField::FoundInCache => instances_of(pf_found_in_cache, k),
                    OutcomeField::NewlyDerived => instances_of(pf_newly_derived, k),
                },
            ),
    {
        let mut builders = OrderedMap::<FactorSourceIDFromHash, InternalFactorInstancesProviderOutcomeForFactor>::new();
        let ghost b0 = builders;
        proof {
            assert(entries_keys(b0@) =~= Seq::<FactorSourceIDFromHash>::empty());
        }
        absorb(&mut builders, &pf_found_in_cache, OutcomeField::FoundInCache);
        let ghost b1 = builders;
        absorb(&mut builders, &pf_newly_derived, OutcomeField::NewlyDerived);
        let ghost b2 = builders;
        absorb(&mut builders, &pf_to_cache, OutcomeField::ToCache);
        let ghost b3 = builders;
        absorb(&mut builders, &pf_to_use_directly, OutcomeField::ToUseDirectly);
        proof {
            assert forall|k: FactorSourceIDFromHash, w: OutcomeField| #[trigger] field_or_empty(builders, k, w)
                == append_new(
                Seq::<HierarchicalDeterministicFactorInstance>::empty(),
                match w {
                    OutcomeField::ToCache => instances_of(pf_to_cache, k),
                    OutcomeField::ToUseDirectly => instances_of(pf_to_use_directly, k),
                    OutcomeField::FoundInCache => instances_of(pf_found_in_cache, k),
                    OutcomeField::NewlyDerived => instances_of(pf_newly_derived, k),
                },
            ) by {
                assert(field_or_empty(b0, k, w) == Seq::<HierarchicalDeterministicFactorInstance>::empty());
                assert(field_or_empty(b1, k, w) == field_or_empty(b0, k, w) || w == OutcomeField::FoundInCache);
            }
        }
        Self::new(builders)
    }
}

impl OrderedMap<FactorSourceIDFromHash, FactorInstances> {
    /// A copy of the map, in the same order.
    pub fn copied_instances(&self) -> (r: Self)
        ensures
            r@.len() == self@.len(),
            entries_keys(r@) == entries_keys(self@),
            forall|k: FactorSourceIDFromHash| #[trigger] instances_of(r, k) == instances_of(*self, k),
    {
        let _ = self.has_unique_keys();
        let ghost s = self@;
        let mut v: Vec<(FactorSourceIDFromHash, FactorInstances)> = Vec::new();
        let n = self.len();
        let mut i: usize = 0;
        while i < n
            invariant
                i <= n,
                n == s.len(),
                s == self@,
                crate::types::ordered_map::unique_keys(s),
                v@.len() == i,
                forall|j: int| 0 <= j < i ==> (#[trigger] v@[j]).0 == s[j].0 && v@[j].1@ == s[j].1@,
            decreases n - i,
        {
            let e = self.get_index(i);
            v.push((e.0, e.1.clone()));
            i = i + 1;
        }
        proof {
            assert(entries_keys(v@) =~= entries_keys(s));
            assert(crate::types::ordered_map::unique_keys(v@));
        }
        let r = OrderedMap::from_entries(v);
        proof {
            assert forall|k: FactorSourceIDFromHash| #[trigger] instances_of(r, k) == instances_of(*self, k) by {
                if entries_have_key(s, k) {
                    let j = choose|j: int| 0 <= j < s.len() && s[j].0 == k;
                    lemma_entries_get_at(s, j);
                    lemma_entries_get_at(r@, j);
                } else {
                    assert(!entries_have_key(r@, k)) by {
                        if entries_have_key(r@, k) {
                            let j = choose|j: int| 0 <= j < r@.len() && r@[j].0 == k;
                            assert(s[j].0 == k);
                        }
                    }
                }
            }
        }
        r
    }
}

/// What providing factor instances did for one factor source, once the
/// instances to cache have been cached: only `to_use_directly` is for use,
/// the other collections are kept for inspection.
#[derive(Debug, PartialEq, Eq)]
pub struct FactorInstancesProviderOutcomeForFactor {
    /// The factor source of all the instances.
    pub factor_source_id: FactorSourceIDFromHash,
    /// Instances not saved into the cache; might be empty.
    pub to_use_directly: FactorInstances,
    /// Instances that were saved into the cache.
    pub debug_was_cached: FactorInstances,
    /// Instances found in the cache before the operation.
    pub debug_found_in_cache: FactorInstances,
    /// Instances newly derived.
    pub debug_was_derived: FactorInstances,
}

impl FactorInstancesProviderOutcomeForFactor {
    /// The final form of an internal outcome: its `to_cache` instances are
    /// the ones that were cached.
    pub fn from(value: InternalFactorInstancesProviderOutcomeForFactor) -> (o: Self)
        ensures
            o.factor_source_id == value.factor_source_id,
            o.to_use_directly == value.to_use_directly,
            o.debug_was_cached == value.to_cache,
            o.debug_found_in_cache == value.found_in_cache,
            o.debug_was_derived == value.newly_derived,
    {
        Self {
            factor_source_id: value.factor_source_id,
            to_use_directly: value.to_use_directly,
            debug_was_cached: value.to_cache,
            debug_found_in_cache: value.found_in_cache,
            debug_was_derived: value.newly_derived,
        }
    }
}

/// The instances of every outcome of `s`, in order: the newly derived ones
/// when `derived`, else the ones found in the cache.
pub open spec fn all_outcome_instances(s: Seq<(FactorSourceIDFromHash, FactorInstancesProviderOutcomeForFactor)>, derived: bool) -> Seq<
    HierarchicalDeterministicFactorInstance,
>
    decreases s.len(),
{
    if s.len() == 0 {
        Seq::empty()
    } else {
        all_outcome_instances(s.drop_last(), derived) + if derived {
            s.last().1.debug_was_derived@
        } else {
            s.last().1.debug_found_in_cache@
        }
    }
}

/// What providing factor instances did, per factor source, once cached.
#[derive(Debug, PartialEq, Eq)]
pub struct FactorInstancesProviderOutcome {
    pub per_factor: OrderedMap<FactorSourceIDFromHash, FactorInstancesProviderOutcomeForFactor>,
}

impl FactorInstancesProviderOutcome {
    /// The outcome made of `per_factor`.
    pub fn new(per_factor: OrderedMap<FactorSourceIDFromHash, FactorInstancesProviderOutcomeForFactor>) -> (o: Self)
        ensures
            o.per_factor == per_factor,
    {
        Self { per_factor }
    }

    /// The final form of an internal outcome, factor source by factor
    /// source, in the same order.
    pub fn from(value: InternalFactorInstancesProviderOutcome) -> (o: Self)
        ensures
            entries_keys(o.per_factor@) == entries_keys(value.per_factor@),
            forall|i: int| 0 <= i < o.per_factor@.len() ==> {
                let f = #[trigger] o.per_factor@[i].1;
                let g = value.per_factor@[i].1;
                &&& f.factor_source_id == g.factor_source_id
                &&& f.to_use_directly == g.to_use_directly
                &&& f.debug_was_cached == g.to_cache
                &&& f.debug_found_in_cache == g.found_in_cache
                &&& f.debug_was_derived == g.newly_derived
            },
    {
        let _ = value.per_factor.has_unique_keys();
        let ghost s = value.per_factor@;
        let entries = value.per_factor.into_entries();
        let mut v: Vec<(FactorSourceIDFromHash, FactorInstancesProviderOutcomeForFactor)> = Vec::new();
        let mut rest = entries;
        let ghost n = s.len();
        while rest.len() > 0
            invariant
                v@.len() + rest@.len() == n,
                n == s.len(),
                rest@ == s.skip(v@.len() as int),
                forall|j: int| 0 <= j < v@.len() ==> {
                    let f = #[trigger] v@[j];
                    &&& f.0 == s[j].0
                    &&& f.1.factor_source_id == s[j].1.factor_source_id
                    &&& f.1.to_use_directly == s[j].1.to_use_directly
                    &&& f.1.debug_was_cached == s[j].1.to_cache
                    &&& f.1.debug_found_in_cache == s[j].1.found_in_cache
                    &&& f.1.debug_was_derived == s[j].1.newly_derived
                },
            decreases rest@.len(),
        {
            let e = rest.remove(0);
            v.push((e.0, FactorInstancesProviderOutcomeForFactor::from(e.1)));
            assert(rest@ =~= s.skip(v@.len() as int));
        }
        proof {
            assert(entries_keys(v@) =~= entries_keys(s));
            assert(crate::types::ordered_map::unique_keys(s));
            assert(crate::types::ordered_map::unique_keys(v@)) by {
                assert forall|a: int, b: int| 0 <= a < v@.len() && 0 <= b < v@.len() && a != b implies v@[a].0 != v@[b].0 by {
                    assert(v@[a].0 == s[a].0);
                    assert(v@[b].0 == s[b].0);
                }
            }
        }
        Self { per_factor: OrderedMap::from_entries(v) }
    }

    /// The final outcome of transposing the four maps of instances per factor
    /// source, as `InternalFactorInstancesProviderOutcome::transpose` does.
    pub fn transpose(
        pf_to_cache: OrderedMap<FactorSourceIDFromHash, FactorInstances>,
        pf_to_use_directly: OrderedMap<FactorSourceIDFromHash, FactorInstances>,
        pf_found_in_cache: OrderedMap<FactorSourceIDFromHash, FactorInstances>,
        pf_newly_derived: OrderedMap<FactorSourceIDFromHash, FactorInstances>,
    ) -> (o: Self)
        requires
            pf_consistent(pf_to_cache),
            pf_consistent(pf_to_use_directly),
            pf_consistent(pf_found_in_cache),
            pf_consistent(pf_newly_derived),
        ensures
            entries_keys(o.per_factor@) == append_new(
                append_new(
                    append_new(
                        append_new(Seq::<FactorSourceIDFromHash>::empty(), entries_keys(pf_found_in_cache@)),
                        entries_keys(pf_newly_derived@),
                    ),
                    entries_keys(pf_to_cache@),
                ),
                entries_keys(pf_to_use_directly@),
            ),
            forall|k: FactorSourceIDFromHash| #[trigger] o.per_factor.spec_get(k) matches Some(f) ==> {
                &&& f.factor_source_id == k
                &&& f.debug_was_cached@ == append_new(Seq::<HierarchicalDeterministicFactorInstance>::empty(), instances_of(pf_to_cache, k))
                &&& f.to_use_directly@ == append_new(Seq::<HierarchicalDeterministicFactorInstance>::empty(), instances_of(pf_to_use_directly, k))
                &&& f.debug_found_in_cache@ == append_new(Seq::<HierarchicalDeterministicFactorInstance>::empty(), instances_of(pf_found_in_cache, k))
                &&& f.debug_was_derived@ == append_new(Seq::<HierarchicalDeterministicFactorInstance>::empty(), instances_of(pf_newly_derived, k))
            },
    {
        let internal = InternalFactorInstancesProviderOutcome::transpose(pf_to_cache, pf_to_use_directly, pf_found_in_cache, pf_newly_derived);
        let ghost ip = internal.per_factor;
        let _ = internal.per_factor.has_unique_keys();
        let o = Self::from(internal);
        let _ = o.per_factor.has_unique_keys();
        proof {
            assert forall|k: FactorSourceIDFromHash| #[trigger] o.per_factor.spec_get(k) is Some implies ({
                let f = o.per_factor.spec_get(k).unwrap();
                &&& f.factor_source_id == k
                &&& f.debug_was_cached@ == append_new(Seq::<HierarchicalDeterministicFactorInstance>::empty(), instances_of(pf_to_cache, k))
                &&& f.to_use_directly@ == append_new(Seq::<HierarchicalDeterministicFactorInstance>::empty(), instances_of(pf_to_use_directly, k))
                &&& f.debug_found_in_cache@ == append_new(Seq::<HierarchicalDeterministicFactorInstance>::empty(), instances_of(pf_found_in_cache, k))
                &&& f.debug_was_derived@ == append_new(Seq::<HierarchicalDeterministicFactorInstance>::empty(), instances_of(pf_newly_derived, k))
            }) by {
                let j = choose|j: int| 0 <= j < o.per_factor@.len() && o.per_factor@[j].0 == k;
                lemma_entries_get_at(o.per_factor@, j);
                assert(entries_keys(o.per_factor@).len() == o.per_factor@.len());
                assert(entries_keys(ip@).len() == ip@.len());
                assert(entries_keys(o.per_factor@)[j] == o.per_factor@[j].0);
                assert(entries_keys(ip@)[j] == ip@[j].0);
                assert(ip@[j].0 == k);
                lemma_entries_get_at(ip@, j);
                assert(field_or_empty(ip, k, OutcomeField::ToCache) == ip@[j].1.to_cache@);
                assert(field_or_empty(ip, k, OutcomeField::ToUseDirectly) == ip@[j].1.to_use_directly@);
                assert(field_or_empty(ip, k, OutcomeField::FoundInCache) == ip@[j].1.found_in_cache@);
                assert(field_or_empty(ip, k, OutcomeField::NewlyDerived) == ip@[j].1.newly_derived@);
            }
        }
        o
    }

    fn all_instances(&self, derived: bool) -> (r: FactorInstances)
        ensures
            r@ == append_new(Seq::<HierarchicalDeterministicFactorInstance>::empty(), all_outcome_instances(self.per_factor@, derived)),
    {
        let ghost s = self.per_factor@;
        let mut all: Vec<HierarchicalDeterministicFactorInstance> = Vec::new();
        let n = self.per_factor.len();
        let mut i: usize = 0;
        while i < n
            invariant
                i <= n,
                n == s.len(),
                s == self.per_factor@,
                all@ == all_outcome_instances(s.take(i as int), derived),
            decreases n - i,
        {
            let e = self.per_factor.get_index(i);
            let more = if derived {
                e.1.debug_was_derived.factor_instances()
            } else {
                e.1.debug_found_in_cache.factor_instances()
            };
            let mut j: usize = 0;
            let ghost before = all@;
            while j < more.len()
                invariant
                    j <= more@.len(),
                    all@ == before + more@.take(j as int),
                decreases more@.len() - j,
            {
                all.push(more[j]);
                j = j + 1;
                assert(all@ =~= before + more@.take(j as int));
            }
            proof {
                assert(more@.take(j as int) =~= more@);
                assert(s.take(i + 1).drop_last() =~= s.take(i as int));
                assert(s.take(i + 1).last() == s[i as int]);
            }
            i = i + 1;
        }
        assert(s.take(n as int) =~= s);
        FactorInstances::new(all)
    }

    /// Every newly derived instance, of every factor source, each once.
    pub fn newly_derived_instances_from_all_factor_sources(&self) -> (r: FactorInstances)
        ensures
            r@ == append_new(Seq::<HierarchicalDeterministicFactorInstance>::empty(), all_outcome_instances(self.per_factor@, true)),
    {
        self.all_instances(true)
    }

    pub fn total_number_of_newly_derived_instances(&self) -> (n: usize)
        ensures
            n == append_new(Seq::<HierarchicalDeterministicFactorInstance>::empty(), all_outcome_instances(self.per_factor@, true)).len(),
    {
        self.newly_derived_instances_from_all_factor_sources().len()
    }

    pub fn derived_any_new_instance_for_any_factor_source(&self) -> (b: bool)
        ensures
            b == (all_outcome_instances(self.per_factor@, true).len() > 0),
    {
        let n = self.total_number_of_newly_derived_instances();
        proof {
            lemma_append_new(Seq::<HierarchicalDeterministicFactorInstance>::empty(), all_outcome_instances(self.per_factor@, true));
            lemma_nonempty_iff_appended(all_outcome_instances(self.per_factor@, true));
        }
        n > 0
    }

    /// Every instance found in the cache, of every factor source, each once.
    pub fn instances_found_in_cache_from_all_factor_sources(&self) -> (r: FactorInstances)
        ensures
            r@ == append_new(Seq::<HierarchicalDeterministicFactorInstance>::empty(), all_outcome_instances(self.per_factor@, false)),
    {
        self.all_instances(false)
    }

    pub fn total_number_of_instances_found_in_cache(&self) -> (n: usize)
        ensures
            n == append_new(Seq::<HierarchicalDeterministicFactorInstance>::empty(), all_outcome_instances(self.per_factor@, false)).len(),
    {
        self.instances_found_in_cache_from_all_factor_sources().len()
    }

    pub fn found_any_instances_in_cache_for_any_factor_source(&self) -> (b: bool)
        ensures
            b == (all_outcome_instances(self.per_factor@, false).len() > 0),
    {
        let n = self.total_number_of_instances_found_in_cache();
        proof {
            lemma_nonempty_iff_appended(all_outcome_instances(self.per_factor@, false));
        }
        n > 0
    }
}

/// Keeping the first occurrence of each element leaves something exactly
/// when there was something.
proof fn lemma_nonempty_iff_appended(s: Seq<HierarchicalDeterministicFactorInstance>)
    ensures
        (append_new(Seq::<HierarchicalDeterministicFactorInstance>::empty(), s).len() > 0) == (s.len() > 0),
{
    lemma_append_new(Seq::<HierarchicalDeterministicFactorInstance>::empty(), s);
    if s.len() > 0 {
        assert(s.contains(s[0]));
        assert(append_new(Seq::<HierarchicalDeterministicFactorInstance>::empty(), s).contains(s[0]));
    }
}

} // verus!
