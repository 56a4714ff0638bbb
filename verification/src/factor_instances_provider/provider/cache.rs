//! A cache of factor instances per factor source and index agnostic path,
//! from which instances are taken by quantity.
use vstd::prelude::*;
use crate::factor_instances_provider::agnostic_paths::{spec_agnostic_path, IndexAgnosticPath, CACHE_FILLING_QUANTITY};
use crate::factor_instances_provider::network_agnostic::NetworkIndexAgnosticPath;
use crate::factor_instances_provider::provider::factor_instances_cache::{
    clone_paths, factors_total, lemma_factors_total_prefix, lemma_group_members, lemma_group_step, lemma_slots_total_prefix,
    or_empty, path_lookup, slots_total, spec_group, InstancesPerFactorSource, InstancesPerPath,
};
use crate::types::error::CommonError;
use crate::types::factor_instances::{append_new, lemma_append_new, lemma_append_new_one, FactorInstances};
use crate::types::keys::{FactorSourceIDFromHash, HierarchicalDeterministicFactorInstance};
use crate::types::network::NetworkID;
use crate::types::ordered_map::{entries_get, entries_have_key, OrderedMap};

verus! {

/// What a collection holds once the instances of `t` on path `p` are
/// appended to `before`, each instance once.
pub open spec fn extended_slot(
    before: Option<Seq<HierarchicalDeterministicFactorInstance>>,
    t: Seq<HierarchicalDeterministicFactorInstance>,
    p: IndexAgnosticPath,
) -> Option<Seq<HierarchicalDeterministicFactorInstance>> {
    if spec_group(t, p).len() > 0 {
        Some(append_new(or_empty(before), spec_group(t, p)))
    } else {
        before
    }
}

/// Every collection of `values` is non-empty and holds only instances of its
/// own path.
pub open spec fn path_grouped(values: OrderedMap<FactorSourceIDFromHash, InstancesPerPath>) -> bool {
    forall|fsid: FactorSourceIDFromHash, p: IndexAgnosticPath| #[trigger] lookup_in(values, fsid, p) is Some ==> {
        let s = lookup_in(values, fsid, p).unwrap();
        &&& s.len() > 0
        &&& forall|k: int| 0 <= k < s.len() ==> spec_agnostic_path(#[trigger] s[k]) == p
    }
}

/// The instances under `fsid` and `p` in `values`, if any.
pub open spec fn lookup_in(values: OrderedMap<FactorSourceIDFromHash, InstancesPerPath>, fsid: FactorSourceIDFromHash, p: IndexAgnosticPath) -> Option<
    Seq<HierarchicalDeterministicFactorInstance>,
> {
    match values.spec_get(fsid) {
        Some(inner) => path_lookup(inner, p),
        None => None,
    }
}

/// What taking `quantity` instances out of the collection `s` gives: the
/// instances taken, and what stays in the cache (nothing when all were taken).
pub open spec fn taken_and_kept(s: Seq<HierarchicalDeterministicFactorInstance>, quantity: nat) -> (
    Seq<HierarchicalDeterministicFactorInstance>,
    Option<Seq<HierarchicalDeterministicFactorInstance>>,
) {
    if s.len() > quantity {
        (s.take(quantity as int), Some(s.skip(quantity as int)))
    } else {
        (s, None)
    }
}

/// How a request for a quantity of instances was met by the cache.
pub enum QuantityOutcome {
    /// The cache held nothing for the request.
    Empty,
    /// The cache held fewer instances than requested: all of them were taken.
    Partial {
        /// The (non-empty) instances found, fewer than requested.
        instances: FactorInstances,
        /// How many more the request needs: the quantity requested less the
        /// instances found.
        remaining: usize,
    },
    /// The cache held at least as many instances as requested: that many were
    /// taken, from the start.
    Full {
        /// The instances found, as many as requested.
        instances: FactorInstances,
    },
}

/// A cache of factor instances per factor source and then per index agnostic
/// path, each collection holding instances of its own path with contiguous
/// derivation indices.
pub struct Cache {
    values: OrderedMap<FactorSourceIDFromHash, InstancesPerPath>,
}

/// The instances of `t` can be appended to the collections of `c` for
/// `fsid`: where a path already holds instances, the first new instance of
/// that path has the next derivation index after the last stored one.
pub open spec fn continues_paths(c: Cache, fsid: FactorSourceIDFromHash, t: Seq<HierarchicalDeterministicFactorInstance>) -> bool {
    forall|p: IndexAgnosticPath| #![trigger spec_group(t, p)]
        spec_group(t, p).len() > 0 && c.lookup(fsid, p) is Some && c.lookup(fsid, p).unwrap().len() > 0
            ==> c.lookup(fsid, p).unwrap().last().spec_path().index.spec_base_index() + 1
                == spec_group(t, p)[0].spec_path().index.spec_base_index()
}

/// Appends each instance of `v` to the collection of its own path in `inner`,
/// unless that collection holds it already.
fn extend_slots(inner: &mut InstancesPerPath, v: &Vec<HierarchicalDeterministicFactorInstance>)
    ensures
        forall|p: IndexAgnosticPath| #[trigger] path_lookup(*final(inner), p) == extended_slot(path_lookup(*old(inner), p), v@, p),
        forall|p: IndexAgnosticPath| #[trigger] final(inner).spec_has(p) == (old(inner).spec_has(p) || spec_group(v@, p).len() > 0),
{
    let ghost inner0 = *inner;
    let ghost s = v@;
    let mut i: usize = 0;
    while i < v.len()
        invariant
            i <= v@.len(),
            v@ == s,
            forall|p: IndexAgnosticPath| #[trigger] path_lookup(*inner, p) == extended_slot(path_lookup(inner0, p), s.take(i as int), p),
            forall|p: IndexAgnosticPath| #[trigger] inner.spec_has(p) == (inner0.spec_has(p) || spec_group(s.take(i as int), p).len() > 0),
        decreases v@.len() - i,
    {
        let f = v[i];
        let p = f.agnostic_path();
        let ghost before = *inner;
        let ghost g = spec_group(s.take(i as int), p);
        proof {
            assert forall|q: IndexAgnosticPath| true implies spec_group(s.take(i + 1), q) == (if spec_agnostic_path(s[i as int]) == q { spec_group(s.take(i as int), q).push(s[i as int]) } else { spec_group(s.take(i as int), q) }) by {
                lemma_group_step(s, i as int, q);
            }
            assert(g.push(f).drop_last() =~= g);
            assert(g.push(f).last() == f);
        }
        match inner.index_of(&p) {
            Some(j) => {
                let mut x = inner.replace_at(j, FactorInstances::empty());
                let ghost x0 = x@;
                let one = vec![f];
                assert(one@ =~= seq![f]);
                x.extend_from_vec(&one);
                inner.replace_at(j, x);
                proof {
                    lemma_append_new_one(x0, f);
                    if g.len() == 0 {
                        assert(g.push(f) =~= seq![f]);
                        lemma_append_new_one(or_empty(path_lookup(inner0, p)), f);
                        assert(seq![f].drop_last() =~= Seq::<HierarchicalDeterministicFactorInstance>::empty());
                    }
                }
            },
            None => {
                inner.insert(p, FactorInstances::just(f));
                proof {
                    assert(g.len() == 0);
                    assert(g.push(f) =~= seq![f]);
                    lemma_append_new_one(Seq::<HierarchicalDeterministicFactorInstance>::empty(), f);
                    assert(seq![f].drop_last() =~= Seq::<HierarchicalDeterministicFactorInstance>::empty());
                }
            },
        }
        proof {
            assert forall|q: IndexAgnosticPath| #[trigger] path_lookup(*inner, q) == extended_slot(path_lookup(inner0, q), s.take(i + 1), q) by {
                if q != p {
                    assert(path_lookup(*inner, q) == path_lookup(before, q));
                }
            }
            assert forall|q: IndexAgnosticPath| #[trigger] inner.spec_has(q) == (inner0.spec_has(q) || spec_group(s.take(i + 1), q).len() > 0) by {
                if q != p {
                    assert(inner.spec_has(q) == before.spec_has(q));
                }
            }
        }
        i = i + 1;
    }
    assert(s.take(s.len() as int) =~= s);
}

/// Appending instances to the collections of `inner` keeps each collection
/// non-empty and on its own path.
proof fn lemma_extended_grouped(inner0: InstancesPerPath, inner: InstancesPerPath, t: Seq<HierarchicalDeterministicFactorInstance>)
    requires
        forall|p: IndexAgnosticPath| #[trigger] path_lookup(inner0, p) is Some ==> {
            let s = path_lookup(inner0, p).unwrap();
            &&& s.len() > 0
            &&& forall|k: int| 0 <= k < s.len() ==> spec_agnostic_path(#[trigger] s[k]) == p
        },
        forall|p: IndexAgnosticPath| #[trigger] path_lookup(inner, p) == extended_slot(path_lookup(inner0, p), t, p),
    ensures
        forall|p: IndexAgnosticPath| #[trigger] path_lookup(inner, p) is Some ==> {
            let s = path_lookup(inner, p).unwrap();
            &&& s.len() > 0
            &&& forall|k: int| 0 <= k < s.len() ==> spec_agnostic_path(#[trigger] s[k]) == p
        },
{
    assert forall|p: IndexAgnosticPath| #[trigger] path_lookup(inner, p) is Some implies {
        let s = path_lookup(inner, p).unwrap();
        &&& s.len() > 0
        &&& forall|k: int| 0 <= k < s.len() ==> spec_agnostic_path(#[trigger] s[k]) == p
    } by {
        let g = spec_group(t, p);
        if g.len() > 0 {
            let o = or_empty(path_lookup(inner0, p));
            let s = append_new(o, g);
            lemma_append_new(o, g);
            lemma_group_members(t, p);
            assert(s.len() > 0) by {
                assert(s.contains(g[0]));
            }
            assert forall|k: int| 0 <= k < s.len() implies spec_agnostic_path(#[trigger] s[k]) == p by {
                assert(s.contains(s[k]));
                if o.contains(s[k]) {
                    let kk = choose|kk: int| 0 <= kk < o.len() && o[kk] == s[k];
                    assert(spec_agnostic_path(o[kk]) == p);
                } else {
                    assert(g.contains(s[k]));
                }
            }
        }
    }
}

impl Cache {
    /// The instances under `fsid` and `p`, if any.
    pub closed spec fn lookup(&self, fsid: FactorSourceIDFromHash, p: IndexAgnosticPath) -> Option<Seq<HierarchicalDeterministicFactorInstance>> {
        lookup_in(self.values, fsid, p)
    }

    /// Whether the cache knows `fsid`.
    pub closed spec fn has_factor(&self, fsid: FactorSourceIDFromHash) -> bool {
        self.values.spec_has(fsid)
    }

    /// The number of cached instances.
    pub closed spec fn spec_total(&self) -> nat {
        factors_total(self.values@)
    }

    /// The number of cached instances of `fsid` whose path is on `network_id`.
    pub closed spec fn spec_count_on_network(&self, network_id: NetworkID, fsid: FactorSourceIDFromHash) -> nat {
        match self.values.spec_get(fsid) {
            Some(inner) => slots_total(inner@, Some(network_id)),
            None => 0,
        }
    }

    /// Each collection is non-empty and holds only instances of its own path.
    #[verifier::type_invariant]
    spec fn grouped(self) -> bool {
        path_grouped(self.values)
    }

    /// An empty cache.
    pub fn new() -> (c: Self)
        ensures
            forall|f: FactorSourceIDFromHash, p: IndexAgnosticPath| #[trigger] c.lookup(f, p) is None,
            forall|f: FactorSourceIDFromHash| !(#[trigger] c.has_factor(f)),
            c.spec_total() == 0,
    {
        Cache { values: OrderedMap::new() }
    }

    /// Every collection of the cache is non-empty and holds only instances
    /// of its own path; always true.
    pub fn is_grouped(&self) -> (b: bool)
        ensures
            b,
            forall|f: FactorSourceIDFromHash, p: IndexAgnosticPath| #[trigger] self.lookup(f, p) is Some ==> {
                let s = self.lookup(f, p).unwrap();
                &&& s.len() > 0
                &&& forall|k: int| 0 <= k < s.len() ==> spec_agnostic_path(#[trigger] s[k]) == p
            },
    {
        proof {
            use_type_invariant(self);
        }
        true
    }

    /// Takes the two level map out, leaving the cache empty.
    fn take_values(&mut self) -> (m: OrderedMap<FactorSourceIDFromHash, InstancesPerPath>)
        ensures
            m == old(self).values,
            path_grouped(m),
            forall|f: FactorSourceIDFromHash| !(#[trigger] final(self).values.spec_has(f)),
    {
        proof {
            use_type_invariant(&*self);
        }
        let mut m = OrderedMap::new();
        std::mem::swap(&mut m, &mut self.values);
        m
    }

    /// Appends the instances of `instances` to the collections of
    /// `factor_source_id`, each under its own path, skipping those a
    /// collection already holds. Where a path already holds instances, the
    /// first new one must have the next derivation index.
    pub fn insert_for_factor(&mut self, factor_source_id: FactorSourceIDFromHash, instances: FactorInstances)
        requires
            continues_paths(*old(self), factor_source_id, instances@),
        ensures
            forall|f: FactorSourceIDFromHash, p: IndexAgnosticPath| #[trigger] final(self).lookup(f, p) == (if f == factor_source_id {
                extended_slot(old(self).lookup(f, p), instances@, p)
            } else {
                old(self).lookup(f, p)
            }),
            forall|f: FactorSourceIDFromHash| #[trigger] final(self).has_factor(f) == (old(self).has_factor(f) || f == factor_source_id),
    {
        let ghost c0 = *self;
        let mut values = self.take_values();
        let v = instances.into_vec();
        match values.index_of(&factor_source_id) {
            Some(j) => {
                let ghost values0 = values;
                let mut inner = values.replace_at(j, OrderedMap::new());
                let ghost inner0 = inner;
                proof {
                    assert(values0.spec_get(factor_source_id) == Some(inner0));
                    assert forall|p: IndexAgnosticPath| #[trigger] path_lookup(inner0, p) is Some implies {
                        let s = path_lookup(inner0, p).unwrap();
                        &&& s.len() > 0
                        &&& forall|k: int| 0 <= k < s.len() ==> spec_agnostic_path(#[trigger] s[k]) == p
                    } by {
                        assert(lookup_in(values0, factor_source_id, p) == path_lookup(inner0, p));
                    }
                }
                extend_slots(&mut inner, &v);
                proof {
                    lemma_extended_grouped(inner0, inner, v@);
                }
                values.replace_at(j, inner);
            },
            None => {
                let mut inner: InstancesPerPath = OrderedMap::new();
                let ghost inner0 = inner;
                extend_slots(&mut inner, &v);
                proof {
                    assert forall|p: IndexAgnosticPath| #[trigger] path_lookup(inner0, p) is None by {
                        assert(!inner0.spec_has(p));
                    }
                    lemma_extended_grouped(inner0, inner, v@);
                }
                values.insert(factor_source_id, inner);
            },
        }
        proof {
            assert forall|f: FactorSourceIDFromHash, p: IndexAgnosticPath| #[trigger] lookup_in(values, f, p) is Some implies {
                let s = lookup_in(values, f, p).unwrap();
                &&& s.len() > 0
                &&& forall|k: int| 0 <= k < s.len() ==> spec_agnostic_path(#[trigger] s[k]) == p
            } by {
                if f != factor_source_id {
                    assert(lookup_in(values, f, p) == lookup_in(c0.values, f, p));
                }
            }
        }
        self.values = values;
    }

    /// Appends the instances of every factor source of `per_factor`, as
    /// `insert_for_factor` does; it cannot fail.
    pub fn insert_all(&mut self, per_factor: &InstancesPerFactorSource) -> (r: Result<(), CommonError>)
        requires
            forall|f: FactorSourceIDFromHash| #[trigger] per_factor.spec_get(f) matches Some(fi) ==> continues_paths(*old(self), f, fi@),
        ensures
            r is Ok,
            forall|f: FactorSourceIDFromHash, p: IndexAgnosticPath| #[trigger] final(self).lookup(f, p) == (match per_factor.spec_get(f) {
                Some(fi) => extended_slot(old(self).lookup(f, p), fi@, p),
                None => old(self).lookup(f, p),
            }),
            forall|f: FactorSourceIDFromHash| #[trigger] final(self).has_factor(f) == (old(self).has_factor(f) || per_factor.spec_has(f)),
    {
        let ghost c0 = *self;
        let ghost es = per_factor@;
        let _ = per_factor.has_unique_keys();
        let mut i: usize = 0;
        while i < per_factor.len()
            invariant
                i <= es.len(),
                es == per_factor@,
                crate::types::ordered_map::unique_keys(es),
                forall|f: FactorSourceIDFromHash| #[trigger] per_factor.spec_get(f) matches Some(fi) ==> continues_paths(c0, f, fi@),
                forall|f: FactorSourceIDFromHash, p: IndexAgnosticPath| #[trigger] self.lookup(f, p) == (match entries_get(es.take(i as int), f) {
                    Some(fi) => extended_slot(c0.lookup(f, p), fi@, p),
                    None => c0.lookup(f, p),
                }),
                forall|f: FactorSourceIDFromHash| #[trigger] self.has_factor(f) == (c0.has_factor(f) || entries_have_key(es.take(i as int), f)),
            decreases es.len() - i,
        {
            let e = per_factor.get_index(i);
            let ghost cb = *self;
            proof {
                crate::types::ordered_map::lemma_entries_get_at(es, i as int);
                assert(per_factor.spec_get(e.0) == Some(e.1));
                assert(entries_get(es.take(i as int), e.0) is None) by {
                    crate::types::ordered_map::lemma_entries_get_take(es, i as int, e.0);
                }
                assert forall|p: IndexAgnosticPath| #![trigger spec_group(e.1@, p)] true implies cb.lookup(e.0, p) == c0.lookup(e.0, p) by {
                    assert(cb.lookup(e.0, p) == c0.lookup(e.0, p));
                }
                assert(continues_paths(cb, e.0, e.1@));
            }
            self.insert_for_factor(e.0, e.1.clone());
            proof {
                assert forall|f: FactorSourceIDFromHash, p: IndexAgnosticPath| #[trigger] self.lookup(f, p) == (match entries_get(es.take(i + 1), f) {
                    Some(fi) => extended_slot(c0.lookup(f, p), fi@, p),
                    None => c0.lookup(f, p),
                }) by {
                    crate::types::ordered_map::lemma_entries_get_take(es, i as int, f);
                }
                assert forall|f: FactorSourceIDFromHash| #[trigger] self.has_factor(f) == (c0.has_factor(f) || entries_have_key(es.take(i + 1), f)) by {
                    crate::types::ordered_map::lemma_entries_get_take(es, i as int, f);
                    crate::types::ordered_map::lemma_entries_keys_contains(es.take(i + 1), f);
                    crate::types::ordered_map::lemma_entries_keys_contains(es.take(i as int), f);
                }
            }
            i = i + 1;
        }
        assert(es.take(es.len() as int) =~= es);
        Ok(())
    }

    /// The collections of `factor_source_id` per path, without changing the
    /// cache; `None` if the cache does not know the factor source.
    pub fn peek_all_instances_of_factor_source(&self, factor_source_id: FactorSourceIDFromHash) -> (r: Option<InstancesPerPath>)
        ensures
            r is Some == self.has_factor(factor_source_id),
            r matches Some(inner) ==> forall|p: IndexAgnosticPath| #[trigger] path_lookup(inner, p) == self.lookup(factor_source_id, p),
    {
        match self.values.get(&factor_source_id) {
            Some(inner) => Some(clone_paths(inner)),
            None => None,
        }
    }

    /// The number of cached instances.
    pub fn total_number_of_factor_instances(&self) -> (n: usize)
        requires
            self.spec_total() <= usize::MAX,
        ensures
            n == self.spec_total(),
    {
        let ghost es = self.values@;
        let mut total: usize = 0;
        let mut i: usize = 0;
        while i < self.values.len()
            invariant
                i <= es.len(),
                es == self.values@,
                factors_total(es) <= usize::MAX,
                total == factors_total(es.take(i as int)),
            decreases es.len() - i,
        {
            let e = self.values.get_index(i);
            proof {
                assert(es.take(i + 1).drop_last() =~= es.take(i as int));
                lemma_factors_total_prefix(es, i + 1);
            }
            let ghost inner_es = e.1@;
            let mut sub: usize = 0;
            let mut j: usize = 0;
            while j < e.1.len()
                invariant
                    j <= inner_es.len(),
                    inner_es == e.1@,
                    total + slots_total(inner_es, None) <= usize::MAX,
                    sub == slots_total(inner_es.take(j as int), None),
                decreases inner_es.len() - j,
            {
                let ie = e.1.get_index(j);
                proof {
                    assert(inner_es.take(j + 1).drop_last() =~= inner_es.take(j as int));
                    lemma_slots_total_prefix(inner_es, j + 1, None);
                }
                sub = sub + ie.1.len();
                j = j + 1;
            }
            assert(inner_es.take(inner_es.len() as int) =~= inner_es);
            total = total + sub;
            i = i + 1;
        }
        assert(es.take(es.len() as int) =~= es);
        total
    }

    /// Takes up to `quantity` instances of `factor_source_id` on
    /// `index_agnostic_path` out of the cache, from the start of the
    /// collection. The whole collection leaves the cache unless it held more
    /// than requested, in which case what was not taken stays.
    pub fn remove(&mut self, factor_source_id: &FactorSourceIDFromHash, index_agnostic_path: &IndexAgnosticPath, quantity: usize) -> (o:
        QuantityOutcome)
        ensures
            ({
                let s = or_empty(old(self).lookup(*factor_source_id, *index_agnostic_path));
                let (taken, kept) = taken_and_kept(s, quantity as nat);
                &&& s.len() == 0 ==> o is Empty
                &&& 0 < s.len() < quantity ==> (o matches QuantityOutcome::Partial { instances, remaining } && instances@ == s
                    && remaining == quantity - s.len())
                &&& 0 < s.len() && quantity <= s.len() ==> (o matches QuantityOutcome::Full { instances } && instances@ == taken)
                &&& final(self).lookup(*factor_source_id, *index_agnostic_path) == kept
            }),
            forall|f: FactorSourceIDFromHash, p: IndexAgnosticPath| (f != *factor_source_id || p != *index_agnostic_path) ==> #[trigger] final(self).lookup(f, p)
                == old(self).lookup(f, p),
            forall|f: FactorSourceIDFromHash| #[trigger] final(self).has_factor(f) == old(self).has_factor(f),
    {
        let ghost c0 = *self;
        let mut values = self.take_values();
        let j = match values.index_of(factor_source_id) {
            Some(j) => j,
            None => {
                self.values = values;
                return QuantityOutcome::Empty;
            },
        };
        let mut inner = values.replace_at(j, OrderedMap::new());
        let ghost inner0 = inner;
        assert(values@[j as int].0 == *factor_source_id);
        let k = match inner.index_of(index_agnostic_path) {
            Some(k) => k,
            None => {
                values.replace_at(j, inner);
                proof {
                    assert forall|f: FactorSourceIDFromHash, p: IndexAgnosticPath| #[trigger] lookup_in(values, f, p) == lookup_in(c0.values, f, p) by {}
                }
                self.values = values;
                return QuantityOutcome::Empty;
            },
        };
        let (_, instances) = inner.remove_at(k);
        let ghost s = instances@;
        assert(inner0@[k as int].0 == *index_agnostic_path);
        assert(path_lookup(inner0, *index_agnostic_path) == Some(s));
        let len = instances.len();
        let outcome = if len == 0 {
            QuantityOutcome::Empty
        } else if len == quantity {
            QuantityOutcome::Full { instances }
        } else if len < quantity {
            QuantityOutcome::Partial { instances, remaining: quantity - len }
        } else {
            let (to_use, to_put_back) = instances.split_at(quantity);
            assert(to_put_back@.len() > 0) by {
                assert(to_put_back@ == s.skip(quantity as int));
            }
            proof {
                assert forall|kk: int| 0 <= kk < to_put_back@.len() implies spec_agnostic_path(#[trigger] to_put_back@[kk]) == *index_agnostic_path by {
                    assert(to_put_back@[kk] == s[quantity + kk]);
                }
            }
            inner.insert(*index_agnostic_path, to_put_back);
            QuantityOutcome::Full { instances: to_use }
        };
        values.replace_at(j, inner);
        proof {
            if len == quantity && len > 0 {
                assert(s.take(quantity as int) =~= s);
            }
            assert forall|f: FactorSourceIDFromHash, p: IndexAgnosticPath| #[trigger] lookup_in(values, f, p) is Some implies {
                let t = lookup_in(values, f, p).unwrap();
                &&& t.len() > 0
                &&& forall|kk: int| 0 <= kk < t.len() ==> spec_agnostic_path(#[trigger] t[kk]) == p
            } by {
                if f != *factor_source_id || p != *index_agnostic_path {
                    assert(lookup_in(values, f, p) == lookup_in(c0.values, f, p));
                }
            }
        }
        self.values = values;
        outcome
    }

    /// Whether `factor_source_id` has a full cache on `network_id`: as many
    /// instances on that network as every preset filled up.
    pub fn is_full(&self, network_id: NetworkID, factor_source_id: FactorSourceIDFromHash) -> (b: bool)
        ensures
            b == (self.spec_count_on_network(network_id, factor_source_id) == 4 * CACHE_FILLING_QUANTITY),
    {
        let target = NetworkIndexAgnosticPath::all_presets().len() * CACHE_FILLING_QUANTITY;
        match self.values.get(&factor_source_id) {
            Some(inner) => {
                let ghost es = inner@;
                let mut count: usize = 0;
                let mut overflow = false;
                let mut j: usize = 0;
                while j < inner.len()
                    invariant
                        j <= es.len(),
                        es == inner@,
                        !overflow ==> count == slots_total(es.take(j as int), Some(network_id)),
                        overflow ==> slots_total(es.take(j as int), Some(network_id)) > usize::MAX,
                    decreases es.len() - j,
                {
                    let ie = inner.get_index(j);
                    proof {
                        assert(es.take(j + 1).drop_last() =~= es.take(j as int));
                    }
                    if !overflow && ie.0.network_id == network_id {
                        match count.checked_add(ie.1.len()) {
                            Some(c) => count = c,
                            None => overflow = true,
                        }
                    }
                    j = j + 1;
                }
                assert(es.take(es.len() as int) =~= es);
                !overflow && count == target
            },
            None => target == 0,
        }
    }

    /// Panics unless `factor_source_id` has a full cache on `network_id`.
    pub fn assert_is_full(&self, network_id: NetworkID, factor_source_id: FactorSourceIDFromHash)
        requires
            self.spec_count_on_network(network_id, factor_source_id) == 4 * CACHE_FILLING_QUANTITY,
    {
        let full = self.is_full(network_id, factor_source_id);
        assert(full);
    }
}

impl Default for Cache {
    fn default() -> (c: Self)
        ensures
            forall|f: FactorSourceIDFromHash, p: IndexAgnosticPath| #[trigger] c.lookup(f, p) is None,
            forall|f: FactorSourceIDFromHash| !(#[trigger] c.has_factor(f)),
    {
        Cache::new()
    }
}

/// Taking instances out of a collection loses none and adds none: what is
/// taken followed by what is kept is the collection.
pub proof fn law_remove_partitions(s: Seq<HierarchicalDeterministicFactorInstance>, quantity: nat)
    ensures
        ({
            let (taken, kept) = taken_and_kept(s, quantity);
            &&& taken + or_empty(kept) == s
            &&& taken.len() == if s.len() < quantity { s.len() } else { quantity }
        }),
{
    if s.len() > quantity {
        assert(s.take(quantity as int) + s.skip(quantity as int) =~= s);
    } else {
        assert(s + Seq::<HierarchicalDeterministicFactorInstance>::empty() =~= s);
    }
}

/// Instances inserted for a path that held none are read back, from the
/// start, by taking them out: a removal of `quantity` after the insertion of
/// `t` gives the first `quantity` instances of `t` on that path.
pub proof fn law_remove_reads_insert(t: Seq<HierarchicalDeterministicFactorInstance>, p: IndexAgnosticPath, quantity: nat)
    requires
        t.no_duplicates(),
    ensures
        ({
            let g = spec_group(t, p);
            let s = or_empty(extended_slot(None, t, p));
            &&& s == g
            &&& taken_and_kept(s, quantity).0 == if g.len() > quantity { g.take(quantity as int) } else { g }
        }),
{
    let g = spec_group(t, p);
    if g.len() > 0 {
        lemma_group_no_duplicates(t, p);
        lemma_append_new_unique(g);
    }
}

/// The instances of a path in a sequence without duplicates hold no
/// duplicates either.
proof fn lemma_group_no_duplicates(t: Seq<HierarchicalDeterministicFactorInstance>, p: IndexAgnosticPath)
    requires
        t.no_duplicates(),
    ensures
        spec_group(t, p).no_duplicates(),
    decreases t.len(),
{
    if t.len() > 0 {
        let i = t.len() - 1;
        lemma_group_step(t, i, p);
        assert(t.take(i + 1) =~= t);
        assert(t.take(i).no_duplicates()) by {
            assert forall|a: int, b: int| 0 <= a < b < t.take(i).len() implies t.take(i)[a] != t.take(i)[b] by {
                assert(t.take(i)[a] == t[a] && t.take(i)[b] == t[b]);
            }
        }
        lemma_group_no_duplicates(t.take(i), p);
        lemma_group_members(t.take(i), p);
        let g = spec_group(t.take(i), p);
        if spec_agnostic_path(t[i]) == p {
            assert(!g.contains(t[i])) by {
                if g.contains(t[i]) {
                    assert(t.take(i).contains(t[i]));
                    let k = choose|k: int| 0 <= k < t.take(i).len() && t.take(i)[k] == t[i];
                    assert(t[k] == t[i]);
                }
            }
            assert forall|a: int, b: int| 0 <= a < b < g.push(t[i]).len() implies g.push(t[i])[a] != g.push(t[i])[b] by {
                if b == g.len() {
                    assert(g.contains(g[a]));
                }
            }
        }
    }
}

/// Appending the elements of a sequence without duplicates to nothing gives
/// that sequence.
proof fn lemma_append_new_unique(g: Seq<HierarchicalDeterministicFactorInstance>)
    requires
        g.no_duplicates(),
    ensures
        append_new(Seq::<HierarchicalDeterministicFactorInstance>::empty(), g) == g,
    decreases g.len(),
{
    if g.len() > 0 {
        let d = g.drop_last();
        assert(d.no_duplicates()) by {
            assert forall|a: int, b: int| 0 <= a < b < d.len() implies d[a] != d[b] by {
                assert(d[a] == g[a] && d[b] == g[b]);
            }
        }
        lemma_append_new_unique(d);
        assert(!d.contains(g.last())) by {
            if d.contains(g.last()) {
                let k = choose|k: int| 0 <= k < d.len() && d[k] == g.last();
                assert(g[k] == g[g.len() - 1]);
            }
        }
        assert(d.push(g.last()) =~= g);
    }
}

} // verus!
