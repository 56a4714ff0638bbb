use vstd::prelude::*;
use crate::factor_instances_provider::agnostic_paths::{preset_path, spec_agnostic_path, DerivationPreset, IndexAgnosticPath, CACHE_FILLING_QUANTITY};
use crate::types::network::NetworkID;
use crate::types::derivation::HDPathComponent;
use crate::types::error::CommonError;
use crate::types::factor_instances::{append_new, lemma_append_new_disjoint, FactorInstances};
use crate::types::keys::{FactorSourceIDFromHash, HierarchicalDeterministicFactorInstance};
use crate::types::ordered_map::{entries_get, entries_have_key, OrderedMap};

verus! {

/// Instances per index agnostic path.
pub type InstancesPerPath = OrderedMap<IndexAgnosticPath, FactorInstances>;

/// Instances per factor source.
pub type InstancesPerFactorSource = OrderedMap<FactorSourceIDFromHash, FactorInstances>;

/// The abstract content of a cache: the instances stored per factor source
/// and path, and the factor sources it knows.
pub type CacheModel = (Map<(FactorSourceIDFromHash, IndexAgnosticPath), Seq<HierarchicalDeterministicFactorInstance>>, Set<FactorSourceIDFromHash>);

/// The instances of `s` on path `p`, in order.
pub open spec fn spec_group(s: Seq<HierarchicalDeterministicFactorInstance>, p: IndexAgnosticPath) -> Seq<HierarchicalDeterministicFactorInstance> {
    s.filter(|f: HierarchicalDeterministicFactorInstance| spec_agnostic_path(f) == p)
}

/// The instances stored in `m` under `(fsid, p)`, empty if none.
pub open spec fn model_slot(m: CacheModel, fsid: FactorSourceIDFromHash, p: IndexAgnosticPath) -> Seq<HierarchicalDeterministicFactorInstance> {
    if m.0.contains_key((fsid, p)) { m.0[(fsid, p)] } else { Seq::empty() }
}

/// `f` is already stored under `fsid` and its own path.
pub open spec fn cached_dup(m: CacheModel, fsid: FactorSourceIDFromHash, f: HierarchicalDeterministicFactorInstance) -> bool {
    model_slot(m, fsid, spec_agnostic_path(f)).contains(f)
}

/// No instance before position `i` of `s` has the path of `s[i]`.
pub open spec fn first_of_path(s: Seq<HierarchicalDeterministicFactorInstance>, i: int) -> bool {
    forall|j: int| 0 <= j < i ==> spec_agnostic_path(s[j]) != spec_agnostic_path(#[trigger] s[i])
}

/// Appending `f` right after the stored instances of its path would skip an index.
pub open spec fn skips_index(m: CacheModel, fsid: FactorSourceIDFromHash, f: HierarchicalDeterministicFactorInstance) -> bool {
    let e = model_slot(m, fsid, spec_agnostic_path(f));
    e.len() > 0 && f.spec_path().index.spec_base_index() != e.last().spec_path().index.spec_base_index() + 1
}

/// Inserting `s` would leave a gap between the stored and the new indices of some path.
pub open spec fn model_skipped(m: CacheModel, fsid: FactorSourceIDFromHash, s: Seq<HierarchicalDeterministicFactorInstance>) -> bool {
    exists|i: int| 0 <= i < s.len() && first_of_path(s, i) && #[trigger] skips_index(m, fsid, s[i])
}

/// `m` with each instance of `s` appended under `fsid` and its own path.
pub open spec fn model_append(m: CacheModel, fsid: FactorSourceIDFromHash, s: Seq<HierarchicalDeterministicFactorInstance>) -> CacheModel {
    (
        Map::new(
            |k: (FactorSourceIDFromHash, IndexAgnosticPath)| m.0.contains_key(k) || (k.0 == fsid && spec_group(s, k.1).len() > 0),
            |k: (FactorSourceIDFromHash, IndexAgnosticPath)| if k.0 == fsid { model_slot(m, k.0, k.1) + spec_group(s, k.1) } else { m.0[k] },
        ),
        m.1.insert(fsid),
    )
}

/// The outcome of inserting `s` under `fsid` into `m`: the error, or the new
/// content and whether an index was skipped.
#[verifier::opaque]
pub open spec fn model_insert_for_factor(m: CacheModel, fsid: FactorSourceIDFromHash, s: Seq<HierarchicalDeterministicFactorInstance>) -> Result<(CacheModel, bool), CommonError> {
    if exists|i: int| 0 <= i < s.len() && (#[trigger] s[i]).factor_source_id != fsid {
        Err(CommonError::FactorSourceDiscrepancy)
    } else if exists|i: int| 0 <= i < s.len() && cached_dup(m, fsid, #[trigger] s[i]) {
        let i = choose|i: int| 0 <= i < s.len() && cached_dup(m, fsid, #[trigger] s[i]) && forall|j: int| 0 <= j < i ==> !cached_dup(m, fsid, #[trigger] s[j]);
        Err(CommonError::CacheAlreadyContainsFactorInstance { derivation_path: s[i].spec_path() })
    } else {
        Ok((model_append(m, fsid, s), model_skipped(m, fsid, s)))
    }
}

/// The content after inserting every entry of `es` in order, stopping at
/// the first error, and that error.
pub open spec fn model_insert_all(m: CacheModel, es: Seq<(FactorSourceIDFromHash, FactorInstances)>) -> (CacheModel, Result<(), CommonError>)
    decreases es.len(),
{
    if es.len() == 0 {
        (m, Ok(()))
    } else {
        let (m1, r1) = model_insert_all(m, es.drop_last());
        match r1 {
            Err(e) => (m1, Err(e)),
            Ok(_) => match model_insert_for_factor(m1, es.last().0, es.last().1@) {
                Err(e) => (m1, Err(e)),
                Ok((m2, _)) => (m2, Ok(())),
            },
        }
    }
}


/// Appends each instance of `v` to the collection of its own path in `inner`.
fn append_all_to_paths(inner: &mut InstancesPerPath, v: &Vec<HierarchicalDeterministicFactorInstance>)
    requires
        v@.no_duplicates(),
        forall|j: int| 0 <= j < v@.len() ==> !or_empty(path_lookup(*old(inner), spec_agnostic_path(v@[j]))).contains(#[trigger] v@[j]),
    ensures
        forall|p: IndexAgnosticPath| #[trigger] path_lookup(*final(inner), p) == appended_slot(path_lookup(*old(inner), p), v@, p),
        forall|p: IndexAgnosticPath| #[trigger] final(inner).spec_has(p) == (old(inner).spec_has(p) || spec_group(v@, p).len() > 0),
{
    let ghost inner0 = *inner;
    let ghost s = v@;
    let mut i: usize = 0;
    while i < v.len()
        invariant
            i <= v@.len(),
            v@ == s,
            s.no_duplicates(),
            forall|j: int| 0 <= j < s.len() ==> !or_empty(path_lookup(inner0, spec_agnostic_path(s[j]))).contains(#[trigger] s[j]),
            forall|p: IndexAgnosticPath| #[trigger] path_lookup(*inner, p) == appended_slot(path_lookup(inner0, p), s.take(i as int), p),
            forall|p: IndexAgnosticPath| #[trigger] inner.spec_has(p) == (inner0.spec_has(p) || spec_group(s.take(i as int), p).len() > 0),
        decreases v@.len() - i,
    {
        let f = v[i];
        let p = f.agnostic_path();
        let ghost before = *inner;
        proof {
            assert forall|q: IndexAgnosticPath| true implies spec_group(s.take(i + 1), q) == (if spec_agnostic_path(s[i as int]) == q { spec_group(s.take(i as int), q).push(s[i as int]) } else { spec_group(s.take(i as int), q) }) by {
                lemma_group_step(s, i as int, q);
            }
            lemma_group_members(s.take(i as int), p);
            assert(!s.take(i as int).contains(f)) by {
                if s.take(i as int).contains(f) {
                    let k = choose|k: int| 0 <= k < i && s.take(i as int)[k] == f;
                    assert(s[k] == s[i as int]);
                }
            }
            assert(!or_empty(path_lookup(inner0, p)).contains(f));
        }
        match inner.index_of(&p) {
            Some(j) => {
                let mut x = inner.replace_at(j, FactorInstances::empty());
                assert(path_lookup(before, p) == Some(x@));
                assert(!x@.contains(f)) by {
                    if x@.contains(f) {
                        let k = choose|k: int| 0 <= k < x@.len() && x@[k] == f;
                        let o = or_empty(path_lookup(inner0, p));
                        if spec_group(s.take(i as int), p).len() > 0 {
                            if k < o.len() {
                                assert(o[k] == f);
                            } else {
                                assert(spec_group(s.take(i as int), p)[k - o.len()] == f);
                                assert(spec_group(s.take(i as int), p).contains(f));
                            }
                        } else {
                            assert(o[k] == f);
                        }
                    }
                }
                x.push(f);
                inner.replace_at(j, x);
            },
            None => {
                inner.insert(p, FactorInstances::just(f));
            },
        }
        proof {
            assert forall|q: IndexAgnosticPath| #[trigger] path_lookup(*inner, q) == appended_slot(path_lookup(inner0, q), s.take(i + 1), q) by {
                if q == p {
                    assert(spec_group(s.take(i + 1), q) == spec_group(s.take(i as int), q).push(f));
                    assert(or_empty(path_lookup(inner0, q)) + spec_group(s.take(i as int), q).push(f) =~= (or_empty(path_lookup(inner0, q)) + spec_group(s.take(i as int), q)).push(f));
                } else {
                    assert(path_lookup(*inner, q) == path_lookup(before, q));
                }
            }
        }
        i = i + 1;
    }
    assert(s.take(s.len() as int) =~= s);
}


/// Appending instances of `fsid` to its collections keeps the map grouped.
proof fn lemma_appended_grouped(
    map0: OrderedMap<FactorSourceIDFromHash, InstancesPerPath>,
    map: OrderedMap<FactorSourceIDFromHash, InstancesPerPath>,
    fsid: FactorSourceIDFromHash,
    s: Seq<HierarchicalDeterministicFactorInstance>,
)
    requires
        grouped_map(map0),
        forall|j: int| 0 <= j < s.len() ==> (#[trigger] s[j]).factor_source_id == fsid,
        forall|f2: FactorSourceIDFromHash, p: IndexAgnosticPath| #[trigger] map_lookup(map, f2, p) == (if f2 == fsid { appended_slot(map_lookup(map0, fsid, p), s, p) } else { map_lookup(map0, f2, p) }),
    ensures
        grouped_map(map),
{
    assert forall|f2: FactorSourceIDFromHash, p: IndexAgnosticPath| #[trigger] map_lookup(map, f2, p) is Some implies {
        let t = map_lookup(map, f2, p).unwrap();
        &&& t.len() > 0
        &&& forall|k: int| 0 <= k < t.len() ==> (#[trigger] t[k]).factor_source_id == f2 && spec_agnostic_path(t[k]) == p
    } by {
        if f2 == fsid {
            lemma_group_members(s, p);
            let t = map_lookup(map, f2, p).unwrap();
            let o = or_empty(map_lookup(map0, fsid, p));
            if map_lookup(map0, fsid, p) is Some {
                assert(o.len() > 0);
            }
            assert forall|k: int| 0 <= k < t.len() implies (#[trigger] t[k]).factor_source_id == f2 && spec_agnostic_path(t[k]) == p by {
                if spec_group(s, p).len() > 0 && k >= o.len() {
                    let g = spec_group(s, p);
                    assert(t[k] == g[k - o.len()]);
                    assert(g.contains(g[k - o.len()]));
                    let kk = choose|kk: int| 0 <= kk < s.len() && s[kk] == g[k - o.len()];
                    assert(s[kk].factor_source_id == fsid);
                } else {
                    assert(t[k] == o[k]);
                }
            }
        } else {
            assert(map_lookup(map, f2, p) == map_lookup(map0, f2, p));
        }
    }
}


/// The instances of `s` that are not in `d`.
pub open spec fn without(s: Seq<HierarchicalDeterministicFactorInstance>, d: Seq<HierarchicalDeterministicFactorInstance>) -> Seq<HierarchicalDeterministicFactorInstance> {
    s.filter(|x: HierarchicalDeterministicFactorInstance| !d.contains(x))
}

/// What remains of a stored collection once `d` is deleted from it; an
/// emptied collection is pruned.
pub open spec fn kept_slot(o: Option<Seq<HierarchicalDeterministicFactorInstance>>, d: Seq<HierarchicalDeterministicFactorInstance>) -> Option<Seq<HierarchicalDeterministicFactorInstance>> {
    match o {
        Some(s) => if without(s, d).len() > 0 { Some(without(s, d)) } else { None },
        None => None,
    }
}

/// The instances to delete for `f`.
pub open spec fn del_of(pf: InstancesPerFactorSource, f: FactorSourceIDFromHash) -> Seq<HierarchicalDeterministicFactorInstance> {
    match pf.spec_get(f) {
        Some(d) => d@,
        None => Seq::empty(),
    }
}

/// `m` with the instances of `pf` deleted, emptied collections and factor
/// sources without any collection pruned.
pub open spec fn model_delete(m: CacheModel, pf: InstancesPerFactorSource) -> CacheModel {
    (
        Map::new(
            |k: (FactorSourceIDFromHash, IndexAgnosticPath)| m.0.contains_key(k) && without(m.0[k], del_of(pf, k.0)).len() > 0,
            |k: (FactorSourceIDFromHash, IndexAgnosticPath)| without(m.0[k], del_of(pf, k.0)),
        ),
        Set::new(|f: FactorSourceIDFromHash| exists|p: IndexAgnosticPath| #[trigger] m.0.contains_key((f, p)) && without(m.0[(f, p)], del_of(pf, f)).len() > 0),
    )
}

/// `fi` without the instances of `d`.
fn filter_out(fi: &FactorInstances, d: &FactorInstances) -> (r: FactorInstances)
    ensures
        r@ == without(fi@, d@),
{
    let v = fi.factor_instances();
    let ghost s = v@;
    let ghost pred = |x: HierarchicalDeterministicFactorInstance| !d@.contains(x);
    let mut r = FactorInstances::empty();
    let mut i: usize = 0;
    while i < v.len()
        invariant
            i <= v@.len(),
            v@ == s,
            s.no_duplicates(),
            pred == (|x: HierarchicalDeterministicFactorInstance| !d@.contains(x)),
            r@ == s.take(i as int).filter(pred),
        decreases v@.len() - i,
    {
        proof {
            reveal(Seq::filter);
            assert(s.take(i + 1).drop_last() =~= s.take(i as int));
            assert(s.take(i + 1).last() == s[i as int]);
        }
        if !d.contains(&v[i]) {
            proof {
                broadcast use vstd::seq_lib::group_filter_ensures;
                if r@.contains(s[i as int]) {
                    s.take(i as int).lemma_filter_contains_rev(pred, s[i as int]);
                    let k = choose|k: int| 0 <= k < i && s.take(i as int)[k] == s[i as int];
                    assert(s[k] == s[i as int]);
                }
            }
            r.push(v[i]);
        }
        i = i + 1;
    }
    assert(s.take(s.len() as int) =~= s);
    r
}

/// `inner` with the instances of `d` deleted and emptied collections pruned.
fn delete_in_paths(inner: &InstancesPerPath, d: Option<&FactorInstances>) -> (r: InstancesPerPath)
    ensures
        forall|p: IndexAgnosticPath| #[trigger] path_lookup(r, p) == kept_slot(path_lookup(*inner, p), match d { Some(x) => x@, None => Seq::empty() }),
        forall|p: IndexAgnosticPath| #[trigger] r.spec_has(p) == (path_lookup(r, p) is Some),
{
    let ghost dd = match d { Some(x) => x@, None => Seq::<HierarchicalDeterministicFactorInstance>::empty() };
    let mut r: InstancesPerPath = OrderedMap::new();
    let n = inner.len();
    let _ = inner.has_unique_keys();
    let mut j: usize = 0;
    while j < n
        invariant
            j <= n,
            n == inner@.len(),
            crate::types::ordered_map::unique_keys(inner@),
            dd == (match d { Some(x) => x@, None => Seq::<HierarchicalDeterministicFactorInstance>::empty() }),
            forall|p: IndexAgnosticPath| #[trigger] path_lookup(r, p) == (if entries_have_key(inner@.take(j as int), p) { kept_slot(path_lookup(*inner, p), dd) } else { None }),
            forall|p: IndexAgnosticPath| #[trigger] r.spec_has(p) == (path_lookup(r, p) is Some),
        decreases n - j,
    {
        let e = inner.get_index(j);
        let p = e.0;
        let kept = match d {
            Some(x) => filter_out(&e.1, x),
            None => e.1.clone(),
        };
        proof {
            crate::types::ordered_map::lemma_entries_get_at(inner@, j as int);
            assert(path_lookup(*inner, p) == Some(e.1@));
            if dd.len() == 0 {
                reveal(Seq::filter);
                assert(without(e.1@, dd) =~= e.1@) by {
                    broadcast use vstd::seq_lib::group_filter_ensures;
                    e.1@.lemma_filter_len(|x: HierarchicalDeterministicFactorInstance| !dd.contains(x));
                    lemma_without_empty(e.1@, dd);
                }
            }
            assert(!entries_have_key(inner@.take(j as int), p)) by {
                if entries_have_key(inner@.take(j as int), p) {
                    let k = choose|k: int| 0 <= k < inner@.take(j as int).len() && inner@.take(j as int)[k].0 == p;
                    assert(inner@[k].0 == inner@[j as int].0);
                }
            }
            let t0 = inner@.take(j as int);
            let t1 = inner@.take(j + 1);
            assert forall|q: IndexAgnosticPath| #[trigger] entries_have_key(t1, q) == (entries_have_key(t0, q) || q == p) by {
                if entries_have_key(t1, q) {
                    let k = choose|k: int| 0 <= k < t1.len() && t1[k].0 == q;
                    if k < j {
                        assert(t0[k].0 == q);
                    }
                }
                if entries_have_key(t0, q) {
                    let k = choose|k: int| 0 <= k < t0.len() && t0[k].0 == q;
                    assert(t1[k].0 == q);
                }
                if q == p {
                    assert(t1[j as int].0 == q);
                }
            }
        }
        assert(kept@ == without(e.1@, dd));
        let ghost r0 = r;
        if !kept.is_empty() {
            r.insert(p, kept);
        }
        proof {
            let t0 = inner@.take(j as int);
            let t1 = inner@.take(j + 1);
            assert forall|q: IndexAgnosticPath| #[trigger] path_lookup(r, q) == (if entries_have_key(t1, q) { kept_slot(path_lookup(*inner, q), dd) } else { None }) by {
                if q != p {
                    assert(r.spec_get(q) == r0.spec_get(q));
                    assert(path_lookup(r, q) == path_lookup(r0, q));
                } else {
                    assert(path_lookup(r0, q) is None);
                }
            }
        }
        j = j + 1;
    }
    assert(inner@.take(n as int) =~= inner@);
    r
}


/// `map` with the instances of `pf` deleted, emptied collections and factor
/// sources pruned.
fn delete_in_factors(map: &OrderedMap<FactorSourceIDFromHash, InstancesPerPath>, pf: &InstancesPerFactorSource) -> (r: OrderedMap<FactorSourceIDFromHash, InstancesPerPath>)
    ensures
        forall|f: FactorSourceIDFromHash, p: IndexAgnosticPath| #[trigger] map_lookup(r, f, p) == kept_slot(map_lookup(*map, f, p), del_of(*pf, f)),
        forall|f: FactorSourceIDFromHash| #[trigger] r.spec_has(f) == exists|p: IndexAgnosticPath| #[trigger] map_lookup(r, f, p) is Some,
{
    let mut r: OrderedMap<FactorSourceIDFromHash, InstancesPerPath> = OrderedMap::new();
    let n = map.len();
    let _ = map.has_unique_keys();
    let mut i: usize = 0;
    while i < n
        invariant
            i <= n,
            n == map@.len(),
            crate::types::ordered_map::unique_keys(map@),
            forall|f: FactorSourceIDFromHash, p: IndexAgnosticPath| #[trigger] map_lookup(r, f, p) == (if entries_have_key(map@.take(i as int), f) { kept_slot(map_lookup(*map, f, p), del_of(*pf, f)) } else { None }),
            forall|f: FactorSourceIDFromHash| #[trigger] r.spec_has(f) == exists|p: IndexAgnosticPath| #[trigger] map_lookup(r, f, p) is Some,
        decreases n - i,
    {
        let e = map.get_index(i);
        let f = e.0;
        let d = pf.get(&f);
        let new_inner = delete_in_paths(&e.1, d);
        proof {
            crate::types::ordered_map::lemma_entries_get_at(map@, i as int);
            assert(map.spec_get(f) == Some(e.1));
            assert(del_of(*pf, f) == (match d { Some(x) => x@, None => Seq::<HierarchicalDeterministicFactorInstance>::empty() }));
            let t0 = map@.take(i as int);
            let t1 = map@.take(i + 1);
            assert(!entries_have_key(t0, f)) by {
                if entries_have_key(t0, f) {
                    let k = choose|k: int| 0 <= k < t0.len() && t0[k].0 == f;
                    assert(map@[k].0 == map@[i as int].0);
                }
            }
            assert forall|q: FactorSourceIDFromHash| #[trigger] entries_have_key(t1, q) == (entries_have_key(t0, q) || q == f) by {
                if entries_have_key(t1, q) {
                    let k = choose|k: int| 0 <= k < t1.len() && t1[k].0 == q;
                    if k < i {
                        assert(t0[k].0 == q);
                    }
                }
                if entries_have_key(t0, q) {
                    let k = choose|k: int| 0 <= k < t0.len() && t0[k].0 == q;
                    assert(t1[k].0 == q);
                }
                if q == f {
                    assert(t1[i as int].0 == q);
                }
            }
        }
        let ghost r0 = r;
        let nonempty = !new_inner.is_empty();
        proof {
            if nonempty {
                let p0 = new_inner@[0].0;
                assert(entries_have_key(new_inner@, p0));
                assert(new_inner.spec_has(p0));
                assert(path_lookup(new_inner, p0) is Some);
            } else {
                assert forall|p: IndexAgnosticPath| path_lookup(new_inner, p) is None by {
                    if path_lookup(new_inner, p) is Some {
                        assert(new_inner.spec_has(p));
                    }
                }
            }
        }
        if nonempty {
            r.insert(f, new_inner);
        }
        proof {
            let t1 = map@.take(i + 1);
            assert forall|g: FactorSourceIDFromHash, p: IndexAgnosticPath| #[trigger] map_lookup(r, g, p) == (if entries_have_key(t1, g) { kept_slot(map_lookup(*map, g, p), del_of(*pf, g)) } else { None }) by {
                if g != f {
                    assert(r.spec_get(g) == r0.spec_get(g));
                } else {
                    assert(map_lookup(r0, g, p) is None);
                    assert(!r0.spec_has(g));
                    assert(map_lookup(*map, g, p) == path_lookup(e.1, p));
                    assert(path_lookup(new_inner, p) == kept_slot(map_lookup(*map, g, p), del_of(*pf, g)));
                    if nonempty {
                        assert(r.spec_get(g) == Some(new_inner));
                    } else {
                        assert(r.spec_get(g) == r0.spec_get(g));
                        assert(path_lookup(new_inner, p) is None);
                    }
                }
            }
            assert forall|g: FactorSourceIDFromHash| #[trigger] r.spec_has(g) == exists|p: IndexAgnosticPath| #[trigger] map_lookup(r, g, p) is Some by {
                if g != f {
                    assert(r.spec_has(g) == r0.spec_has(g));
                    assert forall|p: IndexAgnosticPath| map_lookup(r, g, p) == map_lookup(r0, g, p) by {
                        assert(r.spec_get(g) == r0.spec_get(g));
                    }
                } else if nonempty {
                    let p0 = new_inner@[0].0;
                    assert(map_lookup(r, g, p0) is Some);
                } else {
                    assert(!r0.spec_has(g));
                    assert(forall|p: IndexAgnosticPath| map_lookup(r0, g, p) is None);
                    assert forall|p: IndexAgnosticPath| !(map_lookup(r, g, p) is Some) by {
                        assert(map_lookup(r, g, p) == map_lookup(r0, g, p));
                    }
                }
            }
        }
        i = i + 1;
    }
    proof {
        assert(map@.take(n as int) =~= map@);
        assert forall|f: FactorSourceIDFromHash, p: IndexAgnosticPath| #[trigger] map_lookup(r, f, p) == kept_slot(map_lookup(*map, f, p), del_of(*pf, f)) by {
            if !entries_have_key(map@, f) {
                assert(!map.spec_has(f));
            }
        }
    }
    r
}


/// Once inserting a prefix of `es` fails, inserting all of `es` ends in the
/// same content and error.
proof fn lemma_insert_all_stops(m: CacheModel, es: Seq<(FactorSourceIDFromHash, FactorInstances)>, k: int)
    requires
        0 <= k <= es.len(),
        model_insert_all(m, es.take(k)).1 is Err,
    ensures
        model_insert_all(m, es) == model_insert_all(m, es.take(k)),
    decreases es.len(),
{
    if es.len() == k {
        assert(es.take(k) =~= es);
    } else {
        assert(es.drop_last().take(k) =~= es.take(k));
        lemma_insert_all_stops(m, es.drop_last(), k);
    }
}


/// A copy of `inner`, in the same order.
pub(crate) fn clone_paths(inner: &InstancesPerPath) -> (r: InstancesPerPath)
    ensures
        crate::types::ordered_map::entries_keys(r@) == crate::types::ordered_map::entries_keys(inner@),
        forall|p: IndexAgnosticPath| #[trigger] path_lookup(r, p) == path_lookup(*inner, p),
{
    let _ = inner.has_unique_keys();
    let mut r: InstancesPerPath = OrderedMap::new();
    let n = inner.len();
    let mut j: usize = 0;
    while j < n
        invariant
            j <= n,
            n == inner@.len(),
            crate::types::ordered_map::unique_keys(inner@),
            crate::types::ordered_map::entries_keys(r@) == crate::types::ordered_map::entries_keys(inner@.take(j as int)),
            forall|p: IndexAgnosticPath| #[trigger] path_lookup(r, p) == (if entries_have_key(inner@.take(j as int), p) { path_lookup(*inner, p) } else { None }),
        decreases n - j,
    {
        let e = inner.get_index(j);
        let ghost r0 = r;
        proof {
            crate::types::ordered_map::lemma_entries_get_at(inner@, j as int);
            let t0 = inner@.take(j as int);
            let t1 = inner@.take(j + 1);
            assert(!entries_have_key(t0, e.0)) by {
                if entries_have_key(t0, e.0) {
                    let k = choose|k: int| 0 <= k < t0.len() && t0[k].0 == e.0;
                    assert(inner@[k].0 == inner@[j as int].0);
                }
            }
            assert(!r0.spec_has(e.0)) by {
                if r0.spec_has(e.0) {
                    let k = choose|k: int| 0 <= k < r0@.len() && r0@[k].0 == e.0;
                    let ks = crate::types::ordered_map::entries_keys(r0@);
                    assert(ks.len() == r0@.len());
                    assert(crate::types::ordered_map::entries_keys(t0).len() == t0.len());
                    assert(ks[k] == e.0);
                    assert(crate::types::ordered_map::entries_keys(t0)[k] == t0[k].0);
                }
            }
            assert forall|q: IndexAgnosticPath| #[trigger] entries_have_key(t1, q) == (entries_have_key(t0, q) || q == e.0) by {
                if entries_have_key(t1, q) {
                    let k = choose|k: int| 0 <= k < t1.len() && t1[k].0 == q;
                    if k < j {
                        assert(t0[k].0 == q);
                    }
                }
                if entries_have_key(t0, q) {
                    let k = choose|k: int| 0 <= k < t0.len() && t0[k].0 == q;
                    assert(t1[k].0 == q);
                }
                if q == e.0 {
                    assert(t1[j as int].0 == q);
                }
            }
        }
        let c = e.1.clone();
        r.insert(e.0, c);
        proof {
            let t0 = inner@.take(j as int);
            let t1 = inner@.take(j + 1);
            assert(t1 =~= t0.push(inner@[j as int]));
            assert(r@ == r0@.push((e.0, c)));
            assert(crate::types::ordered_map::entries_keys(r@) =~= crate::types::ordered_map::entries_keys(r0@).push(e.0));
            assert(crate::types::ordered_map::entries_keys(t1) =~= crate::types::ordered_map::entries_keys(t0).push(e.0));
            assert(crate::types::ordered_map::entries_keys(r@) =~= crate::types::ordered_map::entries_keys(t1));
            assert(path_lookup(r, e.0) == Some(e.1@));
            assert forall|q: IndexAgnosticPath| #[trigger] path_lookup(r, q) == (if entries_have_key(t1, q) { path_lookup(*inner, q) } else { None }) by {
                assert(entries_have_key(t1, q) == (entries_have_key(t0, q) || q == e.0));
                if q != e.0 {
                    assert(r.spec_get(q) == r0.spec_get(q));
                    assert(path_lookup(r0, q) == (if entries_have_key(t0, q) { path_lookup(*inner, q) } else { None }));
                }
            }
        }
        j = j + 1;
    }
    assert(inner@.take(n as int) =~= inner@);
    assert forall|p: IndexAgnosticPath| #[trigger] path_lookup(r, p) == path_lookup(*inner, p) by {
        if !entries_have_key(inner@, p) {
            assert(!inner.spec_has(p));
        }
    }
    r
}


/// A prefix of the collections counts no more than all of them.
pub(crate) proof fn lemma_slots_total_prefix(s: Seq<(IndexAgnosticPath, FactorInstances)>, k: int, network: Option<NetworkID>)
    requires
        0 <= k <= s.len(),
    ensures
        slots_total(s.take(k), network) <= slots_total(s, network),
    decreases s.len(),
{
    if k < s.len() {
        assert(s.drop_last().take(k) =~= s.take(k));
        lemma_slots_total_prefix(s.drop_last(), k, network);
    } else {
        assert(s.take(k) =~= s);
    }
}

/// A prefix of the factor sources counts no more than all of them.
pub(crate) proof fn lemma_factors_total_prefix(s: Seq<(FactorSourceIDFromHash, InstancesPerPath)>, k: int)
    requires
        0 <= k <= s.len(),
    ensures
        factors_total(s.take(k)) <= factors_total(s),
    decreases s.len(),
{
    if k < s.len() {
        assert(s.drop_last().take(k) =~= s.take(k));
        lemma_factors_total_prefix(s.drop_last(), k);
    } else {
        assert(s.take(k) =~= s);
    }
}


/// No instance of `d` survives in a collection from which `d` is deleted,
/// and what survives was there.
proof fn lemma_without_members(s: Seq<HierarchicalDeterministicFactorInstance>, d: Seq<HierarchicalDeterministicFactorInstance>)
    ensures
        forall|x: HierarchicalDeterministicFactorInstance| #[trigger] without(s, d).contains(x) ==> s.contains(x) && !d.contains(x),
{
    broadcast use vstd::seq_lib::group_filter_ensures;
    let pred = |x: HierarchicalDeterministicFactorInstance| !d.contains(x);
    assert forall|x: HierarchicalDeterministicFactorInstance| #[trigger] without(s, d).contains(x) implies s.contains(x) && !d.contains(x) by {
        s.lemma_filter_contains_rev(pred, x);
        let k = choose|k: int| 0 <= k < s.filter(pred).len() && s.filter(pred)[k] == x;
        s.lemma_filter_pred(pred, k);
    }
}

/// Deleting instances none of which is present keeps the collection.
proof fn lemma_without_disjoint(s: Seq<HierarchicalDeterministicFactorInstance>, d: Seq<HierarchicalDeterministicFactorInstance>)
    requires
        forall|x: HierarchicalDeterministicFactorInstance| s.contains(x) ==> !d.contains(x),
    ensures
        without(s, d) == s,
    decreases s.len(),
{
    reveal(Seq::filter);
    if s.len() > 0 {
        assert forall|x: HierarchicalDeterministicFactorInstance| s.drop_last().contains(x) implies !d.contains(x) by {
            let k = choose|k: int| 0 <= k < s.drop_last().len() && s.drop_last()[k] == x;
            assert(s[k] == x);
        }
        lemma_without_disjoint(s.drop_last(), d);
        assert(s.contains(s.last()));
        assert(s.drop_last().push(s.last()) =~= s);
    }
}

/// Deleting instances that include all of a collection empties it.
proof fn lemma_without_covered(s: Seq<HierarchicalDeterministicFactorInstance>, d: Seq<HierarchicalDeterministicFactorInstance>)
    requires
        forall|x: HierarchicalDeterministicFactorInstance| s.contains(x) ==> d.contains(x),
    ensures
        without(s, d).len() == 0,
{
    lemma_without_members(s, d);
    if without(s, d).len() > 0 {
        assert(without(s, d).contains(without(s, d)[0]));
    }
}

/// Every collection of `m` is non-empty and holds only instances of its
/// factor source and path, as in every cache.
pub open spec fn model_grouped(m: CacheModel) -> bool {
    forall|k: (FactorSourceIDFromHash, IndexAgnosticPath)| #[trigger] m.0.contains_key(k) ==> m.0[k].len() > 0
        && forall|i: int| 0 <= i < m.0[k].len() ==> (#[trigger] m.0[k][i]).factor_source_id == k.0 && spec_agnostic_path(m.0[k][i]) == k.1
}

/// Reading after a successful insert: each path of the inserted instances
/// holds what it held before followed by the inserted instances of that path,
/// in their order; every other collection is unchanged.
pub proof fn law_insert_then_read(m: CacheModel, fsid: FactorSourceIDFromHash, s: Seq<HierarchicalDeterministicFactorInstance>, f: FactorSourceIDFromHash, p: IndexAgnosticPath)
    requires
        model_insert_for_factor(m, fsid, s) is Ok,
    ensures
        ({
            let m2 = model_insert_for_factor(m, fsid, s).unwrap().0;
            &&& f == fsid && spec_group(s, p).len() > 0 ==> m2.0.contains_key((f, p)) && m2.0[(f, p)] == model_slot(m, f, p) + spec_group(s, p)
            &&& !(f == fsid && spec_group(s, p).len() > 0) ==> model_slot(m2, f, p) == model_slot(m, f, p)
            &&& m2.1.contains(fsid)
        }),
{
    reveal(model_insert_for_factor);
}

/// A successful insert is undone by deleting the same instances: every
/// collection is what it was before.
pub proof fn law_delete_undoes_insert(m: CacheModel, fsid: FactorSourceIDFromHash, s: Seq<HierarchicalDeterministicFactorInstance>, pf: InstancesPerFactorSource)
    requires
        model_insert_for_factor(m, fsid, s) is Ok,
        model_grouped(m),
        forall|f: FactorSourceIDFromHash| #[trigger] del_of(pf, f) == (if f == fsid { s } else { Seq::empty() }),
    ensures
        model_delete(model_insert_for_factor(m, fsid, s).unwrap().0, pf).0 == m.0,
{
    reveal(model_insert_for_factor);
    let m2 = model_append(m, fsid, s);
    assert(!exists|i: int| 0 <= i < s.len() && cached_dup(m, fsid, #[trigger] s[i]));
    let md = model_delete(m2, pf);
    assert forall|k: (FactorSourceIDFromHash, IndexAgnosticPath)| true implies (md.0.contains_key(k) == m.0.contains_key(k)) && (md.0.contains_key(k) ==> md.0[k] == m.0[k]) by {
        let d = del_of(pf, k.0);
        if k.0 == fsid {
            let o = model_slot(m, fsid, k.1);
            let g = spec_group(s, k.1);
            lemma_group_members(s, k.1);
            assert forall|x: HierarchicalDeterministicFactorInstance| o.contains(x) implies !d.contains(x) by {
                if d.contains(x) {
                    let i = choose|i: int| 0 <= i < s.len() && s[i] == x;
                    assert(!cached_dup(m, fsid, s[i]));
                    if m.0.contains_key((fsid, k.1)) {
                        let j = choose|j: int| 0 <= j < o.len() && o[j] == x;
                        assert(spec_agnostic_path(o[j]) == k.1);
                        assert(model_slot(m, fsid, spec_agnostic_path(x)) == o);
                    }
                }
            }
            lemma_without_disjoint(o, d);
            lemma_without_covered(g, d);
            Seq::<HierarchicalDeterministicFactorInstance>::filter_distributes_over_add(o, g, |x: HierarchicalDeterministicFactorInstance| !d.contains(x));
            assert(without(o + g, d) =~= o);
        } else if m.0.contains_key(k) {
            lemma_without_empty(m.0[k], d);
        }
    }
    assert(md.0 =~= m.0);
}

/// Deleting nothing keeps everything.
proof fn lemma_without_empty(s: Seq<HierarchicalDeterministicFactorInstance>, d: Seq<HierarchicalDeterministicFactorInstance>)
    requires
        d.len() == 0,
    ensures
        without(s, d) == s,
    decreases s.len(),
{
    reveal(Seq::filter);
    if s.len() > 0 {
        lemma_without_empty(s.drop_last(), d);
        assert(!d.contains(s.last()));
        assert(s.drop_last().push(s.last()) =~= s);
    }
}


/// A derivation preset together with a number of instances requested.
#[derive(Clone, Copy, Debug, PartialEq, Eq, Hash, Structural)]
pub struct QuantifiedDerivationPreset {
    pub derivation_preset: DerivationPreset,
    pub quantity: usize,
}

impl QuantifiedDerivationPreset {
    pub fn new(derivation_preset: DerivationPreset, quantity: usize) -> (q: Self)
        ensures
            q == (QuantifiedDerivationPreset { derivation_preset, quantity }),
    {
        QuantifiedDerivationPreset { derivation_preset, quantity }
    }
}

/// Quantities to derive per derivation preset.
pub type QuantitiesPerPreset = OrderedMap<DerivationPreset, usize>;

/// Quantities to derive per factor source and derivation preset.
pub type QuantitiesPerFactorSource = OrderedMap<FactorSourceIDFromHash, QuantitiesPerPreset>;

/// What the cache can give for a request of some quantity of one preset
/// from several factor sources.
pub enum CachedInstancesWithQuantitiesOutcome {
    /// Every factor source had enough instances; these are them.
    Satisfied(InstancesPerFactorSource),
    /// Some factor source had too few: what was found, and how many
    /// instances of each preset to derive per factor source.
    NotSatisfied {
        partial_instances: InstancesPerFactorSource,
        pf_pdp_qty_to_derive: QuantitiesPerFactorSource,
    },
}

/// The cached instances of the requested preset of `f`.
pub open spec fn requested_instances(m: CacheModel, f: FactorSourceIDFromHash, network_id: NetworkID, q: QuantifiedDerivationPreset) -> Seq<HierarchicalDeterministicFactorInstance> {
    model_slot(m, f, preset_path(network_id, q.derivation_preset))
}

/// `f` has at least the requested quantity cached.
pub open spec fn satisfied_for(m: CacheModel, f: FactorSourceIDFromHash, network_id: NetworkID, q: QuantifiedDerivationPreset) -> bool {
    requested_instances(m, f, network_id, q).len() >= q.quantity
}

/// The instances of `f` the outcome holds: the requested quantity when
/// enough are cached, else all that are cached.
pub open spec fn kept_instances(m: CacheModel, f: FactorSourceIDFromHash, network_id: NetworkID, q: QuantifiedDerivationPreset) -> Seq<HierarchicalDeterministicFactorInstance> {
    if satisfied_for(m, f, network_id, q) {
        requested_instances(m, f, network_id, q).take(q.quantity as int)
    } else {
        requested_instances(m, f, network_id, q)
    }
}

/// How many instances of preset `p` to derive for `f`: for the requested
/// preset, enough to satisfy the request and refill the cache; for the others,
/// enough to refill the cache; `None` if nothing is needed.
pub open spec fn qty_to_derive(m: CacheModel, f: FactorSourceIDFromHash, network_id: NetworkID, q: QuantifiedDerivationPreset, p: DerivationPreset) -> Option<usize> {
    let n = model_slot(m, f, preset_path(network_id, p)).len();
    if p == q.derivation_preset {
        if n >= q.quantity { None } else { Some((CACHE_FILLING_QUANTITY + q.quantity - n) as usize) }
    } else if n < CACHE_FILLING_QUANTITY {
        Some((CACHE_FILLING_QUANTITY - n) as usize)
    } else {
        None
    }
}

/// The presets, in their fixed order.
pub open spec fn all_presets() -> Seq<DerivationPreset> {
    seq![DerivationPreset::AccountVeci, DerivationPreset::AccountMfa, DerivationPreset::IdentityVeci, DerivationPreset::IdentityMfa]
}

/// `pdp` holds exactly the presets that need deriving for `f`, in preset order.
pub open spec fn pdp_matches(pdp: QuantitiesPerPreset, m: CacheModel, f: FactorSourceIDFromHash, network_id: NetworkID, q: QuantifiedDerivationPreset) -> bool {
    &&& crate::types::ordered_map::entries_keys(pdp@) == all_presets().filter(|p: DerivationPreset| qty_to_derive(m, f, network_id, q, p) is Some)
    &&& forall|p: DerivationPreset| #[trigger] pdp.spec_get(p) == qty_to_derive(m, f, network_id, q, p)
}

/// `pf` holds the kept instances of every factor source of `ids`, in order.
pub open spec fn pf_matches(pf: InstancesPerFactorSource, ids: Seq<FactorSourceIDFromHash>, m: CacheModel, network_id: NetworkID, q: QuantifiedDerivationPreset) -> bool {
    &&& crate::types::ordered_map::entries_keys(pf@) == ids
    &&& forall|f: FactorSourceIDFromHash| ids.contains(f) ==> (#[trigger] pf.spec_get(f) is Some) && pf.spec_get(f).unwrap()@ == kept_instances(m, f, network_id, q)
}

/// `pdp` holds the quantities to derive of every factor source of `ids`, in order.
pub open spec fn pf_pdp_matches(pdp: QuantitiesPerFactorSource, ids: Seq<FactorSourceIDFromHash>, m: CacheModel, network_id: NetworkID, q: QuantifiedDerivationPreset) -> bool {
    &&& crate::types::ordered_map::entries_keys(pdp@) == ids
    &&& forall|f: FactorSourceIDFromHash| ids.contains(f) ==> (#[trigger] pdp.spec_get(f) is Some) && pdp_matches(pdp.spec_get(f).unwrap(), m, f, network_id, q)
}


/// The number of instances over the collections of `s`, counting only those
/// on `network` if one is given.
pub open spec fn slots_total(s: Seq<(IndexAgnosticPath, FactorInstances)>, network: Option<NetworkID>) -> nat
    decreases s.len(),
{
    if s.len() == 0 {
        0
    } else {
        slots_total(s.drop_last(), network) + (match network {
            Some(n) => if s.last().0.network_id == n { s.last().1@.len() } else { 0 },
            None => s.last().1@.len(),
        })
    }
}

/// The number of instances over the factor sources of `s`.
pub open spec fn factors_total(s: Seq<(FactorSourceIDFromHash, InstancesPerPath)>) -> nat
    decreases s.len(),
{
    if s.len() == 0 {
        0
    } else {
        factors_total(s.drop_last()) + slots_total(s.last().1@, None)
    }
}

/// A cache of factor instances, keyed under factor source and then under
/// index agnostic path, each holding an ordered set of instances with the
/// lowest indices first.
pub struct FactorInstancesCache {
    map: OrderedMap<FactorSourceIDFromHash, InstancesPerPath>,
}

/// The instances under `p` in `inner`, if any.
pub open spec fn path_lookup(inner: InstancesPerPath, p: IndexAgnosticPath) -> Option<Seq<HierarchicalDeterministicFactorInstance>> {
    match inner.spec_get(p) {
        Some(fi) => Some(fi@),
        None => None,
    }
}

/// The instances under `fsid` and `p` in a raw two level map, if any.
pub open spec fn map_lookup(map: OrderedMap<FactorSourceIDFromHash, InstancesPerPath>, fsid: FactorSourceIDFromHash, p: IndexAgnosticPath) -> Option<Seq<HierarchicalDeterministicFactorInstance>> {
    match map.spec_get(fsid) {
        Some(inner) => path_lookup(inner, p),
        None => None,
    }
}

/// Every collection in `map` is non-empty and holds only instances of its
/// factor source and path.
pub open spec fn grouped_map(map: OrderedMap<FactorSourceIDFromHash, InstancesPerPath>) -> bool {
    forall|fsid: FactorSourceIDFromHash, p: IndexAgnosticPath| #[trigger] map_lookup(map, fsid, p) is Some ==> {
        let s = map_lookup(map, fsid, p).unwrap();
        &&& s.len() > 0
        &&& forall|i: int| 0 <= i < s.len() ==> (#[trigger] s[i]).factor_source_id == fsid && spec_agnostic_path(s[i]) == p
    }
}

/// `o` or the empty sequence.
pub open spec fn or_empty(o: Option<Seq<HierarchicalDeterministicFactorInstance>>) -> Seq<HierarchicalDeterministicFactorInstance> {
    match o {
        Some(s) => s,
        None => Seq::empty(),
    }
}

/// What the slot of `p` holds after appending the instances of `t` to `before`.
pub open spec fn appended_slot(before: Option<Seq<HierarchicalDeterministicFactorInstance>>, t: Seq<HierarchicalDeterministicFactorInstance>, p: IndexAgnosticPath) -> Option<Seq<HierarchicalDeterministicFactorInstance>> {
    if spec_group(t, p).len() > 0 {
        Some(or_empty(before) + spec_group(t, p))
    } else {
        before
    }
}

/// Grouping the first `i + 1` instances adds `s[i]` to the group of its path.
pub proof fn lemma_group_step(s: Seq<HierarchicalDeterministicFactorInstance>, i: int, p: IndexAgnosticPath)
    requires
        0 <= i < s.len(),
    ensures
        spec_group(s.take(i + 1), p) == (if spec_agnostic_path(s[i]) == p { spec_group(s.take(i), p).push(s[i]) } else { spec_group(s.take(i), p) }),
{
    reveal(Seq::filter);
    assert(s.take(i + 1).drop_last() =~= s.take(i));
    assert(s.take(i + 1).last() == s[i]);
}

/// The elements of a group are elements of the grouped sequence, on its path.
pub proof fn lemma_group_members(s: Seq<HierarchicalDeterministicFactorInstance>, p: IndexAgnosticPath)
    ensures
        forall|x: HierarchicalDeterministicFactorInstance| #[trigger] spec_group(s, p).contains(x) ==> s.contains(x) && spec_agnostic_path(x) == p,
        forall|k: int| 0 <= k < spec_group(s, p).len() ==> spec_agnostic_path(#[trigger] spec_group(s, p)[k]) == p && s.contains(spec_group(s, p)[k]),
        spec_group(s, p).len() <= s.len(),
{
    broadcast use vstd::seq_lib::group_filter_ensures;
    let pred = |f: HierarchicalDeterministicFactorInstance| spec_agnostic_path(f) == p;
    assert forall|x: HierarchicalDeterministicFactorInstance| #[trigger] spec_group(s, p).contains(x) implies s.contains(x) && spec_agnostic_path(x) == p by {
        s.lemma_filter_contains_rev(pred, x);
        let k = choose|k: int| 0 <= k < s.filter(pred).len() && s.filter(pred)[k] == x;
        s.lemma_filter_pred(pred, k);
    }
    assert forall|k: int| 0 <= k < spec_group(s, p).len() implies spec_agnostic_path(#[trigger] spec_group(s, p)[k]) == p && s.contains(spec_group(s, p)[k]) by {
        s.lemma_filter_pred(pred, k);
        let x = spec_group(s, p)[k];
        assert(spec_group(s, p).contains(x));
        s.lemma_filter_contains_rev(pred, x);
    }
    s.lemma_filter_len(pred);
}

impl FactorInstancesCache {
    /// The instances under `fsid` and `p`, if any.
    pub closed spec fn lookup(&self, fsid: FactorSourceIDFromHash, p: IndexAgnosticPath) -> Option<Seq<HierarchicalDeterministicFactorInstance>> {
        map_lookup(self.map, fsid, p)
    }

    /// Whether the cache knows `fsid`.
    pub closed spec fn has_factor(&self, fsid: FactorSourceIDFromHash) -> bool {
        self.map.spec_has(fsid)
    }

    /// The factor sources, in the order they were first inserted.
    pub closed spec fn factor_order(&self) -> Seq<FactorSourceIDFromHash> {
        crate::types::ordered_map::entries_keys(self.map@)
    }

    /// Every stored collection is non-empty and holds only instances of its
    /// factor source and path.
    #[verifier::type_invariant]
    spec fn grouped(self) -> bool {
        grouped_map(self.map)
    }

    pub open spec fn spec_model(&self) -> CacheModel {
        (
            Map::new(
                |k: (FactorSourceIDFromHash, IndexAgnosticPath)| self.lookup(k.0, k.1) is Some,
                |k: (FactorSourceIDFromHash, IndexAgnosticPath)| self.lookup(k.0, k.1).unwrap(),
            ),
            Set::new(|f: FactorSourceIDFromHash| self.has_factor(f)),
        )
    }

    /// An empty cache.
    pub fn new() -> (c: Self)
        ensures
            c.spec_model().0 == Map::<(FactorSourceIDFromHash, IndexAgnosticPath), Seq<HierarchicalDeterministicFactorInstance>>::empty(),
            c.spec_model().1 == Set::<FactorSourceIDFromHash>::empty(),
    {
        let c = FactorInstancesCache { map: OrderedMap::new() };
        assert(c.spec_model().0 =~= Map::empty());
        assert(c.spec_model().1 =~= Set::empty());
        c
    }

    /// The instances under `fsid` and `p`, if any, without changing the cache.
    pub fn get_mono_factor(&self, factor_source_id: &FactorSourceIDFromHash, index_agnostic_path: &IndexAgnosticPath) -> (r: Option<FactorInstances>)
        ensures
            match r {
                Some(fi) => self.spec_model().0.contains_key((*factor_source_id, *index_agnostic_path))
                    && fi@ == self.spec_model().0[(*factor_source_id, *index_agnostic_path)],
                None => !self.spec_model().0.contains_key((*factor_source_id, *index_agnostic_path)),
            },
    {
        match self.map.get(factor_source_id) {
            Some(inner) => match inner.get(index_agnostic_path) {
                Some(fi) => Some(fi.clone()),
                None => None,
            },
            None => None,
        }
    }

    /// Takes the map out, leaving the cache empty.
    fn take_map(&mut self) -> (m: OrderedMap<FactorSourceIDFromHash, InstancesPerPath>)
        ensures
            m == old(self).map,
            grouped_map(m),
    {
        proof {
            use_type_invariant(&*self);
        }
        let mut tmp = FactorInstancesCache { map: OrderedMap::new() };
        std::mem::swap(self, &mut tmp);
        tmp.map
    }



    /// Every stored instance is of its factor source and under its own path.
    pub fn is_grouped(&self) -> (b: bool)
        ensures
            b,
            model_grouped(self.spec_model()),
    {
        proof {
            use_type_invariant(self);
            self.lemma_grouped_model();
        }
        true
    }

    /// A cache whose map is grouped has a grouped model.
    proof fn lemma_grouped_model(&self)
        requires
            grouped_map(self.map),
        ensures
            model_grouped(self.spec_model()),
    {
        let m = self.spec_model();
        assert forall|k: (FactorSourceIDFromHash, IndexAgnosticPath)| #[trigger] m.0.contains_key(k) implies m.0[k].len() > 0
            && forall|i: int| 0 <= i < m.0[k].len() ==> (#[trigger] m.0[k][i]).factor_source_id == k.0 && spec_agnostic_path(m.0[k][i]) == k.1 by {
            assert(map_lookup(self.map, k.0, k.1) is Some);
        }
    }

    /// The model slot is the stored collection, or empty.
    proof fn lemma_model_slot(&self, fsid: FactorSourceIDFromHash, p: IndexAgnosticPath)
        ensures
            model_slot(self.spec_model(), fsid, p) == or_empty(self.lookup(fsid, p)),
            self.spec_model().0.contains_key((fsid, p)) == (self.lookup(fsid, p) is Some),
    {
    }

    /// The collection under `fsid` and `p`, if any.
    fn slot_of(&self, fsid: &FactorSourceIDFromHash, p: &IndexAgnosticPath) -> (r: Option<&FactorInstances>)
        ensures
            match r {
                Some(fi) => self.lookup(*fsid, *p) == Some(fi@),
                None => self.lookup(*fsid, *p) is None,
            },
    {
        match self.map.get(fsid) {
            Some(inner) => inner.get(p),
            None => None,
        }
    }

    /// Whether the cache holds every instance of `pf`, each under its factor
    /// source and its own path (deleting them panics otherwise).
    pub fn holds_all(&self, pf: &InstancesPerFactorSource) -> (b: bool)
        ensures
            b == forall|f: FactorSourceIDFromHash, x: HierarchicalDeterministicFactorInstance| #[trigger] del_of(*pf, f).contains(x) ==> cached_dup(
                self.spec_model(),
                f,
                x,
            ),
    {
        let ghost es = pf@;
        let _ = pf.has_unique_keys();
        let mut i: usize = 0;
        while i < pf.len()
            invariant
                i <= es.len(),
                es == pf@,
                crate::types::ordered_map::unique_keys(es),
                forall|j: int, x: HierarchicalDeterministicFactorInstance| 0 <= j < i && #[trigger] es[j].1@.contains(x) ==> cached_dup(
                    self.spec_model(),
                    es[j].0,
                    x,
                ),
            decreases es.len() - i,
        {
            let e = pf.get_index(i);
            let v = e.1.factor_instances();
            let mut k: usize = 0;
            while k < v.len()
                invariant
                    k <= v@.len(),
                    v@ == e.1@,
                    i < es.len(),
                    es == pf@,
                    crate::types::ordered_map::unique_keys(es),
                    *e == es[i as int],
                    forall|l: int| 0 <= l < k ==> cached_dup(self.spec_model(), e.0, #[trigger] v@[l]),
                decreases v@.len() - k,
            {
                let x = v[k];
                let p = x.agnostic_path();
                proof {
                    self.lemma_model_slot(e.0, p);
                }
                let held = match self.slot_of(&e.0, &p) {
                    Some(fi) => fi.contains(&x),
                    None => false,
                };
                if !held {
                    proof {
                        crate::types::ordered_map::lemma_entries_get_at(es, i as int);
                        assert(del_of(*pf, e.0) == e.1@);
                        assert(del_of(*pf, e.0).contains(x)) by {
                            assert(v@[k as int] == x);
                        }
                        assert(!cached_dup(self.spec_model(), e.0, x));
                    }
                    return false;
                }
                k = k + 1;
            }
            proof {
                assert forall|j: int, x: HierarchicalDeterministicFactorInstance| 0 <= j < i + 1 && #[trigger] es[j].1@.contains(x) implies cached_dup(
                    self.spec_model(),
                    es[j].0,
                    x,
                ) by {
                    if j == i {
                        let l = choose|l: int| 0 <= l < v@.len() && v@[l] == x;
                    }
                }
            }
            i = i + 1;
        }
        proof {
            assert forall|f: FactorSourceIDFromHash, x: HierarchicalDeterministicFactorInstance| #[trigger] del_of(*pf, f).contains(x) implies cached_dup(
                self.spec_model(),
                f,
                x,
            ) by {
                if pf.spec_has(f) {
                    let j = choose|j: int| 0 <= j < es.len() && es[j].0 == f;
                    crate::types::ordered_map::lemma_entries_get_at(es, j);
                }
            }
        }
        true
    }

    /// The position of the first instance of `v` already cached under `fsid`.
    fn first_cached_dup(&self, fsid: &FactorSourceIDFromHash, v: &Vec<HierarchicalDeterministicFactorInstance>) -> (r: Option<usize>)
        ensures
            match r {
                Some(i) => i < v@.len() && cached_dup(self.spec_model(), *fsid, v@[i as int])
                    && forall|j: int| 0 <= j < i ==> !cached_dup(self.spec_model(), *fsid, #[trigger] v@[j]),
                None => forall|j: int| 0 <= j < v@.len() ==> !cached_dup(self.spec_model(), *fsid, #[trigger] v@[j]),
            },
    {
        let ghost m0 = self.spec_model();
        let mut i: usize = 0;
        while i < v.len()
            invariant
                i <= v@.len(),
                m0 == self.spec_model(),
                forall|j: int| 0 <= j < i ==> !cached_dup(m0, *fsid, #[trigger] v@[j]),
            decreases v@.len() - i,
        {
            let p = v[i].agnostic_path();
            proof {
                self.lemma_model_slot(*fsid, p);
            }
            let dup = match self.slot_of(fsid, &p) {
                Some(fi) => fi.contains(&v[i]),
                None => false,
            };
            if dup {
                return Some(i);
            }
            i = i + 1;
        }
        None
    }

    /// Whether inserting `v` under `fsid` leaves a gap on some path.
    fn skips_some_index(&self, fsid: &FactorSourceIDFromHash, v: &Vec<HierarchicalDeterministicFactorInstance>) -> (b: bool)
        ensures
            b == model_skipped(self.spec_model(), *fsid, v@),
    {
        let ghost m0 = self.spec_model();
        let ghost s = v@;
        let mut skipped = false;
        let mut i: usize = 0;
        while i < v.len()
            invariant
                i <= v@.len(),
                v@ == s,
                m0 == self.spec_model(),
                skipped == exists|j: int| 0 <= j < i && first_of_path(s, j) && #[trigger] skips_index(m0, *fsid, s[j]),
            decreases v@.len() - i,
        {
            let p = v[i].agnostic_path();
            let mut first = true;
            let mut j: usize = 0;
            while j < i
                invariant
                    j <= i,
                    i < v@.len(),
                    v@ == s,
                    p == spec_agnostic_path(s[i as int]),
                    first == forall|k: int| 0 <= k < j ==> spec_agnostic_path(s[k]) != p,
                decreases i - j,
            {
                if v[j].agnostic_path() == p {
                    first = false;
                }
                j = j + 1;
            }
            proof {
                self.lemma_model_slot(*fsid, p);
            }
            let mut skips = false;
            if first {
                match self.slot_of(fsid, &p) {
                    Some(fi) => match fi.last() {
                        Some(last) => {
                            let last_base = last.derivation_entity_base_index();
                            skips = v[i].derivation_entity_base_index() != last_base + 1;
                        },
                        None => {},
                    },
                    None => {},
                }
            }
            assert(skips == (first_of_path(s, i as int) && skips_index(m0, *fsid, s[i as int])));
            skipped = skipped || skips;
            i = i + 1;
        }
        skipped
    }


    /// Inserts `instances` under `factor_source_id`, each appended to the
    /// collection of its own index agnostic path.
    ///
    /// Fails with `FactorSourceDiscrepancy` if some instance belongs to another
    /// factor source, and with `CacheAlreadyContainsFactorInstance` (for the
    /// first such instance) if some instance is already cached; in both cases
    /// the cache is unchanged. Otherwise returns whether some path got a gap
    /// between its last cached index and the first new one.
    pub fn insert_for_factor(&mut self, factor_source_id: &FactorSourceIDFromHash, instances: &FactorInstances) -> (r: Result<bool, CommonError>)
        ensures
            match model_insert_for_factor(old(self).spec_model(), *factor_source_id, instances@) {
                Err(e) => r == Err::<bool, CommonError>(e) && *final(self) == *old(self),
                Ok((m, skipped)) => r == Ok::<bool, CommonError>(skipped) && final(self).spec_model() == m,
            },
    {
        reveal(model_insert_for_factor);
        let fsid = *factor_source_id;
        let v = instances.factor_instances();
        let ghost s = v@;
        let ghost m0 = self.spec_model();

        let mut i: usize = 0;
        while i < v.len()
            invariant
                i <= v@.len(),
                v@ == s,
                s == instances@,
                *self == *old(self),
                m0 == old(self).spec_model(),
                fsid == *factor_source_id,
                forall|j: int| 0 <= j < i ==> (#[trigger] s[j]).factor_source_id == fsid,
            decreases v@.len() - i,
        {
            if !(v[i].factor_source_id == fsid) {
                assert(s[i as int].factor_source_id != fsid);
                assert(exists|i: int| 0 <= i < s.len() && (#[trigger] s[i]).factor_source_id != fsid);
                reveal(model_insert_for_factor);
                assert(model_insert_for_factor(m0, fsid, s) == Err::<(CacheModel, bool), CommonError>(CommonError::FactorSourceDiscrepancy));
                return Err(CommonError::FactorSourceDiscrepancy);
            }
            i = i + 1;
        }

        match self.first_cached_dup(factor_source_id, &v) {
            Some(k) => {
                proof {
                    let c = choose|c: int| 0 <= c < s.len() && cached_dup(m0, fsid, #[trigger] s[c]) && forall|j: int| 0 <= j < c ==> !cached_dup(m0, fsid, #[trigger] s[j]);
                    assert(0 <= k < s.len() && cached_dup(m0, fsid, s[k as int]) && forall|j: int| 0 <= j < k ==> !cached_dup(m0, fsid, #[trigger] s[j]));
                    if c < k {
                        assert(!cached_dup(m0, fsid, s[c]));
                    }
                    if c > k {
                        assert(!cached_dup(m0, fsid, s[k as int]));
                    }
                }
                return Err(CommonError::CacheAlreadyContainsFactorInstance { derivation_path: v[k].derivation_path() });
            },
            None => {},
        }
        let skipped = self.skips_some_index(factor_source_id, &v);

        let mut map = self.take_map();
        let ghost map0 = map;
        let fi_idx = match map.index_of(factor_source_id) {
            Some(k) => k,
            None => {
                map.insert(fsid, OrderedMap::new());
                map.len() - 1
            },
        };
        let ghost map1 = map;
        let mut inner = map.replace_at(fi_idx, OrderedMap::new());
        let ghost inner0 = inner;
        assert forall|p: IndexAgnosticPath| path_lookup(inner0, p) == map_lookup(map0, fsid, p) by {
            if !map0.spec_has(fsid) {
                assert(!inner0.spec_has(p));
            }
        }
        assert forall|j: int| 0 <= j < v@.len() implies !or_empty(path_lookup(inner0, spec_agnostic_path(v@[j]))).contains(#[trigger] v@[j]) by {
            assert(!cached_dup(m0, fsid, s[j]));
            assert(m0.0.contains_key((fsid, spec_agnostic_path(s[j]))) == (map_lookup(map0, fsid, spec_agnostic_path(s[j])) is Some));
        }
        append_all_to_paths(&mut inner, &v);
        map.replace_at(fi_idx, inner);
        proof {
            assert forall|f2: FactorSourceIDFromHash, p: IndexAgnosticPath| #[trigger] map_lookup(map, f2, p) == (if f2 == fsid { appended_slot(map_lookup(map0, fsid, p), s, p) } else { map_lookup(map0, f2, p) }) by {
                if f2 != fsid {
                    assert(map.spec_get(f2) == map1.spec_get(f2));
                    assert(map1.spec_get(f2) == map0.spec_get(f2));
                }
            }
            lemma_appended_grouped(map0, map, fsid, s);
        }
        self.map = map;
        proof {
            let m1 = model_append(m0, fsid, s);
            assert forall|k: (FactorSourceIDFromHash, IndexAgnosticPath)| true implies (self.spec_model().0.contains_key(k) == m1.0.contains_key(k)) && (self.spec_model().0.contains_key(k) ==> self.spec_model().0[k] == m1.0[k]) by {
                assert(m0.0.contains_key(k) == (map_lookup(map0, k.0, k.1) is Some));
                if k.0 == fsid {
                    assert(model_slot(m0, fsid, k.1) == or_empty(map_lookup(map0, fsid, k.1)));
                }
            }
            assert(self.spec_model().0 =~= m1.0);
            assert(self.spec_model().1 =~= m1.1);
        }
        Ok(skipped)
    }


    /// Deletes the instances of `pf_instances` from the collections of their
    /// factor sources and paths, then prunes emptied collections and factor
    /// sources left without any collection. Every instance to delete must be
    /// cached.
    pub fn delete(&mut self, pf_instances: &InstancesPerFactorSource)
        requires
            forall|f: FactorSourceIDFromHash, x: HierarchicalDeterministicFactorInstance| #[trigger] del_of(*pf_instances, f).contains(x) ==> cached_dup(old(self).spec_model(), f, x),
        ensures
            final(self).spec_model() == model_delete(old(self).spec_model(), *pf_instances),
    {
        proof {
            use_type_invariant(&*self);
        }
        let ghost m0 = self.spec_model();
        let ghost map0 = self.map;
        let new_map = delete_in_factors(&self.map, pf_instances);
        proof {
            assert forall|f: FactorSourceIDFromHash, p: IndexAgnosticPath| #[trigger] map_lookup(new_map, f, p) is Some implies {
                let t = map_lookup(new_map, f, p).unwrap();
                &&& t.len() > 0
                &&& forall|i: int| 0 <= i < t.len() ==> (#[trigger] t[i]).factor_source_id == f && spec_agnostic_path(t[i]) == p
            } by {
                let o = map_lookup(map0, f, p).unwrap();
                let d = del_of(*pf_instances, f);
                let t = map_lookup(new_map, f, p).unwrap();
                assert(t == without(o, d));
                assert forall|i: int| 0 <= i < t.len() implies (#[trigger] t[i]).factor_source_id == f && spec_agnostic_path(t[i]) == p by {
                    assert(t.contains(t[i]));
                    o.lemma_filter_contains_rev(|x: HierarchicalDeterministicFactorInstance| !d.contains(x), t[i]);
                    let k = choose|k: int| 0 <= k < o.len() && o[k] == t[i];
                }
            }
        }
        self.map = new_map;
        proof {
            let m1 = model_delete(m0, *pf_instances);
            assert forall|k: (FactorSourceIDFromHash, IndexAgnosticPath)| true implies (self.spec_model().0.contains_key(k) == m1.0.contains_key(k)) && (self.spec_model().0.contains_key(k) ==> self.spec_model().0[k] == m1.0[k]) by {
                assert(m0.0.contains_key(k) == (map_lookup(map0, k.0, k.1) is Some));
            }
            assert(self.spec_model().0 =~= m1.0);
            assert forall|f: FactorSourceIDFromHash| #[trigger] self.spec_model().1.contains(f) == m1.1.contains(f) by {
                assert forall|p: IndexAgnosticPath| (map_lookup(new_map, f, p) is Some) == (#[trigger] m0.0.contains_key((f, p)) && without(m0.0[(f, p)], del_of(*pf_instances, f)).len() > 0) by {
                    assert(m0.0.contains_key((f, p)) == (map_lookup(map0, f, p) is Some));
                }
                if self.spec_model().1.contains(f) {
                    let p = choose|p: IndexAgnosticPath| #[trigger] map_lookup(new_map, f, p) is Some;
                    assert(m0.0.contains_key((f, p)));
                }
                if m1.1.contains(f) {
                    let p = choose|p: IndexAgnosticPath| #[trigger] m0.0.contains_key((f, p)) && without(m0.0[(f, p)], del_of(*pf_instances, f)).len() > 0;
                    assert(map_lookup(new_map, f, p) is Some);
                }
            }
            assert(self.spec_model().1 =~= m1.1);
        }
    }


    /// Inserts the instances of every factor source of `per_factor`, in order,
    /// stopping at the first failing insertion and returning its error.
    pub fn insert_all(&mut self, per_factor: &InstancesPerFactorSource) -> (r: Result<(), CommonError>)
        ensures
            model_grouped(final(self).spec_model()),
            final(self).spec_model() == model_insert_all(old(self).spec_model(), per_factor@).0,
            r == model_insert_all(old(self).spec_model(), per_factor@).1,
    {
        let ghost m0 = self.spec_model();
        let ghost es = per_factor@;
        let n = per_factor.len();
        let mut i: usize = 0;
        while i < n
            invariant
                i <= n,
                n == es.len(),
                es == per_factor@,
                m0 == old(self).spec_model(),
                model_insert_all(m0, es.take(i as int)) == (self.spec_model(), Ok::<(), CommonError>(())),
            decreases n - i,
        {
            let e = per_factor.get_index(i);
            let ghost before = self.spec_model();
            proof {
                assert(es.take(i + 1).drop_last() =~= es.take(i as int));
                assert(es.take(i + 1).last() == es[i as int]);
            }
            match self.insert_for_factor(&e.0, &e.1) {
                Ok(_) => {},
                Err(err) => {
                    proof {
                        lemma_insert_all_stops(m0, es, i + 1);
                        use_type_invariant(&*self);
                        self.lemma_grouped_model();
                    }
                    return Err(err);
                },
            }
            i = i + 1;
        }
        assert(es.take(n as int) =~= es);
        proof {
            use_type_invariant(&*self);
            self.lemma_grouped_model();
        }
        Ok(())
    }

    /// Whether the cache accepts the instances of every factor source of
    /// `per_factor`, inserted in order; the cache is unchanged.
    pub fn can_insert_all(&self, per_factor: &InstancesPerFactorSource) -> (b: bool)
        ensures
            b == model_insert_all(self.spec_model(), per_factor@).1 is Ok,
    {
        let mut trial = self.clone();
        trial.insert_all(per_factor).is_ok()
    }

    /// Inserts the instances of every factor source of `pf_instances`, which
    /// must all be insertable.
    pub fn insert(&mut self, pf_instances: &InstancesPerFactorSource)
        requires
            model_insert_all(old(self).spec_model(), pf_instances@).1 is Ok,
        ensures
            final(self).spec_model() == model_insert_all(old(self).spec_model(), pf_instances@).0,
    {
        let _ = self.insert_all(pf_instances);
    }


    /// The instances under `index_agnostic_path` of each factor source of
    /// `factor_source_ids` that has some, in the order of `factor_source_ids`.
    pub fn get_poly_factor(&self, factor_source_ids: &Vec<FactorSourceIDFromHash>, index_agnostic_path: &IndexAgnosticPath) -> (r: Result<InstancesPerFactorSource, CommonError>)
        requires
            factor_source_ids@.no_duplicates(),
        ensures
            r matches Ok(pf) && {
                &&& crate::types::ordered_map::entries_keys(pf@) == factor_source_ids@.filter(|f: FactorSourceIDFromHash| self.spec_model().0.contains_key((f, *index_agnostic_path)))
                &&& forall|f: FactorSourceIDFromHash| (#[trigger] pf.spec_get(f) is Some) == (factor_source_ids@.contains(f) && self.spec_model().0.contains_key((f, *index_agnostic_path)))
                &&& forall|f: FactorSourceIDFromHash| #[trigger] pf.spec_get(f) is Some ==> pf.spec_get(f).unwrap()@ == self.spec_model().0[(f, *index_agnostic_path)]
            },
    {
        let ghost ids = factor_source_ids@;
        let ghost m = self.spec_model();
        let ghost pred = |f: FactorSourceIDFromHash| m.0.contains_key((f, *index_agnostic_path));
        let mut pf: InstancesPerFactorSource = OrderedMap::new();
        let mut i: usize = 0;
        while i < factor_source_ids.len()
            invariant
                i <= ids.len(),
                ids == factor_source_ids@,
                ids.no_duplicates(),
                m == self.spec_model(),
                pred == (|f: FactorSourceIDFromHash| m.0.contains_key((f, *index_agnostic_path))),
                crate::types::ordered_map::entries_keys(pf@) == ids.take(i as int).filter(pred),
                forall|f: FactorSourceIDFromHash| (#[trigger] pf.spec_get(f) is Some) == (ids.take(i as int).contains(f) && m.0.contains_key((f, *index_agnostic_path))),
                forall|f: FactorSourceIDFromHash| #[trigger] pf.spec_get(f) is Some ==> pf.spec_get(f).unwrap()@ == m.0[(f, *index_agnostic_path)],
            decreases ids.len() - i,
        {
            let f = factor_source_ids[i];
            let ghost pf0 = pf;
            proof {
                reveal(Seq::filter);
                assert(ids.take(i + 1).drop_last() =~= ids.take(i as int));
                assert(ids.take(i + 1).last() == ids[i as int]);
                assert(!ids.take(i as int).contains(f)) by {
                    if ids.take(i as int).contains(f) {
                        let k = choose|k: int| 0 <= k < i && ids.take(i as int)[k] == f;
                        assert(ids[k] == ids[i as int]);
                    }
                }
                assert(!(pf0.spec_get(f) is Some));
                assert(!pf0.spec_has(f));
                let t0 = ids.take(i as int);
                let t1 = ids.take(i + 1);
                assert forall|g: FactorSourceIDFromHash| #[trigger] t1.contains(g) == (t0.contains(g) || g == f) by {
                    if t1.contains(g) {
                        let k = choose|k: int| 0 <= k < t1.len() && t1[k] == g;
                        if k < i {
                            assert(t0[k] == g);
                        }
                    }
                    if t0.contains(g) {
                        let k = choose|k: int| 0 <= k < t0.len() && t0[k] == g;
                        assert(t1[k] == g);
                    }
                    if g == f {
                        assert(t1[i as int] == g);
                    }
                }
            }
            match self.get_mono_factor(&f, index_agnostic_path) {
                Some(instances) => {
                    pf.insert(f, instances);
                    assert(crate::types::ordered_map::entries_keys(pf@) =~= crate::types::ordered_map::entries_keys(pf0@).push(f));
                },
                None => {},
            }
            i = i + 1;
        }
        assert(ids.take(ids.len() as int) =~= ids);
        Ok(pf)
    }

    /// The collections of `factor_source_id` per path, without changing the
    /// cache; `None` if the cache does not know the factor source.
    pub fn peek_all_instances_of_factor_source(&self, factor_source_id: FactorSourceIDFromHash) -> (r: Option<InstancesPerPath>)
        ensures
            r is Some == self.spec_model().1.contains(factor_source_id),
            r matches Some(inner) ==> forall|p: IndexAgnosticPath| #[trigger] path_lookup(inner, p) == (if self.spec_model().0.contains_key((factor_source_id, p)) { Some(self.spec_model().0[(factor_source_id, p)]) } else { None }),
    {
        match self.map.get(&factor_source_id) {
            Some(inner) => {
                let c = clone_paths(inner);
                assert forall|p: IndexAgnosticPath| #[trigger] path_lookup(c, p) == (if self.spec_model().0.contains_key((factor_source_id, p)) { Some(self.spec_model().0[(factor_source_id, p)]) } else { None }) by {
                    assert(path_lookup(c, p) == path_lookup(*inner, p));
                }
                Some(c)
            },
            None => None,
        }
    }


    /// Whether `p` needs deriving for `f`, and for the requested preset, the
    /// instances the outcome keeps.
    fn preset_need(&self, f: &FactorSourceIDFromHash, network_id: NetworkID, q: QuantifiedDerivationPreset, p: DerivationPreset) -> (r: (Option<usize>, Option<FactorInstances>))
        requires
            q.quantity + CACHE_FILLING_QUANTITY <= usize::MAX,
        ensures
            r.0 == qty_to_derive(self.spec_model(), *f, network_id, q, p),
            p == q.derivation_preset ==> (r.1 matches Some(fi) && fi@ == kept_instances(self.spec_model(), *f, network_id, q)),
            p != q.derivation_preset ==> r.1 is None,
    {
        let path = p.index_agnostic_path_on_network(network_id);
        let instances = match self.get_mono_factor(f, &path) {
            Some(fi) => fi,
            None => FactorInstances::empty(),
        };
        assert(instances@ == model_slot(self.spec_model(), *f, path));
        let n = instances.len();
        if p == q.derivation_preset {
            if n >= q.quantity {
                let (kept, _) = instances.split_at(q.quantity);
                (None, Some(kept))
            } else {
                (Some(CACHE_FILLING_QUANTITY + q.quantity - n), Some(instances))
            }
        } else if n < CACHE_FILLING_QUANTITY {
            (Some(CACHE_FILLING_QUANTITY - n), None)
        } else {
            (None, None)
        }
    }

    /// The quantities to derive for `f` per preset, the kept instances of the
    /// requested preset, and whether the request is satisfied for `f`.
    fn quantities_for_factor(&self, f: &FactorSourceIDFromHash, network_id: NetworkID, q: QuantifiedDerivationPreset) -> (r: (QuantitiesPerPreset, FactorInstances, bool))
        requires
            q.quantity + CACHE_FILLING_QUANTITY <= usize::MAX,
        ensures
            pdp_matches(r.0, self.spec_model(), *f, network_id, q),
            r.1@ == kept_instances(self.spec_model(), *f, network_id, q),
            r.2 == satisfied_for(self.spec_model(), *f, network_id, q),
    {
        let ghost m = self.spec_model();
        let mut pdp: QuantitiesPerPreset = OrderedMap::new();
        let mut kept = FactorInstances::empty();
        let presets = DerivationPreset::all();
        let mut i: usize = 0;
        while i < 4
            invariant
                i <= 4,
                m == self.spec_model(),
                q.quantity + CACHE_FILLING_QUANTITY <= usize::MAX,
                presets@ == all_presets(),
                crate::types::ordered_map::entries_keys(pdp@) == all_presets().take(i as int).filter(|p: DerivationPreset| qty_to_derive(m, *f, network_id, q, p) is Some),
                forall|p: DerivationPreset| #[trigger] pdp.spec_get(p) == (if all_presets().take(i as int).contains(p) { qty_to_derive(m, *f, network_id, q, p) } else { None }),
                all_presets().take(i as int).contains(q.derivation_preset) ==> kept@ == kept_instances(m, *f, network_id, q),
            decreases 4 - i,
        {
            let p = presets[i];
            let (need, found) = self.preset_need(f, network_id, q, p);
            let ghost pdp0 = pdp;
            let ghost t0 = all_presets().take(i as int);
            let ghost t1 = all_presets().take(i + 1);
            proof {
                reveal(Seq::filter);
                assert(t1.drop_last() =~= t0);
                assert(t1.last() == p);
                assert(!t0.contains(p)) by {
                    if t0.contains(p) {
                        let k = choose|k: int| 0 <= k < t0.len() && t0[k] == p;
                        assert(all_presets()[k] == all_presets()[i as int]);
                    }
                }
                assert forall|g: DerivationPreset| #[trigger] t1.contains(g) == (t0.contains(g) || g == p) by {
                    if t1.contains(g) {
                        let k = choose|k: int| 0 <= k < t1.len() && t1[k] == g;
                        if k < i {
                            assert(t0[k] == g);
                        }
                    }
                    if t0.contains(g) {
                        let k = choose|k: int| 0 <= k < t0.len() && t0[k] == g;
                        assert(t1[k] == g);
                    }
                    if g == p {
                        assert(t1[i as int] == g);
                    }
                }
                assert(pdp0.spec_get(p) is None);
                assert(!pdp0.spec_has(p));
            }
            match need {
                Some(n) => {
                    pdp.insert(p, n);
                    assert(crate::types::ordered_map::entries_keys(pdp@) =~= crate::types::ordered_map::entries_keys(pdp0@).push(p));
                },
                None => {},
            }
            match found {
                Some(fi) => {
                    kept = fi;
                },
                None => {},
            }
            proof {
                assert forall|g: DerivationPreset| #[trigger] pdp.spec_get(g) == (if t1.contains(g) { qty_to_derive(m, *f, network_id, q, g) } else { None }) by {
                    if g != p {
                        assert(pdp.spec_get(g) == pdp0.spec_get(g));
                    }
                }
            }
            i = i + 1;
        }
        proof {
            assert(all_presets().take(4) =~= all_presets());
            assert(all_presets().contains(q.derivation_preset)) by {
                match q.derivation_preset {
                    DerivationPreset::AccountVeci => assert(all_presets()[0] == q.derivation_preset),
                    DerivationPreset::AccountMfa => assert(all_presets()[1] == q.derivation_preset),
                    DerivationPreset::IdentityVeci => assert(all_presets()[2] == q.derivation_preset),
                    DerivationPreset::IdentityMfa => assert(all_presets()[3] == q.derivation_preset),
                }
            }
        }
        let sat = kept.len() >= q.quantity && {
            let path = q.derivation_preset.index_agnostic_path_on_network(network_id);
            match self.get_mono_factor(f, &path) {
                Some(fi) => fi.len() >= q.quantity,
                None => q.quantity == 0,
            }
        };
        (pdp, kept, sat)
    }

    /// For each factor source of `factor_source_ids`, the cached instances of
    /// the requested preset on `network_id`; `Satisfied` with the requested
    /// quantity of each if every factor source has enough, else `NotSatisfied`
    /// with what was found and the quantities of each preset to derive.
    pub fn get_poly_factor_with_quantities(
        &self,
        factor_source_ids: &Vec<FactorSourceIDFromHash>,
        originally_requested_quantified_derivation_preset: &QuantifiedDerivationPreset,
        network_id: NetworkID,
    ) -> (r: Result<CachedInstancesWithQuantitiesOutcome, CommonError>)
        requires
            factor_source_ids@.no_duplicates(),
            originally_requested_quantified_derivation_preset.quantity + CACHE_FILLING_QUANTITY <= usize::MAX,
        ensures
            r matches Ok(outcome) && match outcome {
                CachedInstancesWithQuantitiesOutcome::Satisfied(pf) => (forall|f: FactorSourceIDFromHash| #[trigger] factor_source_ids@.contains(f) ==> satisfied_for(self.spec_model(), f, network_id, *originally_requested_quantified_derivation_preset))
                    && pf_matches(pf, factor_source_ids@, self.spec_model(), network_id, *originally_requested_quantified_derivation_preset),
                CachedInstancesWithQuantitiesOutcome::NotSatisfied { partial_instances, pf_pdp_qty_to_derive } => (exists|f: FactorSourceIDFromHash| #[trigger] factor_source_ids@.contains(f) && !satisfied_for(self.spec_model(), f, network_id, *originally_requested_quantified_derivation_preset))
                    && pf_matches(partial_instances, factor_source_ids@, self.spec_model(), network_id, *originally_requested_quantified_derivation_preset)
                    && pf_pdp_matches(pf_pdp_qty_to_derive, factor_source_ids@, self.spec_model(), network_id, *originally_requested_quantified_derivation_preset),
            },
            forall|f: FactorSourceIDFromHash, x: HierarchicalDeterministicFactorInstance| #[trigger] kept_instances(self.spec_model(), f, network_id, *originally_requested_quantified_derivation_preset).contains(x)
                ==> cached_dup(self.spec_model(), f, x),
    {
        proof {
            use_type_invariant(self);
            let m = self.spec_model();
            let q = *originally_requested_quantified_derivation_preset;
            assert forall|f: FactorSourceIDFromHash, x: HierarchicalDeterministicFactorInstance| #[trigger] kept_instances(m, f, network_id, q).contains(x) implies cached_dup(m, f, x) by {
                let path = preset_path(network_id, q.derivation_preset);
                let slot = requested_instances(m, f, network_id, q);
                let k = choose|k: int| 0 <= k < kept_instances(m, f, network_id, q).len() && kept_instances(m, f, network_id, q)[k] == x;
                assert(slot[k] == x);
                assert(m.0.contains_key((f, path)) == (map_lookup(self.map, f, path) is Some));
                assert(slot.len() > 0);
                assert(map_lookup(self.map, f, path) is Some);
                assert(spec_agnostic_path(slot[k]) == path);
                assert(slot.contains(x));
            }
        }
        let q = *originally_requested_quantified_derivation_preset;
        let ghost ids = factor_source_ids@;
        let ghost m = self.spec_model();
        let mut all_satisfied = true;
        let mut pf: InstancesPerFactorSource = OrderedMap::new();
        let mut pf_pdp: QuantitiesPerFactorSource = OrderedMap::new();
        assert(ids.take(0) =~= Seq::<FactorSourceIDFromHash>::empty());
        assert(crate::types::ordered_map::entries_keys(pf@) =~= Seq::<FactorSourceIDFromHash>::empty());
        assert(crate::types::ordered_map::entries_keys(pf_pdp@) =~= Seq::<FactorSourceIDFromHash>::empty());
        let mut i: usize = 0;
        while i < factor_source_ids.len()
            invariant
                i <= ids.len(),
                ids == factor_source_ids@,
                ids.no_duplicates(),
                m == self.spec_model(),
                q.quantity + CACHE_FILLING_QUANTITY <= usize::MAX,
                all_satisfied == forall|f: FactorSourceIDFromHash| #[trigger] ids.take(i as int).contains(f) ==> satisfied_for(m, f, network_id, q),
                pf_matches(pf, ids.take(i as int), m, network_id, q),
                pf_pdp_matches(pf_pdp, ids.take(i as int), m, network_id, q),
            decreases ids.len() - i,
        {
            let f = factor_source_ids[i];
            let (pdp, kept, sat) = self.quantities_for_factor(&f, network_id, q);
            let ghost pf0 = pf;
            let ghost pdp0 = pf_pdp;
            let ghost t0 = ids.take(i as int);
            let ghost t1 = ids.take(i + 1);
            proof {
                assert(t1 =~= t0.push(f));
                assert(!t0.contains(f)) by {
                    if t0.contains(f) {
                        let k = choose|k: int| 0 <= k < t0.len() && t0[k] == f;
                        assert(ids[k] == ids[i as int]);
                    }
                }
                assert forall|g: FactorSourceIDFromHash| #[trigger] t1.contains(g) == (t0.contains(g) || g == f) by {
                    if t1.contains(g) {
                        let k = choose|k: int| 0 <= k < t1.len() && t1[k] == g;
                        if k < i {
                            assert(t0[k] == g);
                        }
                    }
                    if t0.contains(g) {
                        let k = choose|k: int| 0 <= k < t0.len() && t0[k] == g;
                        assert(t1[k] == g);
                    }
                    if g == f {
                        assert(t1[i as int] == g);
                    }
                }
                assert(!pf0.spec_has(f)) by {
                    if pf0.spec_has(f) {
                        let k = choose|k: int| 0 <= k < pf0@.len() && pf0@[k].0 == f;
                        assert(crate::types::ordered_map::entries_keys(pf0@)[k] == f);
                    }
                }
                assert(!pdp0.spec_has(f)) by {
                    if pdp0.spec_has(f) {
                        let k = choose|k: int| 0 <= k < pdp0@.len() && pdp0@[k].0 == f;
                        assert(crate::types::ordered_map::entries_keys(pdp0@)[k] == f);
                    }
                }
            }
            pf.insert(f, kept);
            pf_pdp.insert(f, pdp);
            all_satisfied = all_satisfied && sat;
            proof {
                assert(all_satisfied == forall|g: FactorSourceIDFromHash| #[trigger] t1.contains(g) ==> satisfied_for(m, g, network_id, q)) by {
                    if !all_satisfied {
                        if !sat {
                            assert(t1.contains(f));
                        } else {
                            let g = choose|g: FactorSourceIDFromHash| #[trigger] t0.contains(g) && !satisfied_for(m, g, network_id, q);
                            assert(t1.contains(g));
                        }
                    }
                }
                assert(crate::types::ordered_map::entries_keys(pf@) =~= t1);
                assert(crate::types::ordered_map::entries_keys(pf_pdp@) =~= t1);
                assert forall|g: FactorSourceIDFromHash| t1.contains(g) implies (#[trigger] pf.spec_get(g) is Some) && pf.spec_get(g).unwrap()@ == kept_instances(m, g, network_id, q) by {
                    if g != f {
                        assert(pf.spec_get(g) == pf0.spec_get(g));
                    }
                }
                assert forall|g: FactorSourceIDFromHash| t1.contains(g) implies (#[trigger] pf_pdp.spec_get(g) is Some) && pdp_matches(pf_pdp.spec_get(g).unwrap(), m, g, network_id, q) by {
                    if g != f {
                        assert(pf_pdp.spec_get(g) == pdp0.spec_get(g));
                    }
                }
            }
            i = i + 1;
        }
        assert(ids.take(ids.len() as int) =~= ids);
        if all_satisfied {
            Ok(CachedInstancesWithQuantitiesOutcome::Satisfied(pf))
        } else {
            Ok(CachedInstancesWithQuantitiesOutcome::NotSatisfied { partial_instances: pf, pf_pdp_qty_to_derive: pf_pdp })
        }
    }


    /// The number of cached instances.
    pub closed spec fn spec_total(&self) -> nat {
        factors_total(self.map@)
    }

    /// The number of cached instances.
    pub fn total_number_of_factor_instances(&self) -> (n: usize)
        requires
            self.spec_total() <= usize::MAX,
        ensures
            n == self.spec_total(),
    {
        let ghost es = self.map@;
        let mut total: usize = 0;
        let mut i: usize = 0;
        while i < self.map.len()
            invariant
                i <= es.len(),
                es == self.map@,
                factors_total(es) <= usize::MAX,
                total == factors_total(es.take(i as int)),
            decreases es.len() - i,
        {
            let e = self.map.get_index(i);
            proof {
                assert(es.take(i + 1).drop_last() =~= es.take(i as int));
                lemma_factors_total_prefix(es, i + 1);
            }
            let ghost inner_es = e.1@;
            let mut sub: usize = 0;
            let mut j: usize = 0;
            while j < e.1.len()
                invariant
                    j <= inner_es.len(),
                    inner_es == e.1@,
                    total + slots_total(inner_es, None) <= usize::MAX,
                    sub == slots_total(inner_es.take(j as int), None),
                decreases inner_es.len() - j,
            {
                let ie = e.1.get_index(j);
                proof {
                    assert(inner_es.take(j + 1).drop_last() =~= inner_es.take(j as int));
                    lemma_slots_total_prefix(inner_es, j + 1, None);
                }
                sub = sub + ie.1.len();
                j = j + 1;
            }
            assert(inner_es.take(inner_es.len() as int) =~= inner_es);
            total = total + sub;
            i = i + 1;
        }
        assert(es.take(es.len() as int) =~= es);
        total
    }

    /// Whether the cache of `factor_source_id` on `network_id` is full for
    /// every preset: each preset's path holds `CACHE_FILLING_QUANTITY`
    /// instances.
    pub open spec fn spec_is_full(&self, network_id: NetworkID, factor_source_id: FactorSourceIDFromHash) -> bool {
        forall|p: DerivationPreset| #[trigger] model_slot(self.spec_model(), factor_source_id, preset_path(network_id, p)).len()
            == CACHE_FILLING_QUANTITY
    }

    /// Whether the cache is full for `factor_source_id` on `network_id`, for
    /// each preset.
    pub fn is_full(&self, network_id: NetworkID, factor_source_id: FactorSourceIDFromHash) -> (b: bool)
        ensures
            b == self.spec_is_full(network_id, factor_source_id),
    {
        let presets = DerivationPreset::all();
        let mut i: usize = 0;
        while i < presets.len()
            invariant
                i <= presets@.len(),
                presets@ == all_presets(),
                forall|k: int| 0 <= k < i ==> #[trigger] model_slot(self.spec_model(), factor_source_id, preset_path(network_id, presets@[k])).len()
                    == CACHE_FILLING_QUANTITY,
            decreases presets@.len() - i,
        {
            let p = presets[i];
            let path = p.index_agnostic_path_on_network(network_id);
            let n = match self.get_mono_factor(&factor_source_id, &path) {
                Some(fi) => fi.len(),
                None => 0,
            };
            if n != CACHE_FILLING_QUANTITY {
                assert(model_slot(self.spec_model(), factor_source_id, preset_path(network_id, p)).len() != CACHE_FILLING_QUANTITY);
                return false;
            }
            i = i + 1;
        }
        proof {
            assert forall|p: DerivationPreset| #[trigger] model_slot(self.spec_model(), factor_source_id, preset_path(network_id, p)).len()
                == CACHE_FILLING_QUANTITY by {
                match p {
                    DerivationPreset::AccountVeci => assert(presets@[0] == p),
                    DerivationPreset::AccountMfa => assert(presets@[1] == p),
                    DerivationPreset::IdentityVeci => assert(presets@[2] == p),
                    DerivationPreset::IdentityMfa => assert(presets@[3] == p),
                }
            }
        }
        true
    }

    /// Panics unless the cache of `factor_source_id` on `network_id` is full
    /// for every preset.
    pub fn assert_is_full(&self, network_id: NetworkID, factor_source_id: FactorSourceIDFromHash)
        requires
            self.spec_is_full(network_id, factor_source_id),
    {
        let full = self.is_full(network_id, factor_source_id);
        assert(full);
    }

    /// The derivation entity index of the last instance under `fsid` and `p`.
    pub fn max_index_for(&self, factor_source_id: FactorSourceIDFromHash, agnostic_path: IndexAgnosticPath) -> (r: Option<HDPathComponent>)
        ensures
            match r {
                Some(i) => self.spec_model().0.contains_key((factor_source_id, agnostic_path))
                    && i == self.spec_model().0[(factor_source_id, agnostic_path)].last().spec_path().index,
                None => !self.spec_model().0.contains_key((factor_source_id, agnostic_path)),
            },
    {
        proof {
            use_type_invariant(self);
        }
        match self.map.get(&factor_source_id) {
            Some(inner) => match inner.get(&agnostic_path) {
                Some(fi) => {
                    assert(self.lookup(factor_source_id, agnostic_path) is Some);
                    match fi.last() {
                        Some(last) => Some(last.derivation_entity_index()),
                        None => None,
                    }
                },
                None => None,
            },
            None => None,
        }
    }
}


impl Clone for FactorInstancesCache {
    /// A copy with the same content, in the same order.
    fn clone(&self) -> (c: Self)
        ensures
            c.spec_model() == self.spec_model(),
    {
        proof {
            use_type_invariant(self);
        }
        let _ = self.map.has_unique_keys();
        let ghost es = self.map@;
        let mut map: OrderedMap<FactorSourceIDFromHash, InstancesPerPath> = OrderedMap::new();
        let n = self.map.len();
        let mut i: usize = 0;
        while i < n
            invariant
                i <= n,
                n == es.len(),
                es == self.map@,
                crate::types::ordered_map::unique_keys(es),
                crate::types::ordered_map::entries_keys(map@) == crate::types::ordered_map::entries_keys(es.take(i as int)),
                forall|f: FactorSourceIDFromHash, p: IndexAgnosticPath| #[trigger] map_lookup(map, f, p) == (if entries_have_key(es.take(i as int), f) { map_lookup(self.map, f, p) } else { None }),
                forall|f: FactorSourceIDFromHash| #[trigger] map.spec_has(f) == entries_have_key(es.take(i as int), f),
            decreases n - i,
        {
            let e = self.map.get_index(i);
            let inner = clone_paths(&e.1);
            let ghost map0 = map;
            proof {
                crate::types::ordered_map::lemma_entries_get_at(es, i as int);
                let t0 = es.take(i as int);
                let t1 = es.take(i + 1);
                assert(t1 =~= t0.push(es[i as int]));
                assert(!entries_have_key(t0, e.0)) by {
                    if entries_have_key(t0, e.0) {
                        let k = choose|k: int| 0 <= k < t0.len() && t0[k].0 == e.0;
                        assert(es[k].0 == es[i as int].0);
                    }
                }
                assert forall|q: FactorSourceIDFromHash| #[trigger] entries_have_key(t1, q) == (entries_have_key(t0, q) || q == e.0) by {
                    if entries_have_key(t1, q) {
                        let k = choose|k: int| 0 <= k < t1.len() && t1[k].0 == q;
                        if k < i {
                            assert(t0[k].0 == q);
                        }
                    }
                    if entries_have_key(t0, q) {
                        let k = choose|k: int| 0 <= k < t0.len() && t0[k].0 == q;
                        assert(t1[k].0 == q);
                    }
                    if q == e.0 {
                        assert(t1[i as int].0 == q);
                    }
                }
            }
            assert(!map0.spec_has(e.0));
            map.insert(e.0, inner);
            proof {
                let t0 = es.take(i as int);
                let t1 = es.take(i + 1);
                assert(map@ == map0@.push((e.0, inner)));
                assert(crate::types::ordered_map::entries_keys(map@) =~= crate::types::ordered_map::entries_keys(map0@).push(e.0));
                assert(crate::types::ordered_map::entries_keys(t1) =~= crate::types::ordered_map::entries_keys(t0).push(e.0));
                assert(crate::types::ordered_map::entries_keys(map@) =~= crate::types::ordered_map::entries_keys(t1));
                assert forall|f: FactorSourceIDFromHash, p: IndexAgnosticPath| #[trigger] map_lookup(map, f, p) == (if entries_have_key(t1, f) { map_lookup(self.map, f, p) } else { None }) by {
                    assert(entries_have_key(t1, f) == (entries_have_key(t0, f) || f == e.0));
                    if f != e.0 {
                        assert(map.spec_get(f) == map0.spec_get(f));
                        assert(map_lookup(map0, f, p) == (if entries_have_key(t0, f) { map_lookup(self.map, f, p) } else { None }));
                    } else {
                        assert(map.spec_get(f) == Some(inner));
                        assert(self.map.spec_get(f) == Some(e.1));
                        assert(path_lookup(inner, p) == path_lookup(e.1, p));
                    }
                }
            }
            i = i + 1;
        }
        assert(es.take(n as int) =~= es);
        assert forall|f: FactorSourceIDFromHash, p: IndexAgnosticPath| #[trigger] map_lookup(map, f, p) == map_lookup(self.map, f, p) by {
            if !entries_have_key(es, f) {
                assert(!self.map.spec_has(f));
            }
        }
        let c = FactorInstancesCache { map };
        assert(c.spec_model().0 =~= self.spec_model().0);
        assert(c.spec_model().1 =~= self.spec_model().1);
        c
    }
}

impl Default for FactorInstancesCache {
    /// An empty cache.
    fn default() -> (c: Self)
        ensures
            c.spec_model().0 == Map::<(FactorSourceIDFromHash, IndexAgnosticPath), Seq<HierarchicalDeterministicFactorInstance>>::empty(),
            c.spec_model().1 == Set::<FactorSourceIDFromHash>::empty(),
    {
        FactorInstancesCache::new()
    }
}

/// A copy of `pf`, in the same order.
pub fn clone_per_factor(pf: &InstancesPerFactorSource) -> (r: InstancesPerFactorSource)
    ensures
        crate::types::ordered_map::entries_keys(r@) == crate::types::ordered_map::entries_keys(pf@),
        forall|f: FactorSourceIDFromHash| #[trigger] r.spec_has(f) == pf.spec_has(f),
        forall|f: FactorSourceIDFromHash| #[trigger] r.spec_get(f) is Some ==> pf.spec_get(f) is Some && r.spec_get(f).unwrap()@ == pf.spec_get(f).unwrap()@,
{
    let _ = pf.has_unique_keys();
    let ghost es = pf@;
    let mut r: InstancesPerFactorSource = OrderedMap::new();
    let n = pf.len();
    let mut i: usize = 0;
    while i < n
        invariant
            i <= n,
            n == es.len(),
            es == pf@,
            crate::types::ordered_map::unique_keys(es),
            crate::types::ordered_map::entries_keys(r@) == crate::types::ordered_map::entries_keys(es.take(i as int)),
            forall|f: FactorSourceIDFromHash| #[trigger] r.spec_has(f) == entries_have_key(es.take(i as int), f),
            forall|f: FactorSourceIDFromHash| #[trigger] r.spec_get(f) is Some ==> pf.spec_get(f) is Some && r.spec_get(f).unwrap()@ == pf.spec_get(f).unwrap()@,
        decreases n - i,
    {
        let e = pf.get_index(i);
        let ghost r0 = r;
        proof {
            crate::types::ordered_map::lemma_entries_get_at(es, i as int);
            let t0 = es.take(i as int);
            let t1 = es.take(i + 1);
            assert(t1 =~= t0.push(es[i as int]));
            assert(!entries_have_key(t0, e.0)) by {
                if entries_have_key(t0, e.0) {
                    let k = choose|k: int| 0 <= k < t0.len() && t0[k].0 == e.0;
                    assert(es[k].0 == es[i as int].0);
                }
            }
            assert forall|q: FactorSourceIDFromHash| #[trigger] entries_have_key(t1, q) == (entries_have_key(t0, q) || q == e.0) by {
                if entries_have_key(t1, q) {
                    let k = choose|k: int| 0 <= k < t1.len() && t1[k].0 == q;
                    if k < i {
                        assert(t0[k].0 == q);
                    }
                }
                if entries_have_key(t0, q) {
                    let k = choose|k: int| 0 <= k < t0.len() && t0[k].0 == q;
                    assert(t1[k].0 == q);
                }
                if q == e.0 {
                    assert(t1[i as int].0 == q);
                }
            }
        }
        assert(!r0.spec_has(e.0));
        let c = e.1.clone();
        r.insert(e.0, c);
        proof {
            let t0 = es.take(i as int);
            let t1 = es.take(i + 1);
            assert(r@ == r0@.push((e.0, c)));
            assert(crate::types::ordered_map::entries_keys(r@) =~= crate::types::ordered_map::entries_keys(r0@).push(e.0));
            assert(crate::types::ordered_map::entries_keys(t1) =~= crate::types::ordered_map::entries_keys(t0).push(e.0));
            assert(crate::types::ordered_map::entries_keys(r@) =~= crate::types::ordered_map::entries_keys(t1));
            assert forall|f: FactorSourceIDFromHash| #[trigger] r.spec_get(f) is Some implies pf.spec_get(f) is Some && r.spec_get(f).unwrap()@ == pf.spec_get(f).unwrap()@ by {
                if f != e.0 {
                    assert(r.spec_get(f) == r0.spec_get(f));
                }
            }
        }
        i = i + 1;
    }
    assert(es.take(n as int) =~= es);
    r
}

impl CachedInstancesWithQuantitiesOutcome {
    /// The instances, if the request was satisfied.
    pub fn satisfied(&self) -> (r: Option<InstancesPerFactorSource>)
        ensures
            match *self {
                CachedInstancesWithQuantitiesOutcome::Satisfied(pf) => r matches Some(c) && crate::types::ordered_map::entries_keys(c@) == crate::types::ordered_map::entries_keys(pf@)
                    && forall|f: FactorSourceIDFromHash| #[trigger] c.spec_get(f) is Some ==> pf.spec_get(f) is Some && c.spec_get(f).unwrap()@ == pf.spec_get(f).unwrap()@,
                CachedInstancesWithQuantitiesOutcome::NotSatisfied { .. } => r is None,
            },
    {
        match self {
            CachedInstancesWithQuantitiesOutcome::Satisfied(pf) => Some(clone_per_factor(pf)),
            CachedInstancesWithQuantitiesOutcome::NotSatisfied { .. } => None,
        }
    }

    /// The quantities to derive; the request must not have been satisfied.
    pub fn quantities_to_derive(&self) -> (r: Result<QuantitiesPerFactorSource, CommonError>)
        requires
            self is NotSatisfied,
        ensures
            match *self {
                CachedInstancesWithQuantitiesOutcome::NotSatisfied { pf_pdp_qty_to_derive, .. } => r matches Ok(q) && crate::types::ordered_map::entries_keys(q@) == crate::types::ordered_map::entries_keys(pf_pdp_qty_to_derive@)
                    && q@.len() == pf_pdp_qty_to_derive@.len() && forall|i: int| 0 <= i < q@.len() ==> (#[trigger] q@[i]).1@ == pf_pdp_qty_to_derive@[i].1@,
                _ => false,
            },
    {
        match self {
            CachedInstancesWithQuantitiesOutcome::NotSatisfied { pf_pdp_qty_to_derive, .. } => Ok(copy_quantities(pf_pdp_qty_to_derive)),
            CachedInstancesWithQuantitiesOutcome::Satisfied(_) => Err(CommonError::FactorSourceDiscrepancy),
        }
    }

    /// The instances found; the request must not have been satisfied.
    pub fn partially_satisfied(self) -> (r: Result<InstancesPerFactorSource, CommonError>)
        requires
            self is NotSatisfied,
        ensures
            match self {
                CachedInstancesWithQuantitiesOutcome::NotSatisfied { partial_instances, .. } => r == Ok::<InstancesPerFactorSource, CommonError>(partial_instances),
                _ => false,
            },
    {
        match self {
            CachedInstancesWithQuantitiesOutcome::NotSatisfied { partial_instances, .. } => Ok(partial_instances),
            CachedInstancesWithQuantitiesOutcome::Satisfied(_) => Err(CommonError::FactorSourceDiscrepancy),
        }
    }
}

/// A copy of the quantities of every factor source and preset.
fn copy_quantities(q: &QuantitiesPerFactorSource) -> (r: QuantitiesPerFactorSource)
    ensures
        crate::types::ordered_map::entries_keys(r@) == crate::types::ordered_map::entries_keys(q@),
        r@.len() == q@.len(),
        forall|i: int| 0 <= i < q@.len() ==> (#[trigger] r@[i]).1@ == q@[i].1@,
{
    let _ = q.has_unique_keys();
    let mut v: Vec<(FactorSourceIDFromHash, QuantitiesPerPreset)> = Vec::new();
    let n = q.len();
    let mut i: usize = 0;
    while i < n
        invariant
            i <= n,
            n == q@.len(),
            crate::types::ordered_map::unique_keys(q@),
            v@.len() == i,
            forall|k: int| 0 <= k < i ==> (#[trigger] v@[k]).0 == q@[k].0 && v@[k].1@ == q@[k].1@,
        decreases n - i,
    {
        let e = q.get_index(i);
        let inner = e.1.copied();
        v.push((e.0, inner));
        i = i + 1;
    }
    assert(crate::types::ordered_map::entries_keys(v@) =~= crate::types::ordered_map::entries_keys(q@));
    assert(crate::types::ordered_map::unique_keys(v@)) by {
        assert forall|a: int, b: int| 0 <= a < v@.len() && 0 <= b < v@.len() && a != b implies v@[a].0 != v@[b].0 by {
            assert(v@[a].0 == q@[a].0 && v@[b].0 == q@[b].0);
        }
    }
    OrderedMap::from_entries(v)
}

/// What the quantities to derive ask for, per factor source and preset, when
/// the cache could not satisfy a request: for a preset other than the
/// requested one, exactly what tops its `n` cached instances up to
/// `CACHE_FILLING_QUANTITY` (nothing once it holds that many); for the
/// requested preset, what it lacks for the request plus a cache's worth
/// (nothing when it holds enough).
pub proof fn law_quantities_refill_the_cache(
    pf_pdp_qty_to_derive: QuantitiesPerFactorSource,
    factor_source_ids: Seq<FactorSourceIDFromHash>,
    m: CacheModel,
    network_id: NetworkID,
    q: QuantifiedDerivationPreset,
    f: FactorSourceIDFromHash,
    p: DerivationPreset,
)
    requires
        pf_pdp_matches(pf_pdp_qty_to_derive, factor_source_ids, m, network_id, q),
        factor_source_ids.contains(f),
        q.quantity + CACHE_FILLING_QUANTITY <= usize::MAX,
    ensures
        pf_pdp_qty_to_derive.spec_get(f) is Some,
        ({
            let n = model_slot(m, f, preset_path(network_id, p)).len();
            let d = pf_pdp_qty_to_derive.spec_get(f).unwrap().spec_get(p);
            &&& p != q.derivation_preset && n < CACHE_FILLING_QUANTITY ==> (d matches Some(k) && k + n == CACHE_FILLING_QUANTITY)
            &&& p != q.derivation_preset && n >= CACHE_FILLING_QUANTITY ==> d is None
            &&& p == q.derivation_preset && n < q.quantity ==> (d matches Some(k) && k + n == q.quantity + CACHE_FILLING_QUANTITY)
            &&& p == q.derivation_preset && n >= q.quantity ==> d is None
        }),
{
    assert(pdp_matches(pf_pdp_qty_to_derive.spec_get(f).unwrap(), m, f, network_id, q));
    assert(pf_pdp_qty_to_derive.spec_get(f).unwrap().spec_get(p) == qty_to_derive(m, f, network_id, q, p));
}

/// The instances the cache gives a factor source for a request are the
/// first ones cached on the requested preset's path, in order: as many as
/// requested when it holds enough, else all it holds.
pub proof fn law_instances_are_the_first_cached(
    pf: InstancesPerFactorSource,
    factor_source_ids: Seq<FactorSourceIDFromHash>,
    m: CacheModel,
    network_id: NetworkID,
    q: QuantifiedDerivationPreset,
    f: FactorSourceIDFromHash,
)
    requires
        pf_matches(pf, factor_source_ids, m, network_id, q),
        factor_source_ids.contains(f),
    ensures
        pf.spec_get(f) matches Some(given) && ({
            let slot = model_slot(m, f, preset_path(network_id, q.derivation_preset));
            &&& given@.len() == if slot.len() >= q.quantity { q.quantity as nat } else { slot.len() }
            &&& forall|i: int| 0 <= i < given@.len() ==> given@[i] == slot[i]
        }),
{
}

} // verus!
