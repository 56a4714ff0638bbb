//! A cache of factor instances that the profile is not known to use, the
//! "probably free" ones, asked for by request rather than by derivation path.
use vstd::prelude::*;
use crate::pre_derived_keys_cache::cache_outcome::{
    outcome_instances, FactorInstancesFromCache, LoadFromCacheOutcome, LoadFromCacheOutcomeForSingleRequest, OutcomeView,
    outcome_views,
};
use crate::pre_derived_keys_cache::requests::{
    all_satisfy, check_all_satisfy, request_of, unquantified, QuantifiedUnindexDerivationRequest, QuantifiedUnindexDerivationRequests,
    UnquantifiedUnindexDerivationRequest,
};
use crate::types::error::CommonError;
use crate::types::factor_instances::{append_new, FactorInstances};
use crate::types::keys::HierarchicalDeterministicFactorInstance;
use crate::types::ordered_map::{entries_get, entries_have_key, lemma_entries_get_at, unique_keys, OrderedMap};

verus! {

/// The entries of a map of instance collections, each collection taken by its view.
pub open spec fn entry_views(s: Seq<(UnquantifiedUnindexDerivationRequest, FactorInstances)>) -> Seq<
    (UnquantifiedUnindexDerivationRequest, Seq<HierarchicalDeterministicFactorInstance>),
> {
    s.map_values(|e: (UnquantifiedUnindexDerivationRequest, FactorInstances)| (e.0, e.1@))
}

/// The instances cached under `k`, if `k` has an entry.
pub open spec fn cached(
    v: Seq<(UnquantifiedUnindexDerivationRequest, Seq<HierarchicalDeterministicFactorInstance>)>,
    k: UnquantifiedUnindexDerivationRequest,
) -> Option<Seq<HierarchicalDeterministicFactorInstance>> {
    entries_get(v, k)
}

/// The instances of an optional collection; none for no collection.
pub open spec fn or_none(o: Option<Seq<HierarchicalDeterministicFactorInstance>>) -> Seq<HierarchicalDeterministicFactorInstance> {
    match o {
        Some(s) => s,
        None => Seq::empty(),
    }
}

/// The entries without the one of `k`: the last entry takes its place.
pub open spec fn without_key(
    v: Seq<(UnquantifiedUnindexDerivationRequest, Seq<HierarchicalDeterministicFactorInstance>)>,
    k: UnquantifiedUnindexDerivationRequest,
) -> Seq<(UnquantifiedUnindexDerivationRequest, Seq<HierarchicalDeterministicFactorInstance>)> {
    if entries_have_key(v, k) {
        let i = choose|i: int| 0 <= i < v.len() && v[i].0 == k;
        v.update(i, v.last()).drop_last()
    } else {
        v
    }
}

/// The derivation entity base indices of `s` strictly increase.
pub open spec fn increasing(s: Seq<HierarchicalDeterministicFactorInstance>) -> bool {
    forall|i: int, j: int|
        0 <= i < j < s.len() ==> (#[trigger] s[i]).spec_path().index.spec_base_index() < (#[trigger] s[j]).spec_path().index.spec_base_index()
}

/// `a` and `b` have no instance in common.
pub open spec fn disjoint(a: Seq<HierarchicalDeterministicFactorInstance>, b: Seq<HierarchicalDeterministicFactorInstance>) -> bool {
    forall|x: HierarchicalDeterministicFactorInstance| #[trigger] a.contains(x) ==> !b.contains(x)
}

/// Appending `t` under `k` is accepted: `t` shares no instance with what is
/// cached under `k`, and the base indices of the two together strictly
/// increase.
pub open spec fn put_allowed(
    v: Seq<(UnquantifiedUnindexDerivationRequest, Seq<HierarchicalDeterministicFactorInstance>)>,
    k: UnquantifiedUnindexDerivationRequest,
    t: Seq<HierarchicalDeterministicFactorInstance>,
) -> bool {
    &&& disjoint(or_none(cached(v, k)), t)
    &&& increasing(or_none(cached(v, k)) + t)
}

/// The entries once `t` is appended under `k`: the entry of `k` leaves its
/// place and comes back last, holding what it held followed by `t`.
pub open spec fn after_put(
    v: Seq<(UnquantifiedUnindexDerivationRequest, Seq<HierarchicalDeterministicFactorInstance>)>,
    k: UnquantifiedUnindexDerivationRequest,
    t: Seq<HierarchicalDeterministicFactorInstance>,
) -> Seq<(UnquantifiedUnindexDerivationRequest, Seq<HierarchicalDeterministicFactorInstance>)> {
    without_key(v, k).push((k, or_none(cached(v, k)) + t))
}

/// What one request takes out of the entries `v`, and the entries after it.
/// The entry of the request leaves the cache; if it held more instances than
/// requested, the rest comes back last.
pub open spec fn take_one(
    v: Seq<(UnquantifiedUnindexDerivationRequest, Seq<HierarchicalDeterministicFactorInstance>)>,
    r: QuantifiedUnindexDerivationRequest,
) -> (OutcomeView, Seq<(UnquantifiedUnindexDerivationRequest, Seq<HierarchicalDeterministicFactorInstance>)>) {
    let k = unquantified(r);
    let q = r.requested_quantity;
    let rest = without_key(v, k);
    match cached(v, k) {
        None => (OutcomeView::CacheIsEmpty(q), rest),
        Some(s) => if s.len() == 0 {
            (OutcomeView::CacheIsEmpty(q), rest)
        } else if s.len() == q {
            (OutcomeView::FullySatisfiedWithoutSpare(s), rest)
        } else if s.len() > q {
            (OutcomeView::FullySatisfiedWithSpare(s.take(q as int)), rest.push((k, s.skip(q as int))))
        } else {
            (OutcomeView::PartiallySatisfied(s, (q - s.len()) as usize), rest)
        },
    }
}

/// The request can be taken from `v`: the instances it takes answer it, and
/// the rest it puts back has strictly increasing base indices.
pub open spec fn take_one_allowed(
    v: Seq<(UnquantifiedUnindexDerivationRequest, Seq<HierarchicalDeterministicFactorInstance>)>,
    r: QuantifiedUnindexDerivationRequest,
) -> bool {
    &&& all_satisfy(outcome_instances(take_one(v, r).0), unquantified(r))
    &&& (cached(v, unquantified(r)) matches Some(s) ==> (s.len() > r.requested_quantity ==> increasing(
        s.skip(r.requested_quantity as int),
    )))
}

/// The outcomes of the requests `rs` taken in order from `v`, and the
/// entries after them.
pub open spec fn take_all(
    v: Seq<(UnquantifiedUnindexDerivationRequest, Seq<HierarchicalDeterministicFactorInstance>)>,
    rs: Seq<QuantifiedUnindexDerivationRequest>,
) -> (Seq<(QuantifiedUnindexDerivationRequest, OutcomeView)>, Seq<(UnquantifiedUnindexDerivationRequest, Seq<HierarchicalDeterministicFactorInstance>)>)
    decreases rs.len(),
{
    if rs.len() == 0 {
        (Seq::empty(), v)
    } else {
        let before = take_all(v, rs.drop_last());
        let step = take_one(before.1, rs.last());
        (before.0.push((rs.last(), step.0)), step.1)
    }
}

/// Each of the requests `rs`, taken in order from `v`, can be taken.
pub open spec fn take_allowed(
    v: Seq<(UnquantifiedUnindexDerivationRequest, Seq<HierarchicalDeterministicFactorInstance>)>,
    rs: Seq<QuantifiedUnindexDerivationRequest>,
) -> bool
    decreases rs.len(),
{
    rs.len() == 0 || (take_allowed(v, rs.drop_last()) && take_one_allowed(take_all(v, rs.drop_last()).1, rs.last()))
}

/// The instances of `t` under request `k`, in order.
pub open spec fn group_of(t: Seq<HierarchicalDeterministicFactorInstance>, k: UnquantifiedUnindexDerivationRequest) -> Seq<
    HierarchicalDeterministicFactorInstance,
>
    decreases t.len(),
{
    if t.len() == 0 {
        Seq::empty()
    } else if request_of(t.last()) == k {
        group_of(t.drop_last(), k).push(t.last())
    } else {
        group_of(t.drop_last(), k)
    }
}

/// The instances of all entries of `v`, entry after entry.
pub open spec fn flattened(v: Seq<(UnquantifiedUnindexDerivationRequest, Seq<HierarchicalDeterministicFactorInstance>)>) -> Seq<
    HierarchicalDeterministicFactorInstance,
>
    decreases v.len(),
{
    if v.len() == 0 {
        Seq::empty()
    } else {
        flattened(v.drop_last()) + v.last().1
    }
}

/// With distinct keys, the views of the entries have the same keys and each
/// value's view under them.
proof fn lemma_entry_views(s: Seq<(UnquantifiedUnindexDerivationRequest, FactorInstances)>)
    requires
        unique_keys(s),
    ensures
        unique_keys(entry_views(s)),
        entry_views(s).len() == s.len(),
        forall|k: UnquantifiedUnindexDerivationRequest| #[trigger] entries_have_key(entry_views(s), k) == entries_have_key(s, k),
        forall|k: UnquantifiedUnindexDerivationRequest| #[trigger] entries_get(entry_views(s), k) == match entries_get(s, k) {
            Some(f) => Some(f@),
            None => None::<Seq<HierarchicalDeterministicFactorInstance>>,
        },
{
    let w = entry_views(s);
    assert forall|k: UnquantifiedUnindexDerivationRequest| #[trigger] entries_have_key(w, k) == entries_have_key(s, k) by {
        if entries_have_key(s, k) {
            let j = choose|j: int| 0 <= j < s.len() && s[j].0 == k;
            assert(w[j].0 == k);
        }
        if entries_have_key(w, k) {
            let j = choose|j: int| 0 <= j < w.len() && w[j].0 == k;
            assert(s[j].0 == k);
        }
    }
    assert forall|k: UnquantifiedUnindexDerivationRequest| #[trigger] entries_get(w, k) == match entries_get(s, k) {
        Some(f) => Some(f@),
        None => None::<Seq<HierarchicalDeterministicFactorInstance>>,
    } by {
        if entries_have_key(s, k) {
            let j = choose|j: int| 0 <= j < s.len() && s[j].0 == k;
            lemma_entries_get_at(s, j);
            assert(w[j] == (s[j].0, s[j].1@));
            lemma_entries_get_at(w, j);
        }
    }
}

/// With distinct keys, removing the entry at `i` is removing the entry of its key.
proof fn lemma_without_at(
    v: Seq<(UnquantifiedUnindexDerivationRequest, Seq<HierarchicalDeterministicFactorInstance>)>,
    i: int,
)
    requires
        unique_keys(v),
        0 <= i < v.len(),
    ensures
        without_key(v, v[i].0) == v.update(i, v.last()).drop_last(),
{
    assert(entries_have_key(v, v[i].0));
    let j = choose|j: int| 0 <= j < v.len() && v[j].0 == v[i].0;
    assert(j == i);
}

/// The instances grouped under a request come from the sequence grouped.
proof fn lemma_group_of_within(t: Seq<HierarchicalDeterministicFactorInstance>, k: UnquantifiedUnindexDerivationRequest)
    ensures
        forall|x: HierarchicalDeterministicFactorInstance| #[trigger] group_of(t, k).contains(x) ==> t.contains(x),
    decreases t.len(),
{
    if t.len() > 0 {
        lemma_group_of_within(t.drop_last(), k);
        assert forall|x: HierarchicalDeterministicFactorInstance| #[trigger] group_of(t, k).contains(x) implies t.contains(x) by {
            let g = group_of(t.drop_last(), k);
            if g.contains(x) {
                let j = choose|j: int| 0 <= j < t.drop_last().len() && t.drop_last()[j] == x;
                assert(t[j] == x);
            } else {
                assert(t[t.len() - 1] == x);
            }
        }
    }
}

/// Each prefix of requests that can be taken can be taken.
proof fn lemma_take_allowed_prefix(
    v: Seq<(UnquantifiedUnindexDerivationRequest, Seq<HierarchicalDeterministicFactorInstance>)>,
    rs: Seq<QuantifiedUnindexDerivationRequest>,
    m: int,
)
    requires
        0 <= m <= rs.len(),
        take_allowed(v, rs.take(m)),
    ensures
        forall|n: int| 0 <= n <= m ==> #[trigger] take_allowed(v, rs.take(n)),
    decreases m,
{
    if m > 0 {
        assert(rs.take(m).drop_last() =~= rs.take(m - 1));
        lemma_take_allowed_prefix(v, rs, m - 1);
    }
}

/// Removing the entry of `k` keeps the keys distinct and every other entry.
proof fn lemma_without_key(
    v: Seq<(UnquantifiedUnindexDerivationRequest, Seq<HierarchicalDeterministicFactorInstance>)>,
    k: UnquantifiedUnindexDerivationRequest,
)
    requires
        unique_keys(v),
    ensures
        unique_keys(without_key(v, k)),
        !entries_have_key(without_key(v, k), k),
        forall|k2: UnquantifiedUnindexDerivationRequest| k2 != k ==> #[trigger] entries_get(without_key(v, k), k2) == entries_get(v, k2),
{
    if entries_have_key(v, k) {
        let i = choose|i: int| 0 <= i < v.len() && v[i].0 == k;
        let n = v.len() - 1;
        let t = without_key(v, k);
        assert(t == v.update(i, v.last()).drop_last());
        assert forall|a: int, b: int| 0 <= a < t.len() && 0 <= b < t.len() && a != b implies t[a].0 != t[b].0 by {
            let a2 = if a == i { n } else { a };
            let b2 = if b == i { n } else { b };
            assert(t[a] == v[a2] && t[b] == v[b2]);
        }
        assert(!entries_have_key(t, k)) by {
            if entries_have_key(t, k) {
                let j = choose|j: int| 0 <= j < t.len() && t[j].0 == k;
                let j2 = if j == i { n } else { j };
                assert(t[j] == v[j2]);
            }
        }
        assert forall|k2: UnquantifiedUnindexDerivationRequest| k2 != k implies #[trigger] entries_get(t, k2) == entries_get(v, k2) by {
            if entries_have_key(v, k2) {
                let j = choose|j: int| 0 <= j < v.len() && v[j].0 == k2;
                lemma_entries_get_at(v, j);
                let j3 = if j == n { i } else { j };
                assert(t[j3] == v[j]);
                lemma_entries_get_at(t, j3);
            }
            if entries_have_key(t, k2) {
                let j = choose|j: int| 0 <= j < t.len() && t[j].0 == k2;
                let j2 = if j == i { n } else { j };
                assert(t[j] == v[j2]);
            }
        }
    }
}

/// An entry for a new key comes last and leaves the others as they were.
proof fn lemma_push_new_key(
    v: Seq<(UnquantifiedUnindexDerivationRequest, Seq<HierarchicalDeterministicFactorInstance>)>,
    k: UnquantifiedUnindexDerivationRequest,
    s: Seq<HierarchicalDeterministicFactorInstance>,
)
    requires
        unique_keys(v),
        !entries_have_key(v, k),
    ensures
        unique_keys(v.push((k, s))),
        entries_get(v.push((k, s)), k) == Some(s),
        forall|k2: UnquantifiedUnindexDerivationRequest| k2 != k ==> #[trigger] entries_get(v.push((k, s)), k2) == entries_get(v, k2),
{
    let t = v.push((k, s));
    assert forall|a: int, b: int| 0 <= a < t.len() && 0 <= b < t.len() && a != b implies t[a].0 != t[b].0 by {
        if a == v.len() {
            assert(v[b].0 != k);
        } else if b == v.len() {
            assert(v[a].0 != k);
        }
    }
    lemma_entries_get_at(t, v.len() as int);
    assert forall|k2: UnquantifiedUnindexDerivationRequest| k2 != k implies #[trigger] entries_get(t, k2) == entries_get(v, k2) by {
        if entries_have_key(v, k2) {
            let j = choose|j: int| 0 <= j < v.len() && v[j].0 == k2;
            lemma_entries_get_at(v, j);
            assert(t[j] == v[j]);
            lemma_entries_get_at(t, j);
        }
        if entries_have_key(t, k2) {
            let j = choose|j: int| 0 <= j < t.len() && t[j].0 == k2;
            assert(v[j] == t[j]);
        }
    }
}

/// What is put under a request is read back after what was there, and no
/// other request's instances change.
pub proof fn law_put_reads_back(
    v: Seq<(UnquantifiedUnindexDerivationRequest, Seq<HierarchicalDeterministicFactorInstance>)>,
    k: UnquantifiedUnindexDerivationRequest,
    t: Seq<HierarchicalDeterministicFactorInstance>,
)
    requires
        unique_keys(v),
    ensures
        unique_keys(after_put(v, k, t)),
        cached(after_put(v, k, t), k) == Some(or_none(cached(v, k)) + t),
        forall|k2: UnquantifiedUnindexDerivationRequest| k2 != k ==> #[trigger] cached(after_put(v, k, t), k2) == cached(v, k2),
{
    lemma_without_key(v, k);
    lemma_push_new_key(without_key(v, k), k, or_none(cached(v, k)) + t);
}

/// Taking for a request splits what was cached under it: the instances
/// taken followed by what stays under it are exactly what was there; no
/// other request's instances change.
pub proof fn law_take_partitions(
    v: Seq<(UnquantifiedUnindexDerivationRequest, Seq<HierarchicalDeterministicFactorInstance>)>,
    r: QuantifiedUnindexDerivationRequest,
)
    requires
        unique_keys(v),
    ensures
        unique_keys(take_one(v, r).1),
        outcome_instances(take_one(v, r).0) + or_none(cached(take_one(v, r).1, unquantified(r))) == or_none(
            cached(v, unquantified(r)),
        ),
        forall|k2: UnquantifiedUnindexDerivationRequest| k2 != unquantified(r) ==> #[trigger] cached(take_one(v, r).1, k2)
            == cached(v, k2),
{
    let k = unquantified(r);
    let q = r.requested_quantity;
    lemma_without_key(v, k);
    match cached(v, k) {
        Some(s) => {
            if s.len() > q && s.len() != 0 {
                lemma_push_new_key(without_key(v, k), k, s.skip(q as int));
                assert(s.take(q as int) + s.skip(q as int) =~= s);
            } else if s.len() == 0 {
                assert(Seq::<HierarchicalDeterministicFactorInstance>::empty() + Seq::<HierarchicalDeterministicFactorInstance>::empty() =~= s);
            } else {
                assert(s + Seq::<HierarchicalDeterministicFactorInstance>::empty() =~= s);
            }
        },
        None => {
            assert(Seq::<HierarchicalDeterministicFactorInstance>::empty() + Seq::<HierarchicalDeterministicFactorInstance>::empty()
                =~= Seq::<HierarchicalDeterministicFactorInstance>::empty());
        },
    }
}

/// A request whose entry holds instances is fully satisfied by taking
/// exactly when the cache is saturated for it.
pub proof fn law_saturated_iff_fully_satisfied(
    v: Seq<(UnquantifiedUnindexDerivationRequest, Seq<HierarchicalDeterministicFactorInstance>)>,
    r: QuantifiedUnindexDerivationRequest,
)
    requires
        cached(v, unquantified(r)) matches Some(s) && s.len() > 0,
    ensures
        (cached(v, unquantified(r)) matches Some(s) && s.len() >= r.requested_quantity) <==> (take_one(v, r).0 is FullySatisfiedWithSpare
            || take_one(v, r).0 is FullySatisfiedWithoutSpare),
{
}

/// Putting instances under a request that has no entry and then taking as
/// many as were put gives them back and leaves no entry.
pub proof fn law_take_what_was_put(
    v: Seq<(UnquantifiedUnindexDerivationRequest, Seq<HierarchicalDeterministicFactorInstance>)>,
    t: Seq<HierarchicalDeterministicFactorInstance>,
    r: QuantifiedUnindexDerivationRequest,
)
    requires
        unique_keys(v),
        cached(v, unquantified(r)) is None,
        t.len() > 0,
        r.requested_quantity == t.len(),
    ensures
        take_one(after_put(v, unquantified(r), t), r).0 == OutcomeView::FullySatisfiedWithoutSpare(t),
        cached(take_one(after_put(v, unquantified(r), t), r).1, unquantified(r)) is None,
{
    let k = unquantified(r);
    law_put_reads_back(v, k, t);
    assert(or_none(cached(v, k)) + t =~= t);
    lemma_without_key(after_put(v, k, t), k);
}

/// Whether the base indices of `v` strictly increase.
pub fn check_increasing(v: &Vec<HierarchicalDeterministicFactorInstance>) -> (b: bool)
    ensures
        b == increasing(v@),
{
    let mut i: usize = 1;
    if v.len() == 0 {
        return true;
    }
    while i < v.len()
        invariant
            1 <= i <= v@.len(),
            increasing(v@.take(i as int)),
        decreases v@.len() - i,
    {
        if v[i - 1].derivation_entity_base_index() >= v[i].derivation_entity_base_index() {
            proof {
                assert(!(v@[i - 1].spec_path().index.spec_base_index() < v@[i as int].spec_path().index.spec_base_index()));
            }
            return false;
        }
        proof {
            let s = v@.take(i + 1);
            assert forall|a: int, c: int| 0 <= a < c < s.len() implies (#[trigger] s[a]).spec_path().index.spec_base_index()
                < (#[trigger] s[c]).spec_path().index.spec_base_index() by {
                assert(s[a] == v@[a]);
                assert(s[c] == v@[c]);
                if c < i {
                    assert(v@.take(i as int)[a] == v@[a]);
                    assert(v@.take(i as int)[c] == v@[c]);
                } else if a < i - 1 {
                    assert(v@.take(i as int)[a] == v@[a]);
                    assert(v@.take(i as int)[i - 1] == v@[i - 1]);
                }
            }
        }
        i = i + 1;
    }
    assert(v@.take(i as int) =~= v@);
    true
}

/// Instances not known to be used by the profile, grouped by the request
/// they answer. Instances are asked for by request, never by derivation
/// path, and in a quantity: the cache may hold none of them, fewer than
/// asked for, exactly as many, or more.
pub struct PreDerivedKeysCache {
    probably_free_factor_instances: OrderedMap<UnquantifiedUnindexDerivationRequest, FactorInstances>,
}

impl View for PreDerivedKeysCache {
    type V = Seq<(UnquantifiedUnindexDerivationRequest, Seq<HierarchicalDeterministicFactorInstance>)>;

    closed spec fn view(&self) -> Seq<(UnquantifiedUnindexDerivationRequest, Seq<HierarchicalDeterministicFactorInstance>)> {
        entry_views(self.probably_free_factor_instances@)
    }
}

impl Default for PreDerivedKeysCache {
    /// An empty cache.
    fn default() -> (c: Self)
        ensures
            c@ == Seq::<(UnquantifiedUnindexDerivationRequest, Seq<HierarchicalDeterministicFactorInstance>)>::empty(),
    {
        let c = PreDerivedKeysCache { probably_free_factor_instances: OrderedMap::new() };
        assert(c@ =~= Seq::<(UnquantifiedUnindexDerivationRequest, Seq<HierarchicalDeterministicFactorInstance>)>::empty());
        c
    }
}

impl PreDerivedKeysCache {
    /// The keys of the cache are distinct.
    proof fn lemma_keys(&self, m: OrderedMap<UnquantifiedUnindexDerivationRequest, FactorInstances>)
        requires
            unique_keys(m@),
            m == self.probably_free_factor_instances,
        ensures
            unique_keys(self@),
            forall|k: UnquantifiedUnindexDerivationRequest| #[trigger] cached(self@, k) == match m.spec_get(k) {
                Some(f) => Some(f@),
                None => None::<Seq<HierarchicalDeterministicFactorInstance>>,
            },
            forall|k: UnquantifiedUnindexDerivationRequest| #[trigger] entries_have_key(self@, k) == m.spec_has(k),
    {
        lemma_entry_views(m@);
    }

    /// The keys of the cache are distinct.
    fn keys_are_distinct(&self)
        ensures
            unique_keys(self@),
    {
        let b = self.probably_free_factor_instances.has_unique_keys();
        proof {
            self.lemma_keys(self.probably_free_factor_instances);
        }
    }

    /// The instances under `key`, if it has an entry; the cache is unchanged.
    fn peek(&self, key: UnquantifiedUnindexDerivationRequest) -> (r: Option<FactorInstances>)
        ensures
            match r {
                Some(f) => cached(self@, key) == Some(f@),
                None => cached(self@, key) is None,
            },
    {
        let b = self.probably_free_factor_instances.has_unique_keys();
        proof {
            self.lemma_keys(self.probably_free_factor_instances);
        }
        match self.probably_free_factor_instances.get(&key) {
            Some(f) => Some(f.clone()),
            None => None,
        }
    }

    /// Takes the entry of `key` out of the cache, if it has one.
    fn consume(&mut self, key: UnquantifiedUnindexDerivationRequest) -> (r: Option<FactorInstances>)
        ensures
            match r {
                Some(f) => cached(old(self)@, key) == Some(f@),
                None => cached(old(self)@, key) is None,
            },
            final(self)@ == without_key(old(self)@, key),
            !entries_have_key(final(self)@, key),
    {
        let b = self.probably_free_factor_instances.has_unique_keys();
        proof {
            self.lemma_keys(self.probably_free_factor_instances);
        }
        let ghost m0 = self.probably_free_factor_instances@;
        match self.probably_free_factor_instances.index_of(&key) {
            Some(i) => {
                let e = self.probably_free_factor_instances.swap_remove_at(i);
                proof {
                    lemma_entries_get_at(m0, i as int);
                    lemma_entry_views(m0);
                    assert(entry_views(m0)[i as int].0 == key);
                    lemma_without_at(entry_views(m0), i as int);
                    assert(entry_views(m0.update(i as int, m0.last()).drop_last()) =~= entry_views(m0).update(
                        i as int,
                        entry_views(m0).last(),
                    ).drop_last());
                }
                let b2 = self.probably_free_factor_instances.has_unique_keys();
                proof {
                    self.lemma_keys(self.probably_free_factor_instances);
                }
                Some(e.1)
            },
            None => None,
        }
    }

    /// Appends `to_append` to the instances under `key`; the entry of `key`
    /// comes last.
    fn append(&mut self, key: UnquantifiedUnindexDerivationRequest, to_append: FactorInstances) -> (r: Result<(), CommonError>)
        requires
            put_allowed(old(self)@, key, to_append@),
        ensures
            r is Ok,
            final(self)@ == after_put(old(self)@, key, to_append@),
    {
        let ghost v0 = self@;
        let b0 = self.probably_free_factor_instances.has_unique_keys();
        proof {
            self.lemma_keys(self.probably_free_factor_instances);
        }
        let to_append_vec = to_append.factor_instances();
        let maybe_existing = self.consume(key);
        let mut values = match maybe_existing {
            Some(f) => f,
            None => FactorInstances::empty(),
        };
        let ghost e0 = values@;
        assert(e0 == or_none(cached(v0, key)));
        values.extend(&to_append);
        proof {
            crate::types::factor_instances::lemma_append_new_disjoint(e0, to_append@);
        }
        assert(values@ == e0 + to_append@);
        let ghost v1 = self@;
        let b = self.probably_free_factor_instances.has_unique_keys();
        proof {
            self.lemma_keys(self.probably_free_factor_instances);
            assert(!entries_have_key(v1, key)) by {
                if entries_have_key(v0, key) {
                    let i = choose|i: int| 0 <= i < v0.len() && v0[i].0 == key;
                    lemma_without_at(v0, i);
                }
            }
        }
        let ghost m1 = self.probably_free_factor_instances@;
        self.probably_free_factor_instances.insert(key, values);
        proof {
            assert(entry_views(self.probably_free_factor_instances@) =~= entry_views(m1).push((key, e0 + to_append@)));
        }
        Ok(())
    }

    /// Takes the instances for one request out of the cache: the entry of the
    /// request leaves the cache, and if it held more instances than requested,
    /// the first ones are returned and the rest goes back.
    fn take_many_instances_for_single_request(&mut self, request: &QuantifiedUnindexDerivationRequest) -> (r: Result<
        LoadFromCacheOutcomeForSingleRequest,
        CommonError,
    >)
        requires
            take_one_allowed(old(self)@, *request),
        ensures
            r matches Ok(o) && o@ == (*request, take_one(old(self)@, *request).0),
            final(self)@ == take_one(old(self)@, *request).1,
    {
        let ghost v0 = self@;
        let key = request.unquantified();
        let requested_quantity = request.requested_quantity();
        let found = self.consume(key);
        let outcome = match found {
            Some(in_cache) => {
                if in_cache.is_empty() {
                    LoadFromCacheOutcome::CacheIsEmpty {
                        number_of_instances_needed_to_fully_satisfy_request: requested_quantity,
                    }
                } else if in_cache.len() == requested_quantity {
                    LoadFromCacheOutcome::FullySatisfiedWithoutSpare(in_cache)
                } else if in_cache.len() > requested_quantity {
                    let (to_return, to_keep) = in_cache.split_at(requested_quantity);
                    proof {
                        assert(or_none(cached(self@, key)) + to_keep@ =~= to_keep@);
                    }
                    let _ = self.append(key, to_keep);
                    LoadFromCacheOutcome::FullySatisfiedWithSpare(to_return)
                } else {
                    let n = in_cache.len();
                    LoadFromCacheOutcome::PartiallySatisfied {
                        partial_from_cache: in_cache,
                        number_of_instances_needed_to_fully_satisfy_request: requested_quantity - n,
                    }
                }
            },
            None => LoadFromCacheOutcome::CacheIsEmpty {
                number_of_instances_needed_to_fully_satisfy_request: requested_quantity,
            },
        };
        Ok(LoadFromCacheOutcomeForSingleRequest::new(*request, outcome))
    }

    /// Takes the instances for each request in turn; the outcomes are
    /// returned in order, each distinct outcome once.
    fn take_many_instances_for_many_requests(&mut self, requests: &QuantifiedUnindexDerivationRequests) -> (r: Result<
        FactorInstancesFromCache,
        CommonError,
    >)
        requires
            take_allowed(old(self)@, requests@),
        ensures
            r matches Ok(f) && f@ == append_new(Seq::empty(), take_all(old(self)@, requests@).0),
            final(self)@ == take_all(old(self)@, requests@).1,
    {
        let ghost v0 = self@;
        let rs = requests.requests();
        let mut outcomes: Vec<LoadFromCacheOutcomeForSingleRequest> = Vec::new();
        let mut i: usize = 0;
        proof {
            assert(rs@.take(rs@.len() as int) =~= rs@);
            lemma_take_allowed_prefix(v0, rs@, rs@.len() as int);
            assert(rs@.take(0) =~= Seq::<QuantifiedUnindexDerivationRequest>::empty());
        }
        while i < rs.len()
            invariant
                i <= rs@.len(),
                rs@ == requests@,
                forall|n: int| 0 <= n <= rs@.len() ==> #[trigger] take_allowed(v0, rs@.take(n)),
                outcome_views(outcomes@) == take_all(v0, rs@.take(i as int)).0,
                self@ == take_all(v0, rs@.take(i as int)).1,
            decreases rs@.len() - i,
        {
            let ghost before = outcomes@;
            proof {
                assert(rs@.take(i + 1).drop_last() =~= rs@.take(i as int));
                assert(rs@.take(i + 1).last() == rs@[i as int]);
                assert(take_allowed(v0, rs@.take(i + 1)));
            }
            let outcome = self.take_many_instances_for_single_request(&rs[i]);
            match outcome {
                Ok(o) => {
                    outcomes.push(o);
                    assert(outcome_views(outcomes@) =~= outcome_views(before).push(o@));
                },
                Err(e) => {
                    return Err(e);
                },
            }
            i = i + 1;
        }
        assert(rs@.take(rs@.len() as int) =~= rs@);
        Ok(FactorInstancesFromCache::new(outcomes))
    }

    /// Takes the instances for `requests` out of the cache, request after
    /// request: each request takes the entry of its factor source, network,
    /// entity kind, key kind and key space; when that entry holds more
    /// instances than requested, as many as requested are taken from its
    /// start and the rest stays in the cache.
    pub fn take(&mut self, requests: &QuantifiedUnindexDerivationRequests) -> (r: Result<FactorInstancesFromCache, CommonError>)
        requires
            take_allowed(old(self)@, requests@),
        ensures
            r matches Ok(f) && f@ == append_new(Seq::empty(), take_all(old(self)@, requests@).0),
            final(self)@ == take_all(old(self)@, requests@).1,
            unique_keys(final(self)@),
    {
        let r = self.take_many_instances_for_many_requests(requests);
        self.keys_are_distinct();
        r
    }

    /// Appends `instances` to the instances cached under `key`, or caches
    /// them under it; the entry of `key` comes last.
    pub fn put(&mut self, key: UnquantifiedUnindexDerivationRequest, instances: FactorInstances) -> (r: Result<(), CommonError>)
        requires
            put_allowed(old(self)@, key, instances@),
        ensures
            r is Ok,
            final(self)@ == after_put(old(self)@, key, instances@),
            unique_keys(final(self)@),
    {
        let r = self.append(key, instances);
        self.keys_are_distinct();
        r
    }

    /// Whether `instances` can be put under `key`: none of them is cached
    /// under `key` yet, and the base indices of what is cached there followed
    /// by them strictly increase.
    pub fn can_put(&self, key: UnquantifiedUnindexDerivationRequest, instances: &FactorInstances) -> (b: bool)
        ensures
            b == put_allowed(self@, key, instances@),
    {
        let t = instances.factor_instances();
        let existing = match self.peek(key) {
            Some(f) => f.factor_instances(),
            None => Vec::new(),
        };
        let ghost e = or_none(cached(self@, key));
        assert(existing@ == e);
        let mut i: usize = 0;
        while i < existing.len()
            invariant
                i <= existing@.len(),
                existing@ == e,
                e == or_none(cached(self@, key)),
                t@ == instances@,
                forall|j: int| 0 <= j < i ==> !instances@.contains(#[trigger] e[j]),
            decreases existing@.len() - i,
        {
            if instances.contains(&existing[i]) {
                proof {
                    assert(existing@[i as int] == e[i as int]);
                    assert(e.contains(e[i as int]));
                    assert(instances@.contains(e[i as int]));
                    assert(!disjoint(e, instances@));
                    assert(!put_allowed(self@, key, instances@));
                }
                return false;
            }
            i = i + 1;
        }
        proof {
            assert forall|x: HierarchicalDeterministicFactorInstance| #[trigger] e.contains(x) implies !instances@.contains(x) by {
                let j = choose|j: int| 0 <= j < e.len() && e[j] == x;
            }
        }
        let mut all = existing;
        let mut j: usize = 0;
        while j < t.len()
            invariant
                j <= t@.len(),
                all@ == e + t@.take(j as int),
            decreases t@.len() - j,
        {
            all.push(t[j]);
            assert(e + t@.take(j + 1) =~= (e + t@.take(j as int)).push(t@[j as int]));
            j = j + 1;
        }
        assert(t@.take(j as int) =~= t@);
        check_increasing(&all)
    }

    /// Whether the request `r` can be taken: the instances it takes answer it,
    /// and what it leaves under its entry has strictly increasing base
    /// indices.
    pub fn can_take_one(&self, r: &QuantifiedUnindexDerivationRequest) -> (b: bool)
        ensures
            b == take_one_allowed(self@, *r),
    {
        let key = r.unquantified();
        let q = r.requested_quantity();
        match self.peek(key) {
            None => true,
            Some(f) => {
                let v = f.factor_instances();
                if v.len() == 0 {
                    true
                } else if v.len() <= q {
                    check_all_satisfy(&v, key)
                } else {
                    let mut head: Vec<HierarchicalDeterministicFactorInstance> = Vec::new();
                    let mut tail: Vec<HierarchicalDeterministicFactorInstance> = Vec::new();
                    let mut i: usize = 0;
                    while i < v.len()
                        invariant
                            i <= v@.len(),
                            q < v@.len(),
                            i <= q ==> head@ == v@.take(i as int) && tail@.len() == 0,
                            i > q ==> head@ == v@.take(q as int) && tail@ == v@.subrange(q as int, i as int),
                        decreases v@.len() - i,
                    {
                        if i < q {
                            head.push(v[i]);
                            assert(v@.take(i + 1) =~= v@.take(i as int).push(v@[i as int]));
                        } else {
                            tail.push(v[i]);
                            assert(v@.subrange(q as int, i + 1) =~= v@.subrange(q as int, i as int).push(v@[i as int]));
                        }
                        i = i + 1;
                    }
                    assert(tail@ =~= v@.skip(q as int));
                    check_all_satisfy(&head, key) && check_increasing(&tail)
                }
            },
        }
    }

    /// Whether the cache holds at least as many instances for `req` as it
    /// asks for.
    pub fn is_saturated_for(&self, req: &QuantifiedUnindexDerivationRequest) -> (b: bool)
        ensures
            b == (cached(self@, unquantified(*req)) matches Some(s) && s.len() >= req.requested_quantity),
    {
        let key = req.unquantified();
        match self.peek(key) {
            Some(existing) => existing.len() >= req.requested_quantity(),
            None => false,
        }
    }

    /// The cache of `probably_free_factor_instances`, grouped by the request
    /// each answers, each group in the order of the instances.
    pub fn new(probably_free_factor_instances: FactorInstances) -> (c: Self)
        ensures
            unique_keys(c@),
            forall|k: UnquantifiedUnindexDerivationRequest| #[trigger] cached(c@, k) == if group_of(
                probably_free_factor_instances@,
                k,
            ).len() > 0 {
                Some(group_of(probably_free_factor_instances@, k))
            } else {
                None
            },
    {
        let v = probably_free_factor_instances.factor_instances();
        let ghost t = v@;
        let mut m: OrderedMap<UnquantifiedUnindexDerivationRequest, FactorInstances> = OrderedMap::new();
        let mut i: usize = 0;
        while i < v.len()
            invariant
                i <= t.len(),
                v@ == t,
                t.no_duplicates(),
                forall|k: UnquantifiedUnindexDerivationRequest| #[trigger] m.spec_get(k) == None::<FactorInstances>
                    <==> group_of(t.take(i as int), k).len() == 0,
                forall|k: UnquantifiedUnindexDerivationRequest| #[trigger] m.spec_get(k) matches Some(x) ==> x@ == group_of(
                    t.take(i as int),
                    k,
                ),
            decreases t.len() - i,
        {
            let f = v[i];
            let k = UnquantifiedUnindexDerivationRequest::from_instance(&f);
            proof {
                assert(t.take(i + 1).drop_last() =~= t.take(i as int));
                assert(t.take(i + 1).last() == f);
                lemma_group_of_within(t.take(i as int), k);
                assert(!t.take(i as int).contains(f)) by {
                    if t.take(i as int).contains(f) {
                        let j = choose|j: int| 0 <= j < i && t.take(i as int)[j] == f;
                        assert(t[j] == t[i as int]);
                    }
                }
            }
            let ghost m0 = m;
            match m.index_of(&k) {
                Some(j) => {
                    let mut x = m.replace_at(j, FactorInstances::empty());
                    x.push(f);
                    m.replace_at(j, x);
                },
                None => {
                    m.insert(k, FactorInstances::just(f));
                    assert(seq![f] =~= Seq::<HierarchicalDeterministicFactorInstance>::empty().push(f));
                },
            }
            proof {
                assert forall|k2: UnquantifiedUnindexDerivationRequest| k2 != k implies #[trigger] m.spec_get(k2) == m0.spec_get(k2) by {}
            }
            i = i + 1;
        }
        assert(t.take(t.len() as int) =~= t);
        let c = PreDerivedKeysCache { probably_free_factor_instances: m };
        let b = c.probably_free_factor_instances.has_unique_keys();
        proof {
            c.lemma_keys(c.probably_free_factor_instances);
        }
        c
    }

    /// All cached instances, entry after entry, each once.
    pub fn all_factor_instances(&self) -> (r: FactorInstances)
        ensures
            r@ == append_new(Seq::empty(), flattened(self@)),
    {
        let ghost w = self@;
        let mut r = FactorInstances::empty();
        let n = self.probably_free_factor_instances.len();
        let mut i: usize = 0;
        while i < n
            invariant
                i <= n,
                n == self.probably_free_factor_instances@.len(),
                w == entry_views(self.probably_free_factor_instances@),
                r@ == append_new(Seq::empty(), flattened(w.take(i as int))),
            decreases n - i,
        {
            let e = self.probably_free_factor_instances.get_index(i);
            let ghost r0 = r@;
            r.extend(&e.1);
            proof {
                assert(w.take(i + 1).drop_last() =~= w.take(i as int));
                assert(w.take(i + 1).last() == w[i as int]);
                assert(w[i as int].1 == e.1@);
                crate::factor_instances_provider::mixed::lemma_append_new_concat(
                    Seq::<HierarchicalDeterministicFactorInstance>::empty(),
                    flattened(w.take(i as int)),
                    e.1@,
                );
            }
            i = i + 1;
        }
        assert(w.take(n as int) =~= w);
        r
    }

    /// The number of distinct cached instances.
    pub fn total_number_of_factor_instances(&self) -> (n: usize)
        ensures
            n == append_new(Seq::empty(), flattened(self@)).len(),
    {
        self.all_factor_instances().len()
    }

    /// A copy of the cache.
    pub fn clone_snapshot(&self) -> (c: Self)
        ensures
            c@ == self@,
            unique_keys(c@),
    {
        self.keys_are_distinct();
        let b = self.probably_free_factor_instances.has_unique_keys();
        let ghost s = self.probably_free_factor_instances@;
        let mut entries: Vec<(UnquantifiedUnindexDerivationRequest, FactorInstances)> = Vec::new();
        let n = self.probably_free_factor_instances.len();
        let mut i: usize = 0;
        while i < n
            invariant
                i <= n,
                n == s.len(),
                s == self.probably_free_factor_instances@,
                entries@.len() == i,
                forall|j: int| 0 <= j < i ==> (#[trigger] entries@[j]).0 == s[j].0 && entries@[j].1@ == s[j].1@,
            decreases n - i,
        {
            let e = self.probably_free_factor_instances.get_index(i);
            entries.push((e.0, e.1.clone()));
            i = i + 1;
        }
        proof {
            assert(unique_keys(entries@)) by {
                assert forall|a: int, c: int| 0 <= a < entries@.len() && 0 <= c < entries@.len() && a != c implies entries@[a].0
                    != entries@[c].0 by {
                    assert(entries@[a].0 == s[a].0 && entries@[c].0 == s[c].0);
                }
            }
        }
        let c = PreDerivedKeysCache { probably_free_factor_instances: OrderedMap::from_entries(entries) };
        assert(c@ =~= self@);
        c
    }
}

} // verus!
