//! What becomes of newly derived instances: grouped by the request each
//! answers, some are used directly for the purpose and the rest is cached.
use vstd::prelude::*;
use crate::factor_instances_provider::derive_more::{derive_more_request, spec_use_directly, DeriveMore, FactorInstancesRequestPurpose};
use crate::factor_instances_provider::newly_derived::NewlyDerived;
use crate::pre_derived_keys_cache::pre_derived_keys_cache::{after_put, group_of, put_allowed, PreDerivedKeysCache};
use crate::pre_derived_keys_cache::requests::{all_satisfy, instance_satisfies, request_of, UnquantifiedUnindexDerivationRequest};
use crate::types::factor_instances::{append_new, lemma_append_new, lemma_take_one_more_contains, FactorInstances};
use crate::types::keys::HierarchicalDeterministicFactorInstance;

verus! {

/// Whether new instances were derived.
#[derive(Clone, Copy, Debug, PartialEq, Eq, Hash)]
pub struct DidDeriveNewFactorInstances(pub bool);

/// The requests the instances of `t` answer, each once, in order of first answer.
pub open spec fn requests_answered(t: Seq<HierarchicalDeterministicFactorInstance>) -> Seq<UnquantifiedUnindexDerivationRequest> {
    append_new(Seq::empty(), t.map_values(|f: HierarchicalDeterministicFactorInstance| request_of(f)))
}

/// The first request of `reqs` that is for `k`, if any.
pub open spec fn first_match(reqs: Seq<DeriveMore>, k: UnquantifiedUnindexDerivationRequest) -> Option<DeriveMore>
    decreases reqs.len(),
{
    if reqs.len() == 0 {
        None
    } else if derive_more_request(reqs[0]) == k {
        Some(reqs[0])
    } else {
        first_match(reqs.skip(1), k)
    }
}

/// What becomes of the instances of `t` answering `k`: the request, those to
/// cache and those to use directly. Where a request of `reqs` was for `k`, as
/// many as `purpose` uses directly come first and are used directly; else
/// all are cached.
pub open spec fn derived_split(
    purpose: FactorInstancesRequestPurpose,
    reqs: Seq<DeriveMore>,
    t: Seq<HierarchicalDeterministicFactorInstance>,
    k: UnquantifiedUnindexDerivationRequest,
) -> (UnquantifiedUnindexDerivationRequest, Seq<HierarchicalDeterministicFactorInstance>, Seq<HierarchicalDeterministicFactorInstance>) {
    let g = group_of(t, k);
    match first_match(reqs, k) {
        Some(d) => (k, g.skip(spec_use_directly(d, purpose)), g.take(spec_use_directly(d, purpose))),
        None => (k, g, Seq::empty()),
    }
}

/// Each request a request of `reqs` was for, and that `t` answers, got more
/// instances than `purpose` uses directly, so that some are left to cache.
pub open spec fn split_fits(
    purpose: FactorInstancesRequestPurpose,
    reqs: Seq<DeriveMore>,
    t: Seq<HierarchicalDeterministicFactorInstance>,
) -> bool {
    forall|k: UnquantifiedUnindexDerivationRequest| #[trigger] requests_answered(t).contains(k) ==> (first_match(reqs, k) matches Some(d)
        ==> spec_use_directly(d, purpose) < group_of(t, k).len())
}

/// The views of `s`, in order.
pub open spec fn newly_derived_views(s: Seq<NewlyDerived>) -> Seq<
    (UnquantifiedUnindexDerivationRequest, Seq<HierarchicalDeterministicFactorInstance>, Seq<HierarchicalDeterministicFactorInstance>),
> {
    s.map_values(|n: NewlyDerived| n@)
}

/// What becomes of the instances of `t`, request after request in order of
/// first answer.
pub open spec fn planned_newly_derived(
    purpose: FactorInstancesRequestPurpose,
    reqs: Seq<DeriveMore>,
    t: Seq<HierarchicalDeterministicFactorInstance>,
) -> Seq<(UnquantifiedUnindexDerivationRequest, Seq<HierarchicalDeterministicFactorInstance>, Seq<HierarchicalDeterministicFactorInstance>)> {
    Seq::new(requests_answered(t).len(), |i: int| derived_split(purpose, reqs, t, requests_answered(t)[i]))
}

/// The cache entries `v` after what each of `nds` caches was put, in order.
pub open spec fn cache_after(
    v: Seq<(UnquantifiedUnindexDerivationRequest, Seq<HierarchicalDeterministicFactorInstance>)>,
    nds: Seq<(UnquantifiedUnindexDerivationRequest, Seq<HierarchicalDeterministicFactorInstance>, Seq<HierarchicalDeterministicFactorInstance>)>,
) -> Seq<(UnquantifiedUnindexDerivationRequest, Seq<HierarchicalDeterministicFactorInstance>)>
    decreases nds.len(),
{
    if nds.len() == 0 {
        v
    } else {
        after_put(cache_after(v, nds.drop_last()), nds.last().0, nds.last().1)
    }
}

/// What each of `nds` caches can be put, in order, starting from `v`.
pub open spec fn puts_allowed(
    v: Seq<(UnquantifiedUnindexDerivationRequest, Seq<HierarchicalDeterministicFactorInstance>)>,
    nds: Seq<(UnquantifiedUnindexDerivationRequest, Seq<HierarchicalDeterministicFactorInstance>, Seq<HierarchicalDeterministicFactorInstance>)>,
) -> bool
    decreases nds.len(),
{
    nds.len() == 0 || (puts_allowed(v, nds.drop_last()) && put_allowed(cache_after(v, nds.drop_last()), nds.last().0, nds.last().1))
}

/// `s` followed by what each of `nds` uses directly, in order, each instance once.
pub open spec fn used_after(
    s: Seq<HierarchicalDeterministicFactorInstance>,
    nds: Seq<(UnquantifiedUnindexDerivationRequest, Seq<HierarchicalDeterministicFactorInstance>, Seq<HierarchicalDeterministicFactorInstance>)>,
) -> Seq<HierarchicalDeterministicFactorInstance>
    decreases nds.len(),
{
    if nds.len() == 0 {
        s
    } else {
        append_new(used_after(s, nds.drop_last()), nds.last().2)
    }
}

/// A request answered by some instance of `t` has a non-empty group.
proof fn lemma_answered_group_not_empty(t: Seq<HierarchicalDeterministicFactorInstance>, k: UnquantifiedUnindexDerivationRequest)
    requires
        requests_answered(t).contains(k),
    ensures
        group_of(t, k).len() > 0,
{
    let s = t.map_values(|f: HierarchicalDeterministicFactorInstance| request_of(f));
    lemma_append_new(Seq::<UnquantifiedUnindexDerivationRequest>::empty(), s);
    let m = choose|m: int| 0 <= m < s.len() && s[m] == k;
    lemma_group_of_has(t, k, m);
}

/// The group of `request_of(t[m])` is not empty.
proof fn lemma_group_of_has(t: Seq<HierarchicalDeterministicFactorInstance>, k: UnquantifiedUnindexDerivationRequest, m: int)
    requires
        0 <= m < t.len(),
        request_of(t[m]) == k,
    ensures
        group_of(t, k).len() > 0,
    decreases t.len(),
{
    if m < t.len() - 1 {
        assert(t.drop_last()[m] == t[m]);
        lemma_group_of_has(t.drop_last(), k, m);
    }
}

/// Every instance grouped under `k` answers `k`.
proof fn lemma_group_of_answers(t: Seq<HierarchicalDeterministicFactorInstance>, k: UnquantifiedUnindexDerivationRequest)
    ensures
        all_satisfy(group_of(t, k), k),
    decreases t.len(),
{
    if t.len() > 0 {
        lemma_group_of_answers(t.drop_last(), k);
        let g = group_of(t.drop_last(), k);
        if request_of(t.last()) == k {
            assert forall|i: int| 0 <= i < g.push(t.last()).len() implies instance_satisfies(#[trigger] g.push(t.last())[i], k) by {
                if i < g.len() {
                    assert(g.push(t.last())[i] == g[i]);
                }
            }
        }
    }
}

/// The first request of `reqs` for `k`.
fn find_first_match(reqs: &Vec<DeriveMore>, k: UnquantifiedUnindexDerivationRequest) -> (r: Option<DeriveMore>)
    ensures
        r == first_match(reqs@, k),
{
    let mut i: usize = 0;
    assert(reqs@.skip(0) =~= reqs@);
    while i < reqs.len()
        invariant
            i <= reqs@.len(),
            first_match(reqs@, k) == first_match(reqs@.skip(i as int), k),
        decreases reqs@.len() - i,
    {
        assert(reqs@.skip(i as int)[0] == reqs@[i as int]);
        if reqs[i].unquantified() == k {
            return Some(reqs[i]);
        }
        assert(reqs@.skip(i as int).skip(1) =~= reqs@.skip(i + 1));
        i = i + 1;
    }
    assert(reqs@.skip(i as int).len() == 0);
    None
}

/// Whether `v` holds `k`.
fn contains_request(v: &Vec<UnquantifiedUnindexDerivationRequest>, k: UnquantifiedUnindexDerivationRequest) -> (b: bool)
    ensures
        b == v@.contains(k),
{
    let mut j: usize = 0;
    while j < v.len()
        invariant
            j <= v@.len(),
            forall|a: int| 0 <= a < j ==> v@[a] != k,
        decreases v@.len() - j,
    {
        if v[j] == k {
            return true;
        }
        j = j + 1;
    }
    false
}

/// The requests the instances of `t` answer, each once, in order.
fn answered_requests(t: &Vec<HierarchicalDeterministicFactorInstance>) -> (v: Vec<UnquantifiedUnindexDerivationRequest>)
    ensures
        v@ == requests_answered(t@),
{
    let ghost s = t@.map_values(|f: HierarchicalDeterministicFactorInstance| request_of(f));
    let mut v: Vec<UnquantifiedUnindexDerivationRequest> = Vec::new();
    let mut i: usize = 0;
    while i < t.len()
        invariant
            i <= t@.len(),
            s == t@.map_values(|f: HierarchicalDeterministicFactorInstance| request_of(f)),
            v@ == append_new(Seq::<UnquantifiedUnindexDerivationRequest>::empty(), s.take(i as int)),
        decreases t@.len() - i,
    {
        let k = UnquantifiedUnindexDerivationRequest::from_instance(&t[i]);
        proof {
            assert(s.take(i + 1).drop_last() =~= s.take(i as int));
            assert(s.take(i + 1).last() == k);
        }
        let found = contains_request(&v, k);
        if !found {
            v.push(k);
        }
        i = i + 1;
    }
    assert(s.take(t@.len() as int) =~= s);
    v
}

/// The instances of `t` answering `k`, in order.
fn group_for(t: &Vec<HierarchicalDeterministicFactorInstance>, k: UnquantifiedUnindexDerivationRequest) -> (g: FactorInstances)
    requires
        t@.no_duplicates(),
    ensures
        g@ == group_of(t@, k),
{
    let mut g = FactorInstances::empty();
    let mut i: usize = 0;
    while i < t.len()
        invariant
            i <= t@.len(),
            t@.no_duplicates(),
            g@ == group_of(t@.take(i as int), k),
            forall|x: HierarchicalDeterministicFactorInstance| #[trigger] g@.contains(x) ==> t@.take(i as int).contains(x),
        decreases t@.len() - i,
    {
        let f = t[i];
        proof {
            assert(t@.take(i + 1).drop_last() =~= t@.take(i as int));
            assert(t@.take(i + 1).last() == f);
            assert forall|x: HierarchicalDeterministicFactorInstance| t@.take(i as int).contains(x) || x == f implies #[trigger] t@.take(i + 1).contains(x) by {
                lemma_take_one_more_contains(t@, i as int, x);
            }
            if g@.contains(f) {
                let a = choose|a: int| 0 <= a < i && t@.take(i as int)[a] == f;
                assert(t@[a] == t@[i as int]);
            }
        }
        let ghost g0 = g@;
        if UnquantifiedUnindexDerivationRequest::from_instance(&f) == k {
            g.push(f);
            proof {
                assert forall|x: HierarchicalDeterministicFactorInstance| #[trigger] g@.contains(x) implies g0.contains(x) || x == f by {
                    let a = choose|a: int| 0 <= a < g@.len() && g@[a] == x;
                    if a < g0.len() {
                        assert(g0[a] == x);
                    }
                }
            }
        }
        i = i + 1;
    }
    assert(t@.take(t@.len() as int) =~= t@);
    g
}

/// Groups the newly derived instances `derived` by the request each answers,
/// in order of first answer. Of the group of a request that some request of
/// `requests_to_satisfy_request` was for, as many as `original_purpose` uses
/// directly come first and are used directly, and the rest is cached; the
/// group of any other request is cached whole.
pub fn newly_derived_per_request(
    original_purpose: &FactorInstancesRequestPurpose,
    requests_to_satisfy_request: &Vec<DeriveMore>,
    derived: &FactorInstances,
) -> (v: Vec<NewlyDerived>)
    requires
        split_fits(*original_purpose, requests_to_satisfy_request@, derived@),
    ensures
        v@.len() == requests_answered(derived@).len(),
        forall|i: int| 0 <= i < v@.len() ==> (#[trigger] v@[i])@ == derived_split(
            *original_purpose,
            requests_to_satisfy_request@,
            derived@,
            requests_answered(derived@)[i],
        ),
        newly_derived_views(v@) == planned_newly_derived(*original_purpose, requests_to_satisfy_request@, derived@),
{
    let t = derived.factor_instances();
    let keys = answered_requests(&t);
    let ghost reqs = requests_to_satisfy_request@;
    let mut v: Vec<NewlyDerived> = Vec::new();
    let mut i: usize = 0;
    while i < keys.len()
        invariant
            i <= keys@.len(),
            t@ == derived@,
            t@.no_duplicates(),
            keys@ == requests_answered(derived@),
            reqs == requests_to_satisfy_request@,
            split_fits(*original_purpose, reqs, derived@),
            v@.len() == i,
            forall|j: int| 0 <= j < i ==> (#[trigger] v@[j])@ == derived_split(*original_purpose, reqs, derived@, keys@[j]),
        decreases keys@.len() - i,
    {
        let k = keys[i];
        proof {
            assert(keys@.contains(k)) by {
                assert(keys@[i as int] == k);
            }
            lemma_answered_group_not_empty(derived@, k);
            lemma_group_of_answers(derived@, k);
        }
        let g = group_for(&t, k);
        let nd = match find_first_match(requests_to_satisfy_request, k) {
            Some(d) => {
                let n = d.number_of_instances_to_use_directly(original_purpose);
                let (to_use_directly, to_cache) = g.split_at(n);
                NewlyDerived::maybe_some_to_use_directly(k, to_cache, to_use_directly)
            },
            None => NewlyDerived::cache_all(k, g),
        };
        v.push(nd);
        i = i + 1;
    }
    assert(newly_derived_views(v@) =~= planned_newly_derived(*original_purpose, reqs, derived@));
    v
}

/// Whether `derived` gives each request that `requests_to_satisfy_request`
/// was for more instances than `original_purpose` uses directly.
pub fn check_split_fits(
    original_purpose: &FactorInstancesRequestPurpose,
    requests_to_satisfy_request: &Vec<DeriveMore>,
    derived: &FactorInstances,
) -> (b: bool)
    ensures
        b == split_fits(*original_purpose, requests_to_satisfy_request@, derived@),
{
    let t = derived.factor_instances();
    let keys = answered_requests(&t);
    let mut i: usize = 0;
    while i < keys.len()
        invariant
            i <= keys@.len(),
            t@ == derived@,
            t@.no_duplicates(),
            keys@ == requests_answered(derived@),
            forall|j: int| 0 <= j < i ==> (first_match(requests_to_satisfy_request@, #[trigger] keys@[j]) matches Some(d)
                ==> spec_use_directly(d, *original_purpose) < group_of(derived@, keys@[j]).len()),
        decreases keys@.len() - i,
    {
        let k = keys[i];
        match find_first_match(requests_to_satisfy_request, k) {
            Some(d) => {
                let n = d.number_of_instances_to_use_directly(original_purpose);
                let g = group_for(&t, k);
                if n >= g.len() {
                    proof {
                        assert(keys@.contains(k)) by {
                            assert(keys@[i as int] == k);
                        }
                    }
                    return false;
                }
            },
            None => {},
        }
        i = i + 1;
    }
    proof {
        assert forall|k: UnquantifiedUnindexDerivationRequest| #[trigger] requests_answered(derived@).contains(k) implies (first_match(
            requests_to_satisfy_request@,
            k,
        ) matches Some(d) ==> spec_use_directly(d, *original_purpose) < group_of(derived@, k).len()) by {
            let j = choose|j: int| 0 <= j < keys@.len() && keys@[j] == k;
        }
    }
    true
}

/// Whether what each of `newly_derived` caches can be put into `cache`, in order.
pub fn can_put_all(cache: &PreDerivedKeysCache, newly_derived: &Vec<NewlyDerived>) -> (b: bool)
    ensures
        b == puts_allowed(cache@, newly_derived_views(newly_derived@)),
{
    let ghost v0 = cache@;
    let ghost nds = newly_derived_views(newly_derived@);
    let mut c = cache.clone_snapshot();
    let mut i: usize = 0;
    proof {
        assert(nds.take(0) =~= Seq::<(UnquantifiedUnindexDerivationRequest, Seq<HierarchicalDeterministicFactorInstance>, Seq<HierarchicalDeterministicFactorInstance>)>::empty());
    }
    while i < newly_derived.len()
        invariant
            i <= nds.len(),
            v0 == cache@,
            nds == newly_derived_views(newly_derived@),
            c@ == cache_after(v0, nds.take(i as int)),
            puts_allowed(v0, nds.take(i as int)),
        decreases nds.len() - i,
    {
        let (key, to_cache) = newly_derived[i].key_value_for_cache();
        proof {
            assert(nds.take(i + 1).drop_last() =~= nds.take(i as int));
            assert(nds.take(i + 1).last() == nds[i as int]);
        }
        if !c.can_put(key, &to_cache) {
            proof {
                assert(!puts_allowed(v0, nds.take(i + 1)));
                if puts_allowed(v0, nds) {
                    assert(nds.take(nds.len() as int) =~= nds);
                    lemma_puts_allowed_prefix(v0, nds, nds.len() as int);
                }
            }
            return false;
        }
        let _ = c.put(key, to_cache);
        i = i + 1;
    }
    assert(nds.take(nds.len() as int) =~= nds);
    true
}

/// Nothing newly derived for a request is lost; what is used directly
/// followed by what is cached is the whole group of the request.
pub proof fn law_derived_split_partitions(
    purpose: FactorInstancesRequestPurpose,
    reqs: Seq<DeriveMore>,
    t: Seq<HierarchicalDeterministicFactorInstance>,
    k: UnquantifiedUnindexDerivationRequest,
)
    requires
        split_fits(purpose, reqs, t),
        requests_answered(t).contains(k),
    ensures
        derived_split(purpose, reqs, t, k).2 + derived_split(purpose, reqs, t, k).1 == group_of(t, k),
        derived_split(purpose, reqs, t, k).1.len() > 0,
{
    lemma_answered_group_not_empty(t, k);
    let g = group_of(t, k);
    match first_match(reqs, k) {
        Some(d) => {
            let n = spec_use_directly(d, purpose);
            assert(g.take(n) + g.skip(n) =~= g);
        },
        None => {
            assert(Seq::<HierarchicalDeterministicFactorInstance>::empty() + g =~= g);
        },
    }
}

/// Puts what each of `newly_derived` caches into `cache`, in order, and
/// returns the instances satisfied by the cache followed by what each of
/// `newly_derived` uses directly, each instance once.
pub fn use_and_cache(
    cache: &mut PreDerivedKeysCache,
    satisfied_by_cache: &FactorInstances,
    newly_derived: &Vec<NewlyDerived>,
) -> (r: FactorInstances)
    requires
        puts_allowed(old(cache)@, newly_derived_views(newly_derived@)),
    ensures
        final(cache)@ == cache_after(old(cache)@, newly_derived_views(newly_derived@)),
        r@ == used_after(satisfied_by_cache@, newly_derived_views(newly_derived@)),
{
    let ghost nds = newly_derived_views(newly_derived@);
    let ghost v0 = cache@;
    let mut r = satisfied_by_cache.clone();
    proof {
        assert(nds.take(0) =~= Seq::<(UnquantifiedUnindexDerivationRequest, Seq<HierarchicalDeterministicFactorInstance>, Seq<HierarchicalDeterministicFactorInstance>)>::empty());
        assert(nds.take(nds.len() as int) =~= nds);
        lemma_puts_allowed_prefix(v0, nds, nds.len() as int);
    }
    let mut i: usize = 0;
    while i < newly_derived.len()
        invariant
            i <= nds.len(),
            nds == newly_derived_views(newly_derived@),
            forall|m: int| 0 <= m <= nds.len() ==> puts_allowed(v0, #[trigger] nds.take(m)),
            cache@ == cache_after(v0, nds.take(i as int)),
            r@ == used_after(satisfied_by_cache@, nds.take(i as int)),
        decreases nds.len() - i,
    {
        let (key, to_cache) = newly_derived[i].key_value_for_cache();
        proof {
            assert(nds.take(i + 1).drop_last() =~= nds.take(i as int));
            assert(nds.take(i + 1).last() == nds[i as int]);
            assert(puts_allowed(v0, nds.take(i + 1)));
        }
        let _ = cache.put(key, to_cache);
        r.extend(&newly_derived[i].to_use_directly());
        i = i + 1;
    }
    assert(nds.take(nds.len() as int) =~= nds);
    r
}

/// The puts of every prefix of `nds` are allowed when those of the first `n` are.
proof fn lemma_puts_allowed_prefix(
    v: Seq<(UnquantifiedUnindexDerivationRequest, Seq<HierarchicalDeterministicFactorInstance>)>,
    nds: Seq<(UnquantifiedUnindexDerivationRequest, Seq<HierarchicalDeterministicFactorInstance>, Seq<HierarchicalDeterministicFactorInstance>)>,
    n: int,
)
    requires
        0 <= n <= nds.len(),
        puts_allowed(v, nds.take(n)),
    ensures
        forall|m: int| 0 <= m <= n ==> puts_allowed(v, #[trigger] nds.take(m)),
    decreases n,
{
    if n > 0 {
        assert(nds.take(n).drop_last() =~= nds.take(n - 1));
        lemma_puts_allowed_prefix(v, nds, n - 1);
    }
}

} // verus!
