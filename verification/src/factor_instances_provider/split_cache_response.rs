//! Splits what the pre-derived keys cache answered into the instances it
//! satisfied and the requests to derive more for.
use vstd::prelude::*;
use crate::factor_instances_provider::derive_more::{spec_use_directly, Accounts, DeriveMore, FactorInstancesRequestPurpose};
use crate::pre_derived_keys_cache::pre_derived_keys_cache::take_one;
use crate::pre_derived_keys_cache::requests::UnquantifiedUnindexDerivationRequest;
use crate::types::entities::MatrixOfFactorSources;
use crate::pre_derived_keys_cache::cache_outcome::{
    action_allowed, outcome_instances, outcome_views, range_after, Action, FactorInstancesFromCache, LoadFromCacheOutcome,
    LoadFromCacheOutcomeForSingleRequest, OutcomeView, max_base,
};
use crate::pre_derived_keys_cache::requests::{instance_satisfies, unquantified, QuantifiedUnindexDerivationRequest};
use crate::types::factor_instances::{append_new, FactorInstances};
use crate::types::keys::HierarchicalDeterministicFactorInstance;

verus! {

/// The last instance of `s` that answers `req`, if any.
pub open spec fn last_satisfying(s: Seq<HierarchicalDeterministicFactorInstance>, req: QuantifiedUnindexDerivationRequest) -> Option<
    HierarchicalDeterministicFactorInstance,
>
    decreases s.len(),
{
    if s.len() == 0 {
        None
    } else if instance_satisfies(s.last(), unquantified(req)) {
        Some(s.last())
    } else {
        last_satisfying(s.drop_last(), req)
    }
}

/// The outcome `o` of `req` can be split: where it continues after cached
/// instances it holds some, and where it was satisfied without spare, its
/// last instance answering the request has the largest base index, so that
/// derivation goes on right after it.
pub open spec fn split_allowed(req: QuantifiedUnindexDerivationRequest, o: OutcomeView) -> bool {
    &&& action_allowed(o)
    &&& (o matches OutcomeView::FullySatisfiedWithoutSpare(s) ==> (last_satisfying(s, req) matches Some(x)
        && x.spec_path().index.spec_base_index() == max_base(s)))
}

/// The request to derive more for outcome `o` of `req`, if it needs one.
pub open spec fn derive_more_of(req: QuantifiedUnindexDerivationRequest, o: OutcomeView) -> Option<DeriveMore> {
    match o {
        OutcomeView::FullySatisfiedWithSpare(_) => None,
        OutcomeView::FullySatisfiedWithoutSpare(s) => Some(
            DeriveMore::WithKnownStartIndex {
                with_start_index: range_after(req, s),
                number_of_instances_needed_to_fully_satisfy_request: None,
            },
        ),
        OutcomeView::PartiallySatisfied(s, n) => Some(
            DeriveMore::WithKnownStartIndex {
                with_start_index: range_after(req, s),
                number_of_instances_needed_to_fully_satisfy_request: Some(n),
            },
        ),
        OutcomeView::CacheIsEmpty(n) => Some(
            DeriveMore::WithoutKnownLastIndex { request: req, number_of_instances_needed_to_fully_satisfy_request: n },
        ),
    }
}

/// The instances the outcomes `os` satisfied, in order, each once.
pub open spec fn satisfied_of(os: Seq<(QuantifiedUnindexDerivationRequest, OutcomeView)>) -> Seq<HierarchicalDeterministicFactorInstance>
    decreases os.len(),
{
    if os.len() == 0 {
        Seq::empty()
    } else {
        append_new(satisfied_of(os.drop_last()), outcome_instances(os.last().1))
    }
}

/// The requests to derive more for the outcomes `os`, in order, each once.
pub open spec fn derive_more_of_all(os: Seq<(QuantifiedUnindexDerivationRequest, OutcomeView)>) -> Seq<DeriveMore>
    decreases os.len(),
{
    if os.len() == 0 {
        Seq::empty()
    } else {
        let r = derive_more_of_all(os.drop_last());
        match derive_more_of(os.last().0, os.last().1) {
            Some(d) => if r.contains(d) {
                r
            } else {
                r.push(d)
            },
            None => r,
        }
    }
}

/// The last instance of `v` answering `req`, if any.
fn find_last_satisfying(v: &Vec<HierarchicalDeterministicFactorInstance>, req: &QuantifiedUnindexDerivationRequest) -> (r: Option<
    HierarchicalDeterministicFactorInstance,
>)
    ensures
        r == last_satisfying(v@, *req),
{
    let key = req.unquantified();
    let mut r: Option<HierarchicalDeterministicFactorInstance> = None;
    let mut i: usize = 0;
    assert(v@.take(0) =~= Seq::<HierarchicalDeterministicFactorInstance>::empty());
    while i < v.len()
        invariant
            i <= v@.len(),
            key == unquantified(*req),
            r == last_satisfying(v@.take(i as int), *req),
        decreases v@.len() - i,
    {
        assert(v@.take(i + 1).drop_last() =~= v@.take(i as int));
        assert(v@.take(i + 1).last() == v@[i as int]);
        if v[i].satisfies(key) {
            r = Some(v[i]);
        }
        i = i + 1;
    }
    assert(v@.take(i as int) =~= v@);
    r
}

/// The largest base index of `v`, which holds some.
fn largest_base(v: &Vec<HierarchicalDeterministicFactorInstance>) -> (m: u32)
    requires
        v@.len() > 0,
    ensures
        m == max_base(v@),
{
    let mut m: u32 = v[0].derivation_entity_base_index();
    let mut i: usize = 1;
    assert(v@.take(1).drop_last() =~= Seq::<HierarchicalDeterministicFactorInstance>::empty());
    while i < v.len()
        invariant
            1 <= i <= v@.len(),
            m == max_base(v@.take(i as int)),
        decreases v@.len() - i,
    {
        assert(v@.take(i + 1).drop_last() =~= v@.take(i as int));
        let b = v[i].derivation_entity_base_index();
        if b >= m {
            m = b;
        }
        i = i + 1;
    }
    assert(v@.take(i as int) =~= v@);
    m
}

/// Whether the outcome `o` can be split.
pub fn check_split_allowed(o: &LoadFromCacheOutcomeForSingleRequest) -> (b: bool)
    ensures
        b == split_allowed(o@.0, o@.1),
{
    let req = o.request();
    match o.outcome() {
        LoadFromCacheOutcome::FullySatisfiedWithSpare(_) => true,
        LoadFromCacheOutcome::CacheIsEmpty { .. } => true,
        LoadFromCacheOutcome::PartiallySatisfied { partial_from_cache, .. } => partial_from_cache.len() > 0,
        LoadFromCacheOutcome::FullySatisfiedWithoutSpare(f) => {
            let v = f.factor_instances();
            if v.len() == 0 {
                return false;
            }
            match find_last_satisfying(&v, &req) {
                Some(x) => x.derivation_entity_base_index() == largest_base(&v),
                None => false,
            }
        },
    }
}

/// The instances the cache satisfied, and the requests to derive more for.
#[derive(Debug)]
pub struct SplitFactorInstancesFromCache {
    derive_more_requests: Vec<DeriveMore>,
    satisfied_by_cache: FactorInstances,
}

impl View for SplitFactorInstancesFromCache {
    type V = (Seq<DeriveMore>, Seq<HierarchicalDeterministicFactorInstance>);

    closed spec fn view(&self) -> (Seq<DeriveMore>, Seq<HierarchicalDeterministicFactorInstance>) {
        (self.derive_more_requests@, self.satisfied_by_cache@)
    }
}

impl SplitFactorInstancesFromCache {
    /// The instances the cache satisfied.
    pub fn satisfied_by_cache(&self) -> (f: FactorInstances)
        ensures
            f@ == self@.1,
    {
        self.satisfied_by_cache.clone()
    }

    /// The requests to derive more for, if there are any.
    pub fn derive_more_requests(&self) -> (r: Option<Vec<DeriveMore>>)
        ensures
            match r {
                Some(v) => self@.0.len() > 0 && v@ == self@.0,
                None => self@.0.len() == 0,
            },
    {
        if self.derive_more_requests.len() == 0 {
            None
        } else {
            Some(self.derive_more_requests.clone())
        }
    }
}

/// Whether `v` holds `d`.
fn contains_derive_more(v: &Vec<DeriveMore>, d: &DeriveMore) -> (b: bool)
    ensures
        b == v@.contains(*d),
{
    let mut i: usize = 0;
    while i < v.len()
        invariant
            i <= v@.len(),
            forall|j: int| 0 <= j < i ==> v@[j] != *d,
        decreases v@.len() - i,
    {
        if v[i] == *d {
            return true;
        }
        i = i + 1;
    }
    false
}

/// Splits what the cache answered: the instances of every outcome are
/// satisfied by the cache, each once; every outcome without spare asks to
/// derive more, from right after its largest cached base index where it
/// found some, each such request once.
pub fn split_cache_response(take_from_cache_outcome: &FactorInstancesFromCache) -> (r: SplitFactorInstancesFromCache)
    requires
        forall|i: int| 0 <= i < take_from_cache_outcome@.len() ==> split_allowed(
            (#[trigger] take_from_cache_outcome@[i]).0,
            take_from_cache_outcome@[i].1,
        ),
    ensures
        r@.1 == satisfied_of(take_from_cache_outcome@),
        r@.0 == derive_more_of_all(take_from_cache_outcome@),
{
    let outcomes = take_from_cache_outcome.outcomes();
    let ghost os = take_from_cache_outcome@;
    let mut derive_more_requests: Vec<DeriveMore> = Vec::new();
    let mut satisfied_by_cache = FactorInstances::empty();
    let mut i: usize = 0;
    while i < outcomes.len()
        invariant
            i <= outcomes@.len(),
            outcome_views(outcomes@) == os,
            forall|k: int| 0 <= k < os.len() ==> split_allowed((#[trigger] os[k]).0, os[k].1),
            satisfied_by_cache@ == satisfied_of(os.take(i as int)),
            derive_more_requests@ == derive_more_of_all(os.take(i as int)),
        decreases outcomes@.len() - i,
    {
        let outcome = &outcomes[i];
        let ghost e = os[i as int];
        proof {
            assert(os.take(i + 1).drop_last() =~= os.take(i as int));
            assert(os.take(i + 1).last() == e);
            assert(e == outcome@);
            assert(split_allowed(e.0, e.1));
        }
        let request = outcome.request();
        let more = match outcome.action() {
            Action::FullySatisfiedWithSpare(factor_instances) => {
                satisfied_by_cache.extend(&factor_instances);
                None
            },
            Action::FullySatisfiedWithoutSpare { from_cache, next } => {
                satisfied_by_cache.extend(&from_cache);
                Some(
                    DeriveMore::WithKnownStartIndex {
                        with_start_index: next,
                        number_of_instances_needed_to_fully_satisfy_request: None,
                    },
                )
            },
            Action::PartiallySatisfied { partial_from_cache, derive_more, number_of_instances_needed_to_fully_satisfy_request } => {
                satisfied_by_cache.extend(&partial_from_cache);
                Some(
                    DeriveMore::WithKnownStartIndex {
                        with_start_index: derive_more,
                        number_of_instances_needed_to_fully_satisfy_request: Some(
                            number_of_instances_needed_to_fully_satisfy_request,
                        ),
                    },
                )
            },
            Action::CacheIsEmpty { number_of_instances_needed_to_fully_satisfy_request } => {
                proof {
                    assert(outcome_instances(e.1) =~= Seq::<HierarchicalDeterministicFactorInstance>::empty());
                }
                Some(DeriveMore::WithoutKnownLastIndex { request, number_of_instances_needed_to_fully_satisfy_request })
            },
        };
        match more {
            Some(d) => {
                if !contains_derive_more(&derive_more_requests, &d) {
                    derive_more_requests.push(d);
                }
            },
            None => {},
        }
        i = i + 1;
    }
    assert(os.take(os.len() as int) =~= os);
    SplitFactorInstancesFromCache { derive_more_requests, satisfied_by_cache }
}

/// Under a security shield purpose, when the cache could not fully satisfy a
/// request `r` (it held fewer instances than requested, or none), the
/// request to derive more uses directly exactly the instances still missing:
/// what the cache supplied plus what is used directly of the newly derived
/// is the requested quantity.
pub proof fn law_shield_uses_directly_what_the_cache_lacked(
    v: Seq<(UnquantifiedUnindexDerivationRequest, Seq<HierarchicalDeterministicFactorInstance>)>,
    r: QuantifiedUnindexDerivationRequest,
    accounts: Accounts,
    matrix_of_factor_sources: MatrixOfFactorSources,
)
    requires
        take_one(v, r).0 is PartiallySatisfied || take_one(v, r).0 is CacheIsEmpty,
    ensures
        derive_more_of(r, take_one(v, r).0) matches Some(d) && outcome_instances(take_one(v, r).0).len() + spec_use_directly(
            d,
            FactorInstancesRequestPurpose::UpdateOrSetSecurityShieldForAccounts { accounts, matrix_of_factor_sources },
        ) == r.requested_quantity,
{
}

} // verus!
