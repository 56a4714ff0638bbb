//! What a cache answers to a quantified request.
use vstd::prelude::*;
use crate::pre_derived_keys_cache::requests::{
    all_satisfy, check_all_satisfy, unquantified, QuantifiedUnindexDerivationRequest,
};
use crate::types::factor_instances::{append_new, lemma_append_new, lemma_append_new_one, FactorInstances};
use crate::types::keys::HierarchicalDeterministicFactorInstance;
use crate::factor_instances_provider::derive_more::DerivationRequestWithRange;
use crate::types::derivation::HDPathValue;

verus! {

/// What the cache answered to a single quantified request.
#[derive(Debug)]
pub enum LoadFromCacheOutcome {
    /// The cache held more instances than requested: as many as requested
    /// were taken, and the cache still has free instances.
    FullySatisfiedWithSpare(FactorInstances),
    /// The cache held exactly as many instances as requested: all were
    /// taken, and more should be derived.
    FullySatisfiedWithoutSpare(FactorInstances),
    /// The cache held fewer instances than requested: all were taken, and
    /// more must be derived.
    PartiallySatisfied { partial_from_cache: FactorInstances, number_of_instances_needed_to_fully_satisfy_request: usize },
    /// The cache held no instance for the request.
    CacheIsEmpty { number_of_instances_needed_to_fully_satisfy_request: usize },
}

/// A [`LoadFromCacheOutcome`] with its instances taken by their view.
pub enum OutcomeView {
    FullySatisfiedWithSpare(Seq<HierarchicalDeterministicFactorInstance>),
    FullySatisfiedWithoutSpare(Seq<HierarchicalDeterministicFactorInstance>),
    PartiallySatisfied(Seq<HierarchicalDeterministicFactorInstance>, usize),
    CacheIsEmpty(usize),
}

impl View for LoadFromCacheOutcome {
    type V = OutcomeView;

    open spec fn view(&self) -> OutcomeView {
        match self {
            LoadFromCacheOutcome::FullySatisfiedWithSpare(f) => OutcomeView::FullySatisfiedWithSpare(f@),
            LoadFromCacheOutcome::FullySatisfiedWithoutSpare(f) => OutcomeView::FullySatisfiedWithoutSpare(f@),
            LoadFromCacheOutcome::PartiallySatisfied {
                partial_from_cache,
                number_of_instances_needed_to_fully_satisfy_request,
            } => OutcomeView::PartiallySatisfied(partial_from_cache@, *number_of_instances_needed_to_fully_satisfy_request),
            LoadFromCacheOutcome::CacheIsEmpty { number_of_instances_needed_to_fully_satisfy_request } => OutcomeView::CacheIsEmpty(
                *number_of_instances_needed_to_fully_satisfy_request,
            ),
        }
    }
}

/// The instances an outcome carries; none for an empty cache.
pub open spec fn outcome_instances(o: OutcomeView) -> Seq<HierarchicalDeterministicFactorInstance> {
    match o {
        OutcomeView::FullySatisfiedWithSpare(s) => s,
        OutcomeView::FullySatisfiedWithoutSpare(s) => s,
        OutcomeView::PartiallySatisfied(s, _) => s,
        OutcomeView::CacheIsEmpty(_) => Seq::empty(),
    }
}

impl Clone for LoadFromCacheOutcome {
    fn clone(&self) -> (r: Self)
        ensures
            r@ == self@,
    {
        match self {
            LoadFromCacheOutcome::FullySatisfiedWithSpare(f) => LoadFromCacheOutcome::FullySatisfiedWithSpare(f.clone()),
            LoadFromCacheOutcome::FullySatisfiedWithoutSpare(f) => LoadFromCacheOutcome::FullySatisfiedWithoutSpare(f.clone()),
            LoadFromCacheOutcome::PartiallySatisfied {
                partial_from_cache,
                number_of_instances_needed_to_fully_satisfy_request,
            } => LoadFromCacheOutcome::PartiallySatisfied {
                partial_from_cache: partial_from_cache.clone(),
                number_of_instances_needed_to_fully_satisfy_request: *number_of_instances_needed_to_fully_satisfy_request,
            },
            LoadFromCacheOutcome::CacheIsEmpty { number_of_instances_needed_to_fully_satisfy_request } => LoadFromCacheOutcome::CacheIsEmpty {
                number_of_instances_needed_to_fully_satisfy_request: *number_of_instances_needed_to_fully_satisfy_request,
            },
        }
    }
}

/// Whether two collections of instances hold the same instances in the same order.
fn same_instances(a: &FactorInstances, b: &FactorInstances) -> (r: bool)
    ensures
        r == (a@ == b@),
{
    let va = a.factor_instances();
    let vb = b.factor_instances();
    if va.len() != vb.len() {
        return false;
    }
    let mut i: usize = 0;
    while i < va.len()
        invariant
            i <= va@.len(),
            va@ == a@,
            vb@ == b@,
            va@.len() == vb@.len(),
            forall|j: int| 0 <= j < i ==> va@[j] == vb@[j],
        decreases va@.len() - i,
    {
        if va[i] != vb[i] {
            return false;
        }
        i = i + 1;
    }
    assert(a@ =~= b@);
    true
}

impl LoadFromCacheOutcome {
    /// The instances of the outcome, if it has found any.
    fn non_empty_factor_instances(&self) -> (r: Option<FactorInstances>)
        ensures
            match self@ {
                OutcomeView::CacheIsEmpty(_) => r is None,
                _ => r matches Some(f) && f@ == outcome_instances(self@),
            },
    {
        match self {
            LoadFromCacheOutcome::FullySatisfiedWithSpare(from_cache) => Some(from_cache.clone()),
            LoadFromCacheOutcome::FullySatisfiedWithoutSpare(from_cache) => Some(from_cache.clone()),
            LoadFromCacheOutcome::PartiallySatisfied { partial_from_cache, .. } => Some(partial_from_cache.clone()),
            LoadFromCacheOutcome::CacheIsEmpty { .. } => None,
        }
    }

    /// Whether two outcomes are the same.
    fn same(&self, other: &Self) -> (r: bool)
        ensures
            r == (self@ == other@),
    {
        match (self, other) {
            (LoadFromCacheOutcome::FullySatisfiedWithSpare(a), LoadFromCacheOutcome::FullySatisfiedWithSpare(b)) => same_instances(a, b),
            (LoadFromCacheOutcome::FullySatisfiedWithoutSpare(a), LoadFromCacheOutcome::FullySatisfiedWithoutSpare(b)) => same_instances(
                a,
                b,
            ),
            (
                LoadFromCacheOutcome::PartiallySatisfied {
                    partial_from_cache: a,
                    number_of_instances_needed_to_fully_satisfy_request: n,
                },
                LoadFromCacheOutcome::PartiallySatisfied {
                    partial_from_cache: b,
                    number_of_instances_needed_to_fully_satisfy_request: m,
                },
            ) => *n == *m && same_instances(a, b),
            (
                LoadFromCacheOutcome::CacheIsEmpty { number_of_instances_needed_to_fully_satisfy_request: n },
                LoadFromCacheOutcome::CacheIsEmpty { number_of_instances_needed_to_fully_satisfy_request: m },
            ) => *n == *m,
            _ => false,
        }
    }
}

/// The largest derivation entity base index of `s`; zero for none.
pub open spec fn max_base(s: Seq<HierarchicalDeterministicFactorInstance>) -> HDPathValue
    decreases s.len(),
{
    if s.len() == 0 {
        0
    } else {
        let b = s.last().spec_path().index.spec_base_index();
        let m = max_base(s.drop_last());
        if s.len() == 1 || b >= m {
            b
        } else {
            m
        }
    }
}

/// The range of `req` that starts right after the largest base index of `s`.
pub open spec fn range_after(req: QuantifiedUnindexDerivationRequest, s: Seq<HierarchicalDeterministicFactorInstance>) -> DerivationRequestWithRange {
    DerivationRequestWithRange {
        factor_source_id: req.factor_source_id,
        network_id: req.network_id,
        entity_kind: req.entity_kind,
        key_kind: req.key_kind,
        key_space: req.key_space,
        quantity: req.requested_quantity,
        start_base_index: (max_base(s) + 1) as u32,
    }
}

/// What the outcome of a request asks to do next.
#[derive(Debug)]
pub enum Action {
    /// Use the instances; the cache has more.
    FullySatisfiedWithSpare(FactorInstances),
    /// Use the instances; derive from `next` on to refill the cache.
    FullySatisfiedWithoutSpare { from_cache: FactorInstances, next: DerivationRequestWithRange },
    /// Use the instances; derive from `derive_more` on for what is missing.
    PartiallySatisfied {
        partial_from_cache: FactorInstances,
        derive_more: DerivationRequestWithRange,
        number_of_instances_needed_to_fully_satisfy_request: usize,
    },
    /// Nothing cached; derive what is needed.
    CacheIsEmpty { number_of_instances_needed_to_fully_satisfy_request: usize },
}

/// `a` is the action for outcome `o` of request `req`: derivation goes on
/// right after the largest cached base index.
pub open spec fn action_fits(req: QuantifiedUnindexDerivationRequest, o: OutcomeView, a: Action) -> bool {
    match o {
        OutcomeView::FullySatisfiedWithSpare(s) => a matches Action::FullySatisfiedWithSpare(f) && f@ == s,
        OutcomeView::FullySatisfiedWithoutSpare(s) => a matches Action::FullySatisfiedWithoutSpare { from_cache, next } && from_cache@
            == s && next == range_after(req, s),
        OutcomeView::PartiallySatisfied(s, n) => a matches Action::PartiallySatisfied {
            partial_from_cache,
            derive_more,
            number_of_instances_needed_to_fully_satisfy_request,
        } && partial_from_cache@ == s && derive_more == range_after(req, s) && number_of_instances_needed_to_fully_satisfy_request == n,
        OutcomeView::CacheIsEmpty(n) => a matches Action::CacheIsEmpty { number_of_instances_needed_to_fully_satisfy_request } && number_of_instances_needed_to_fully_satisfy_request == n,
    }
}

/// An action can be made of `o`: an outcome that continues after cached
/// instances holds some.
pub open spec fn action_allowed(o: OutcomeView) -> bool {
    match o {
        OutcomeView::FullySatisfiedWithoutSpare(s) => s.len() > 0,
        OutcomeView::PartiallySatisfied(s, _) => s.len() > 0,
        _ => true,
    }
}

/// The largest base index of `instances`, which holds some.
fn last_index_of(instances: &FactorInstances) -> (m: HDPathValue)
    requires
        instances@.len() > 0,
    ensures
        m == max_base(instances@),
        m < crate::types::derivation::BIP32_SECURIFIED_HALF,
{
    let v = instances.factor_instances();
    let mut m: HDPathValue = v[0].derivation_entity_base_index();
    let mut i: usize = 1;
    assert(v@.take(1).drop_last() =~= Seq::<HierarchicalDeterministicFactorInstance>::empty());
    while i < v.len()
        invariant
            1 <= i <= v@.len(),
            v@ == instances@,
            m == max_base(v@.take(i as int)),
            m < crate::types::derivation::BIP32_SECURIFIED_HALF,
        decreases v@.len() - i,
    {
        assert(v@.take(i + 1).drop_last() =~= v@.take(i as int));
        let b = v[i].derivation_entity_base_index();
        if b >= m {
            m = b;
        }
        i = i + 1;
    }
    assert(v@.take(i as int) =~= v@);
    m
}

/// The outcome of one quantified request.
#[derive(Debug)]
pub struct LoadFromCacheOutcomeForSingleRequest {
    pub request: QuantifiedUnindexDerivationRequest,
    outcome: LoadFromCacheOutcome,
}

impl View for LoadFromCacheOutcomeForSingleRequest {
    type V = (QuantifiedUnindexDerivationRequest, OutcomeView);

    closed spec fn view(&self) -> (QuantifiedUnindexDerivationRequest, OutcomeView) {
        (self.request, self.outcome@)
    }
}

impl Clone for LoadFromCacheOutcomeForSingleRequest {
    fn clone(&self) -> (r: Self)
        ensures
            r@ == self@,
    {
        LoadFromCacheOutcomeForSingleRequest { request: self.request, outcome: self.outcome.clone() }
    }
}

impl LoadFromCacheOutcomeForSingleRequest {
    /// The outcome `outcome` of `request`; every instance it carries answers
    /// the request: same factor source, network, key kind, key space and
    /// entity kind.
    pub fn new(request: QuantifiedUnindexDerivationRequest, outcome: LoadFromCacheOutcome) -> (r: Self)
        requires
            all_satisfy(outcome_instances(outcome@), unquantified(request)),
        ensures
            r@ == (request, outcome@),
    {
        Self { request, outcome }
    }

    /// Whether every instance `outcome` carries answers `request`, so that
    /// [`Self::new`] accepts them.
    pub fn fits(request: &QuantifiedUnindexDerivationRequest, outcome: &LoadFromCacheOutcome) -> (b: bool)
        ensures
            b == all_satisfy(outcome_instances(outcome@), unquantified(*request)),
    {
        match outcome.non_empty_factor_instances() {
            Some(f) => check_all_satisfy(&f.factor_instances(), request.unquantified()),
            None => true,
        }
    }

    /// The request.
    pub fn request(&self) -> (r: QuantifiedUnindexDerivationRequest)
        ensures
            r == self@.0,
    {
        self.request
    }

    /// What to do next: use what was found, and where the cache had no spare,
    /// derive from right after the largest cached base index on.
    pub fn action(&self) -> (a: Action)
        requires
            action_allowed(self@.1),
        ensures
            action_fits(self@.0, self@.1, a),
    {
        match &self.outcome {
            LoadFromCacheOutcome::FullySatisfiedWithSpare(from_cache) => Action::FullySatisfiedWithSpare(from_cache.clone()),
            LoadFromCacheOutcome::FullySatisfiedWithoutSpare(from_cache) => {
                let last_index = last_index_of(from_cache);
                Action::FullySatisfiedWithoutSpare {
                    from_cache: from_cache.clone(),
                    next: DerivationRequestWithRange::from_request_and_last_index(&self.request, last_index),
                }
            },
            LoadFromCacheOutcome::PartiallySatisfied { partial_from_cache, number_of_instances_needed_to_fully_satisfy_request } => {
                let last_index = last_index_of(partial_from_cache);
                Action::PartiallySatisfied {
                    partial_from_cache: partial_from_cache.clone(),
                    derive_more: DerivationRequestWithRange::from_request_and_last_index(&self.request, last_index),
                    number_of_instances_needed_to_fully_satisfy_request: *number_of_instances_needed_to_fully_satisfy_request,
                }
            },
            LoadFromCacheOutcome::CacheIsEmpty { number_of_instances_needed_to_fully_satisfy_request } => Action::CacheIsEmpty {
                number_of_instances_needed_to_fully_satisfy_request: *number_of_instances_needed_to_fully_satisfy_request,
            },
        }
    }

    /// What the cache answered.
    pub fn outcome(&self) -> (o: LoadFromCacheOutcome)
        ensures
            o@ == self@.1,
    {
        self.outcome.clone()
    }

    /// Whether two outcomes are the same, request included.
    fn same(&self, other: &Self) -> (r: bool)
        ensures
            r == (self@ == other@),
    {
        self.request == other.request && self.outcome.same(&other.outcome)
    }
}

/// The outcomes of several requests, each distinct outcome once, in order.
#[derive(Debug)]
pub struct FactorInstancesFromCache {
    outcomes: Vec<LoadFromCacheOutcomeForSingleRequest>,
}

/// The views of `s`, in order.
pub open spec fn outcome_views(s: Seq<LoadFromCacheOutcomeForSingleRequest>) -> Seq<(QuantifiedUnindexDerivationRequest, OutcomeView)> {
    s.map_values(|o: LoadFromCacheOutcomeForSingleRequest| o@)
}

impl View for FactorInstancesFromCache {
    type V = Seq<(QuantifiedUnindexDerivationRequest, OutcomeView)>;

    closed spec fn view(&self) -> Seq<(QuantifiedUnindexDerivationRequest, OutcomeView)> {
        outcome_views(self.outcomes@)
    }
}

/// Whether `v` holds an outcome equal to `x`.
fn contains_outcome(v: &Vec<LoadFromCacheOutcomeForSingleRequest>, x: &LoadFromCacheOutcomeForSingleRequest) -> (b: bool)
    ensures
        b == outcome_views(v@).contains(x@),
{
    let ghost views = outcome_views(v@);
    let mut i: usize = 0;
    while i < v.len()
        invariant
            i <= v@.len(),
            views == outcome_views(v@),
            forall|j: int| 0 <= j < i ==> views[j] != x@,
        decreases v@.len() - i,
    {
        if v[i].same(x) {
            assert(views[i as int] == x@);
            return true;
        }
        i = i + 1;
    }
    false
}

impl FactorInstancesFromCache {
    /// The outcomes, each distinct outcome kept at its first occurrence.
    pub fn new(outcomes: Vec<LoadFromCacheOutcomeForSingleRequest>) -> (r: Self)
        ensures
            r@ == append_new(Seq::empty(), outcome_views(outcomes@)),
    {
        let ghost all = outcome_views(outcomes@);
        let mut kept: Vec<LoadFromCacheOutcomeForSingleRequest> = Vec::new();
        let mut i: usize = 0;
        while i < outcomes.len()
            invariant
                i <= outcomes@.len(),
                all == outcome_views(outcomes@),
                outcome_views(kept@) == append_new(Seq::empty(), all.take(i as int)),
            decreases outcomes@.len() - i,
        {
            let x = outcomes[i].clone();
            proof {
                lemma_append_new(Seq::empty(), all.take(i as int));
                assert(all.take(i + 1).drop_last() =~= all.take(i as int));
                assert(all.take(i + 1).last() == all[i as int]);
            }
            let ghost before = outcome_views(kept@);
            if !contains_outcome(&kept, &x) {
                kept.push(x);
                assert(outcome_views(kept@) =~= before.push(x@));
            }
            i = i + 1;
        }
        assert(all.take(outcomes@.len() as int) =~= all);
        FactorInstancesFromCache { outcomes: kept }
    }

    /// The outcomes, in order.
    pub fn outcomes(&self) -> (v: Vec<LoadFromCacheOutcomeForSingleRequest>)
        ensures
            outcome_views(v@) == self@,
    {
        let mut v: Vec<LoadFromCacheOutcomeForSingleRequest> = Vec::new();
        let mut i: usize = 0;
        while i < self.outcomes.len()
            invariant
                i <= self.outcomes@.len(),
                v@.len() == i,
                forall|j: int| 0 <= j < i ==> (#[trigger] v@[j])@ == self.outcomes@[j]@,
            decreases self.outcomes@.len() - i,
        {
            let c = self.outcomes[i].clone();
            v.push(c);
            i = i + 1;
        }
        assert(outcome_views(v@) =~= outcome_views(self.outcomes@));
        v
    }
}

} // verus!
