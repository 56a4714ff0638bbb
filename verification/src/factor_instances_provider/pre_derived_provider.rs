//! Providing factor instances from the pre-derived keys cache: take what the
//! cache holds and, where it falls short, plan the paths to derive in
//! abundance; once they are derived, use those the purpose asks for and
//! cache the rest.
use vstd::prelude::*;
use crate::factor_instances_provider::additional_derivation::{
    additional_paths_fit, can_plan, final_offsets, items_of, kept_fill_for, paths_for_additional_derivation, ranges_allowed,
};
use crate::factor_instances_provider::derive_more::{purpose_factor_sources, Accounts, FactorInstancesRequestPurpose};
use crate::factor_instances_provider::derived_instances::{
    can_put_all, check_split_fits, cache_after, newly_derived_per_request, planned_newly_derived, puts_allowed, split_fits, use_and_cache, used_after,
    DidDeriveNewFactorInstances,
};
use crate::factor_instances_provider::next_derivation_index_analyzer::NextIndexAssignerWithEphemeralLocalOffsets;
use crate::factor_instances_provider::split_cache_response::{
    check_split_allowed, derive_more_of_all, satisfied_of, split_allowed, split_cache_response, SplitFactorInstancesFromCache,
};
use crate::pre_derived_keys_cache::cache_outcome::{outcome_views, OutcomeView};
use crate::pre_derived_keys_cache::pre_derived_keys_cache::{take_all, take_allowed, take_one, PreDerivedKeysCache};
use crate::pre_derived_keys_cache::requests::{
    QuantifiedUnindexDerivationRequest, QuantifiedUnindexDerivationRequests, UnquantifiedUnindexDerivationRequest,
};
use crate::types::appendable::OrderedSet;
use crate::types::derivation::DerivationPath;
use crate::types::factor_instances::{append_new, lemma_append_new, FactorInstances};
use crate::types::entities::{AddressOfAccountOrPersona, MatrixOfFactorSources, Profile};
use crate::types::keys::{FactorSourceIDFromHash, HDFactorSource, HierarchicalDeterministicFactorInstance};
use crate::types::network::NetworkID;
use crate::types::ordered_map::OrderedMap;

verus! {

/// The outcomes of taking `rs` from the cache entries `v`, each once.
pub open spec fn taken_outcomes(
    v: Seq<(UnquantifiedUnindexDerivationRequest, Seq<HierarchicalDeterministicFactorInstance>)>,
    rs: Seq<QuantifiedUnindexDerivationRequest>,
) -> Seq<(QuantifiedUnindexDerivationRequest, OutcomeView)> {
    append_new(Seq::empty(), take_all(v, rs).0)
}

/// Every outcome of taking `rs` from `v` can be split.
pub open spec fn outcomes_split_allowed(
    v: Seq<(UnquantifiedUnindexDerivationRequest, Seq<HierarchicalDeterministicFactorInstance>)>,
    rs: Seq<QuantifiedUnindexDerivationRequest>,
) -> bool {
    forall|x: (QuantifiedUnindexDerivationRequest, OutcomeView)| #[trigger] take_all(v, rs).0.contains(x) ==> split_allowed(x.0, x.1)
}

/// The take of `rs` from `c` can be made and split, and where more must be
/// derived, the assigner `a` can place every range the plan calls for.
pub open spec fn plan_allowed(
    c: Seq<(UnquantifiedUnindexDerivationRequest, Seq<HierarchicalDeterministicFactorInstance>)>,
    a: NextIndexAssignerWithEphemeralLocalOffsets,
    purpose: FactorInstancesRequestPurpose,
    rs: Seq<QuantifiedUnindexDerivationRequest>,
) -> bool {
    let d = derive_more_of_all(taken_outcomes(c, rs));
    &&& take_allowed(c, rs)
    &&& outcomes_split_allowed(c, rs)
    &&& d.len() > 0 ==> ranges_allowed(
        a.spec_profile(),
        |q: UnquantifiedUnindexDerivationRequest| a.spec_offset(q),
        items_of(kept_fill_for(take_all(c, rs).1, d, purpose), d),
    )
}

/// `r` is what taking `rs` from the cache `c0` and planning with the
/// assigner `a0` gives, the cache becoming `c1` and the assigner `a1`: the
/// instances the cache satisfied and the requests to derive more for; where
/// there are such requests, the paths to derive, planned against `c1`, and
/// the assigner moved on for every range it placed; else the assigner as it
/// was.
pub open spec fn take_and_plan_done(
    c0: Seq<(UnquantifiedUnindexDerivationRequest, Seq<HierarchicalDeterministicFactorInstance>)>,
    c1: Seq<(UnquantifiedUnindexDerivationRequest, Seq<HierarchicalDeterministicFactorInstance>)>,
    a0: NextIndexAssignerWithEphemeralLocalOffsets,
    a1: NextIndexAssignerWithEphemeralLocalOffsets,
    purpose: FactorInstancesRequestPurpose,
    rs: Seq<QuantifiedUnindexDerivationRequest>,
    r: (SplitFactorInstancesFromCache, Option<OrderedMap<FactorSourceIDFromHash, OrderedSet<DerivationPath>>>),
) -> bool {
    &&& c1 == take_all(c0, rs).1
    &&& r.0@.1 == satisfied_of(taken_outcomes(c0, rs))
    &&& r.0@.0 == derive_more_of_all(taken_outcomes(c0, rs))
    &&& a1.spec_profile() == a0.spec_profile()
    &&& (r.1 is None <==> r.0@.0.len() == 0)
    &&& r.1 is None ==> forall|q: UnquantifiedUnindexDerivationRequest| #[trigger] a1.spec_offset(q) == a0.spec_offset(q)
    &&& r.1 matches Some(m) ==> additional_paths_fit(
        a0.spec_profile(),
        |q: UnquantifiedUnindexDerivationRequest| a0.spec_offset(q),
        c1,
        r.0@.0,
        purpose,
        m,
    )
    &&& r.1 is Some ==> forall|q: UnquantifiedUnindexDerivationRequest| #[trigger] a1.spec_offset(q) == final_offsets(
        |q: UnquantifiedUnindexDerivationRequest| a0.spec_offset(q),
        items_of(kept_fill_for(c1, r.0@.0, purpose), r.0@.0),
    )(q)
}

/// Taking a prefix of `rs` gives the prefix of the outcomes, and a take of
/// all of `rs` that is allowed is allowed on each prefix.
proof fn lemma_take_all_prefix(
    v: Seq<(UnquantifiedUnindexDerivationRequest, Seq<HierarchicalDeterministicFactorInstance>)>,
    rs: Seq<QuantifiedUnindexDerivationRequest>,
    m: int,
)
    requires
        0 <= m <= rs.len(),
    ensures
        take_all(v, rs).0.len() == rs.len(),
        take_all(v, rs.take(m)).0 == take_all(v, rs).0.take(m),
        take_allowed(v, rs) ==> take_allowed(v, rs.take(m)),
    decreases rs.len(),
{
    if rs.len() > 0 {
        lemma_take_all_prefix(v, rs.drop_last(), if m < rs.len() { m } else { rs.len() - 1 });
    }
    if m == rs.len() {
        assert(rs.take(m) =~= rs);
        assert(take_all(v, rs).0.take(m) =~= take_all(v, rs).0);
    } else {
        assert(rs.take(m) =~= rs.drop_last().take(m));
        assert(take_all(v, rs).0.take(m) =~= take_all(v, rs.drop_last()).0.take(m));
    }
}

/// Whether `requested` can be taken from `cache` and each outcome split.
pub fn can_take_and_split(cache: &PreDerivedKeysCache, requested: &QuantifiedUnindexDerivationRequests) -> (b: bool)
    ensures
        b == (take_allowed(cache@, requested@) && outcomes_split_allowed(cache@, requested@)),
{
    let rs = requested.requests();
    let ghost v0 = cache@;
    let ghost all = requested@;
    let mut c = cache.clone_snapshot();
    let mut i: usize = 0;
    proof {
        assert(all.take(0) =~= Seq::<QuantifiedUnindexDerivationRequest>::empty());
        lemma_take_all_prefix(v0, all, all.len() as int);
        assert(all.take(all.len() as int) =~= all);
    }
    while i < rs.len()
        invariant
            i <= rs@.len(),
            rs@ == all,
            v0 == cache@,
            all == requested@,
            c@ == take_all(v0, all.take(i as int)).1,
            take_allowed(v0, all.take(i as int)),
            forall|x: (QuantifiedUnindexDerivationRequest, OutcomeView)| #[trigger] take_all(v0, all.take(i as int)).0.contains(x)
                ==> split_allowed(x.0, x.1),
        decreases rs@.len() - i,
    {
        let r = rs[i];
        let ghost pre = all.take(i as int);
        let ghost next = all.take(i + 1);
        proof {
            assert(next.drop_last() =~= pre);
            assert(next.last() == r);
            lemma_take_all_prefix(v0, all, i + 1);
        }
        if !c.can_take_one(&r) {
            proof {
                assert(!take_allowed(v0, next));
            }
            return false;
        }
        let ghost x = (r, take_one(take_all(v0, pre).1, r).0);
        let ghost e = Seq::<(QuantifiedUnindexDerivationRequest, OutcomeView)>::empty();
        let one = QuantifiedUnindexDerivationRequests::new(vec![r]);
        proof {
            assert(one@.drop_last() =~= Seq::<QuantifiedUnindexDerivationRequest>::empty());
            assert(one@.last() == r);
            assert(one@.len() == 1);
            assert(take_all(take_all(v0, pre).1, one@.drop_last()) == (e, take_all(v0, pre).1));
            assert(take_allowed(take_all(v0, pre).1, one@.drop_last()));
        }
        let taken = c.take(&one).unwrap();
        let outs = taken.outcomes();
        proof {
            assert(take_all(v0, next).0 == take_all(v0, pre).0.push(x));
            assert(take_all(v0, pre).1 == take_all(v0, pre).1);
            assert(seq![x].drop_last() =~= e);
            assert(seq![x].last() == x);
            assert(take_all(take_all(v0, pre).1, one@).0 =~= e.push(x));
            assert(append_new(e, e.push(x)) =~= seq![x]) by {
                assert(e.push(x).drop_last() =~= e);
                assert(e.push(x).last() == x);
                assert(append_new(e, e) == e);
                assert(!e.contains(x));
                assert(append_new(e, e.push(x)) == append_new(e, e).push(x));
            }
            assert(outcome_views(outs@).len() == 1);
            assert(outcome_views(outs@)[0] == outs@[0]@);
        }
        if !check_split_allowed(&outs[0]) {
            proof {
                lemma_take_all_prefix(v0, all, i as int);
                assert(take_all(v0, pre).0.len() == i);
                assert(take_all(v0, next).0[i as int] == x);
                assert(take_all(v0, all).0.take(i + 1)[i as int] == x);
                assert(take_all(v0, all).0[i as int] == x);
                assert(take_all(v0, all).0.contains(x));
            }
            return false;
        }
        proof {
            assert forall|y: (QuantifiedUnindexDerivationRequest, OutcomeView)| #[trigger] take_all(v0, next).0.contains(y)
                implies split_allowed(y.0, y.1) by {
                let k = choose|k: int| 0 <= k < take_all(v0, next).0.len() && take_all(v0, next).0[k] == y;
                if k < take_all(v0, pre).0.len() {
                    assert(take_all(v0, pre).0[k] == y);
                    assert(take_all(v0, pre).0.contains(y));
                }
            }
        }
        i = i + 1;
    }
    proof {
        assert(all.take(i as int) =~= all);
    }
    true
}

/// Takes what the cache holds for `requested` and splits it into the
/// instances it satisfied and the requests to derive more for. Where more
/// must be derived, also returns the paths to derive for them and to fill the
/// caches of the purpose's factor sources, planned against the cache as the
/// take left it; the assigner then moves on for every range it placed.
pub fn take_and_plan(
    cache: &mut PreDerivedKeysCache,
    next_index_assigner: &mut NextIndexAssignerWithEphemeralLocalOffsets,
    purpose: &FactorInstancesRequestPurpose,
    requested: &QuantifiedUnindexDerivationRequests,
) -> (r: (SplitFactorInstancesFromCache, Option<OrderedMap<FactorSourceIDFromHash, OrderedSet<DerivationPath>>>))
    requires
        plan_allowed(old(cache)@, *old(next_index_assigner), *purpose, requested@),
    ensures
        take_and_plan_done(old(cache)@, final(cache)@, *old(next_index_assigner), *final(next_index_assigner), *purpose, requested@, r),
{
    let ghost v0 = cache@;
    let from_cache = cache.take(requested).unwrap();
    proof {
        lemma_append_new(Seq::<(QuantifiedUnindexDerivationRequest, OutcomeView)>::empty(), take_all(v0, requested@).0);
        assert forall|i: int| 0 <= i < from_cache@.len() implies split_allowed(
            (#[trigger] from_cache@[i]).0,
            from_cache@[i].1,
        ) by {
            assert(from_cache@.contains(from_cache@[i]));
            assert(take_all(v0, requested@).0.contains(from_cache@[i]));
        }
    }
    let split = split_cache_response(&from_cache);
    match split.derive_more_requests() {
        None => (split, None),
        Some(reqs) => {
            let snapshot = cache.clone_snapshot();
            let paths = paths_for_additional_derivation(next_index_assigner, &reqs, purpose, &snapshot);
            (split, Some(paths))
        },
    }
}

/// [`take_and_plan`] where it can be made; `None`, with the cache and the
/// assigner unchanged, where it cannot.
pub fn try_take_and_plan(
    cache: &mut PreDerivedKeysCache,
    next_index_assigner: &mut NextIndexAssignerWithEphemeralLocalOffsets,
    purpose: &FactorInstancesRequestPurpose,
    requested: &QuantifiedUnindexDerivationRequests,
) -> (r: Option<(SplitFactorInstancesFromCache, Option<OrderedMap<FactorSourceIDFromHash, OrderedSet<DerivationPath>>>)>)
    ensures
        r is None <==> !plan_allowed(old(cache)@, *old(next_index_assigner), *purpose, requested@),
        r is None ==> final(cache)@ == old(cache)@ && *final(next_index_assigner) == *old(next_index_assigner),
        r matches Some(x) ==> take_and_plan_done(
            old(cache)@,
            final(cache)@,
            *old(next_index_assigner),
            *final(next_index_assigner),
            *purpose,
            requested@,
            x,
        ),
{
    if !can_take_and_split(cache, requested) {
        return None;
    }
    let ghost v0 = cache@;
    let mut probe = cache.clone_snapshot();
    let from_cache = probe.take(requested).unwrap();
    proof {
        lemma_append_new(Seq::<(QuantifiedUnindexDerivationRequest, OutcomeView)>::empty(), take_all(v0, requested@).0);
        assert forall|i: int| 0 <= i < from_cache@.len() implies split_allowed(
            (#[trigger] from_cache@[i]).0,
            from_cache@[i].1,
        ) by {
            assert(from_cache@.contains(from_cache@[i]));
            assert(take_all(v0, requested@).0.contains(from_cache@[i]));
        }
    }
    let split = split_cache_response(&from_cache);
    match split.derive_more_requests() {
        Some(reqs) => {
            if !can_plan(next_index_assigner, &reqs, purpose, &probe) {
                return None;
            }
        },
        None => {},
    }
    Some(take_and_plan(cache, next_index_assigner, purpose, requested))
}

/// Once the paths were derived as `derived`: with no request to derive more
/// for, the instances the cache satisfied, and nothing derived; else those
/// followed by what the purpose uses directly of `derived`, the rest of
/// `derived` being cached.
pub fn use_derived(
    cache: &mut PreDerivedKeysCache,
    purpose: &FactorInstancesRequestPurpose,
    split: &SplitFactorInstancesFromCache,
    derived: &FactorInstances,
) -> (r: (FactorInstances, DidDeriveNewFactorInstances))
    requires
        split@.0.len() > 0 ==> split_fits(*purpose, split@.0, derived@),
        split@.0.len() > 0 ==> puts_allowed(old(cache)@, planned_newly_derived(*purpose, split@.0, derived@)),
    ensures
        split@.0.len() == 0 ==> r.0@ == split@.1 && r.1 == DidDeriveNewFactorInstances(false) && final(cache)@ == old(cache)@,
        split@.0.len() > 0 ==> r.0@ == used_after(split@.1, planned_newly_derived(*purpose, split@.0, derived@)) && r.1
            == DidDeriveNewFactorInstances(true) && final(cache)@ == cache_after(
            old(cache)@,
            planned_newly_derived(*purpose, split@.0, derived@),
        ),
{
    let satisfied = split.satisfied_by_cache();
    match split.derive_more_requests() {
        None => (satisfied, DidDeriveNewFactorInstances(false)),
        Some(reqs) => {
            let newly_derived = newly_derived_per_request(purpose, &reqs, derived);
            let used = use_and_cache(cache, &satisfied, &newly_derived);
            (used, DidDeriveNewFactorInstances(true))
        },
    }
}

/// [`use_derived`] where what was derived can be split and cached;
/// `None`, with the cache unchanged, where it cannot.
pub fn try_use_derived(
    cache: &mut PreDerivedKeysCache,
    purpose: &FactorInstancesRequestPurpose,
    split: &SplitFactorInstancesFromCache,
    derived: &FactorInstances,
) -> (r: Option<(FactorInstances, DidDeriveNewFactorInstances)>)
    ensures
        r is None <==> (split@.0.len() > 0 && !(split_fits(*purpose, split@.0, derived@) && puts_allowed(
            old(cache)@,
            planned_newly_derived(*purpose, split@.0, derived@),
        ))),
        r is None ==> final(cache)@ == old(cache)@,
        r matches Some(x) ==> (split@.0.len() == 0 ==> x.0@ == split@.1 && x.1 == DidDeriveNewFactorInstances(false)
            && final(cache)@ == old(cache)@),
        r matches Some(x) ==> (split@.0.len() > 0 ==> x.0@ == used_after(split@.1, planned_newly_derived(*purpose, split@.0, derived@))
            && x.1 == DidDeriveNewFactorInstances(true) && final(cache)@ == cache_after(
            old(cache)@,
            planned_newly_derived(*purpose, split@.0, derived@),
        )),
{
    match split.derive_more_requests() {
        Some(reqs) => {
            if !check_split_fits(purpose, &reqs, derived) {
                return None;
            }
            let newly_derived = newly_derived_per_request(purpose, &reqs, derived);
            if !can_put_all(cache, &newly_derived) {
                return None;
            }
        },
        None => {},
    }
    Some(use_derived(cache, purpose, split, derived))
}

/// A provider of factor instances for a purpose: it reads them from the
/// pre-derived keys cache and, where that falls short, derives many in
/// abundance, caching those not asked for. The assigner of next indices is
/// made here, since its local offsets cannot be reused.
pub struct FactorInstancesProvider {
    pub purpose: FactorInstancesRequestPurpose,
    pub cache: PreDerivedKeysCache,
    pub next_index_assigner: NextIndexAssignerWithEphemeralLocalOffsets,
}

impl FactorInstancesProvider {
    /// A provider for `purpose`, with `maybe_cache` or else an empty cache,
    /// and an assigner reading `maybe_profile_snapshot` with no index
    /// assigned yet.
    pub fn new(
        purpose: FactorInstancesRequestPurpose,
        maybe_cache: Option<PreDerivedKeysCache>,
        maybe_profile_snapshot: Option<Profile>,
    ) -> (p: Self)
        ensures
            p.purpose == purpose,
            p.cache@ == match maybe_cache {
                Some(c) => c@,
                None => Seq::<(UnquantifiedUnindexDerivationRequest, Seq<HierarchicalDeterministicFactorInstance>)>::empty(),
            },
            p.next_index_assigner.spec_profile() == maybe_profile_snapshot,
            forall|k: UnquantifiedUnindexDerivationRequest| #[trigger] p.next_index_assigner.spec_offset(k) == 0,
    {
        let next_index_assigner = NextIndexAssignerWithEphemeralLocalOffsets::new(maybe_profile_snapshot);
        let cache = match maybe_cache {
            Some(c) => c,
            None => PreDerivedKeysCache::default(),
        };
        FactorInstancesProvider { purpose, cache, next_index_assigner }
    }

    /// Onboarding account recovery scan with `factor_sources`, from an empty
    /// cache and without a profile.
    pub fn oars(factor_sources: &Vec<HDFactorSource>) -> (p: Self)
        ensures
            p.purpose is OARS,
            purpose_factor_sources(p.purpose) == factor_sources@,
            p.cache@.len() == 0,
            p.next_index_assigner.spec_profile() == None::<Profile>,
            forall|k: UnquantifiedUnindexDerivationRequest| #[trigger] p.next_index_assigner.spec_offset(k) == 0,
    {
        let mut copy: Vec<HDFactorSource> = Vec::new();
        let mut i: usize = 0;
        while i < factor_sources.len()
            invariant
                i <= factor_sources@.len(),
                copy@ == factor_sources@.take(i as int),
            decreases factor_sources@.len() - i,
        {
            copy.push(factor_sources[i]);
            assert(factor_sources@.take(i + 1) =~= factor_sources@.take(i as int).push(factor_sources@[i as int]));
            i = i + 1;
        }
        assert(factor_sources@.take(i as int) =~= factor_sources@);
        Self::new(FactorInstancesRequestPurpose::OARS { factor_sources: copy }, None, None)
    }

    /// Instances pre-derived for the new factor source `factor_source`.
    pub fn pre_derive_instance_for_new_factor_source(
        factor_source: &HDFactorSource,
        cache: Option<PreDerivedKeysCache>,
        profile_snapshot: Profile,
    ) -> (p: Self)
        ensures
            p.purpose == (FactorInstancesRequestPurpose::PreDeriveInstancesForNewFactorSource { factor_source: *factor_source }),
            p.cache@ == match cache {
                Some(c) => c@,
                None => Seq::<(UnquantifiedUnindexDerivationRequest, Seq<HierarchicalDeterministicFactorInstance>)>::empty(),
            },
            p.next_index_assigner.spec_profile() == Some(profile_snapshot),
            forall|k: UnquantifiedUnindexDerivationRequest| #[trigger] p.next_index_assigner.spec_offset(k) == 0,
    {
        Self::new(
            FactorInstancesRequestPurpose::PreDeriveInstancesForNewFactorSource { factor_source: *factor_source },
            cache,
            Some(profile_snapshot),
        )
    }

    /// A new virtual unsecurified account on `network_id`, controlled by
    /// `factor_source`.
    pub fn new_virtual_unsecurified_account(
        network_id: NetworkID,
        factor_source: &HDFactorSource,
        cache: Option<PreDerivedKeysCache>,
        profile_snapshot: Profile,
    ) -> (p: Self)
        ensures
            p.purpose == (FactorInstancesRequestPurpose::NewVirtualUnsecurifiedAccount { network_id, factor_source: *factor_source }),
            p.cache@ == match cache {
                Some(c) => c@,
                None => Seq::<(UnquantifiedUnindexDerivationRequest, Seq<HierarchicalDeterministicFactorInstance>)>::empty(),
            },
            p.next_index_assigner.spec_profile() == Some(profile_snapshot),
            forall|k: UnquantifiedUnindexDerivationRequest| #[trigger] p.next_index_assigner.spec_offset(k) == 0,
    {
        Self::new(
            FactorInstancesRequestPurpose::NewVirtualUnsecurifiedAccount { network_id, factor_source: *factor_source },
            cache,
            Some(profile_snapshot),
        )
    }

    /// A security shield of `matrix_of_factor_sources` set on, or updated
    /// for, `accounts`, which the profile holds.
    pub fn update_or_set_security_shield_for_accounts(
        accounts: Accounts,
        matrix_of_factor_sources: MatrixOfFactorSources,
        cache: Option<PreDerivedKeysCache>,
        profile_snapshot: Profile,
    ) -> (p: Self)
        requires
            forall|i: int| 0 <= i < accounts.spec_accounts().len() ==> profile_snapshot.spec_contains_address(
                AddressOfAccountOrPersona::Account((#[trigger] accounts.spec_accounts()[i]).address),
            ),
        ensures
            p.purpose == (FactorInstancesRequestPurpose::UpdateOrSetSecurityShieldForAccounts { accounts, matrix_of_factor_sources }),
            p.cache@ == match cache {
                Some(c) => c@,
                None => Seq::<(UnquantifiedUnindexDerivationRequest, Seq<HierarchicalDeterministicFactorInstance>)>::empty(),
            },
            p.next_index_assigner.spec_profile() == Some(profile_snapshot),
            forall|k: UnquantifiedUnindexDerivationRequest| #[trigger] p.next_index_assigner.spec_offset(k) == 0,
    {
        Self::new(
            FactorInstancesRequestPurpose::UpdateOrSetSecurityShieldForAccounts { accounts, matrix_of_factor_sources },
            cache,
            Some(profile_snapshot),
        )
    }
}

} // verus!
