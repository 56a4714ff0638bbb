use sargon_mfa::factor_instances_provider::newly_derived::NewlyDerived;
use sargon_mfa::factor_instances_provider::next_derivation_index_analyzer::{
    EphemeralLocalIndexOffsets, NextDerivationIndexFromProfile, NextIndexAssignerWithEphemeralLocalOffsets,
};
use sargon_mfa::playground::FactorSourceDerivations;
use sargon_mfa::pre_derived_keys_cache::cache_outcome::{
    FactorInstancesFromCache, LoadFromCacheOutcome, LoadFromCacheOutcomeForSingleRequest,
};
use sargon_mfa::pre_derived_keys_cache::pre_derived_keys_cache::PreDerivedKeysCache;
use sargon_mfa::pre_derived_keys_cache::requests::{
    QuantifiedUnindexDerivationRequest, QuantifiedUnindexDerivationRequests, UnquantifiedUnindexDerivationRequest,
};
use sargon_mfa::types::appendable::OrderedSet;
use sargon_mfa::types::derivation::{CAP26EntityKind, CAP26KeyKind, HDPathComponent, KeySpace};
use sargon_mfa::types::entities::{Account, Profile};
use sargon_mfa::types::factor_instances::FactorInstances;
use sargon_mfa::types::keys::{FactorSourceIDFromHash, HDFactorSource, HierarchicalDeterministicFactorInstance};
use sargon_mfa::types::network::NetworkID;

fn account_veci_request(fsid: FactorSourceIDFromHash) -> UnquantifiedUnindexDerivationRequest {
    UnquantifiedUnindexDerivationRequest::new(
        fsid,
        NetworkID::Mainnet,
        CAP26EntityKind::Account,
        CAP26KeyKind::TransactionSigning,
        KeySpace::Unsecurified,
    )
}

fn quantified(fsid: FactorSourceIDFromHash, quantity: usize) -> QuantifiedUnindexDerivationRequest {
    QuantifiedUnindexDerivationRequest::new(
        fsid,
        NetworkID::Mainnet,
        CAP26EntityKind::Account,
        CAP26KeyKind::TransactionSigning,
        KeySpace::Unsecurified,
        quantity,
    )
}

fn account_vecis(fsid: FactorSourceIDFromHash, indices: &[u32]) -> FactorInstances {
    FactorInstances::new(
        indices
            .iter()
            .map(|i| {
                HierarchicalDeterministicFactorInstance::mainnet_tx(
                    CAP26EntityKind::Account,
                    HDPathComponent::unsecurified_hardening_base_index(*i),
                    fsid,
                )
            })
            .collect(),
    )
}

fn base_indices(instances: &FactorInstances) -> Vec<u32> {
    instances.factor_instances().iter().map(|f| f.derivation_entity_base_index()).collect()
}

fn single_outcome(cache: &mut PreDerivedKeysCache, quantity: usize) -> LoadFromCacheOutcome {
    let fsid = FactorSourceIDFromHash::fs0();
    let taken = cache.take(&QuantifiedUnindexDerivationRequests::new(vec![quantified(fsid, quantity)])).unwrap();
    let outcomes = taken.outcomes();
    assert_eq!(outcomes.len(), 1);
    assert_eq!(outcomes[0].request, quantified(fsid, quantity));
    outcomes[0].outcome()
}

#[test]
fn take_exactly_what_was_put_leaves_no_spare() {
    let fsid = FactorSourceIDFromHash::fs0();
    let mut cache = PreDerivedKeysCache::default();
    cache.put(account_veci_request(fsid), account_vecis(fsid, &[0, 1, 2])).unwrap();
    assert_eq!(cache.total_number_of_factor_instances(), 3);
    match single_outcome(&mut cache, 3) {
        LoadFromCacheOutcome::FullySatisfiedWithoutSpare(f) => assert_eq!(base_indices(&f), vec![0, 1, 2]),
        other => panic!("unexpected {:?}", other),
    }
    assert_eq!(cache.total_number_of_factor_instances(), 0);
}

#[test]
fn take_fewer_than_cached_keeps_the_rest() {
    let fsid = FactorSourceIDFromHash::fs0();
    let mut cache = PreDerivedKeysCache::default();
    cache.put(account_veci_request(fsid), account_vecis(fsid, &[0, 1, 2, 3])).unwrap();
    match single_outcome(&mut cache, 1) {
        LoadFromCacheOutcome::FullySatisfiedWithSpare(f) => assert_eq!(base_indices(&f), vec![0]),
        other => panic!("unexpected {:?}", other),
    }
    assert_eq!(base_indices(&cache.all_factor_instances()), vec![1, 2, 3]);
    assert!(cache.is_saturated_for(&quantified(fsid, 3)));
    assert!(!cache.is_saturated_for(&quantified(fsid, 4)));
}

#[test]
fn take_more_than_cached_is_partial() {
    let fsid = FactorSourceIDFromHash::fs0();
    let mut cache = PreDerivedKeysCache::default();
    cache.put(account_veci_request(fsid), account_vecis(fsid, &[5, 6])).unwrap();
    match single_outcome(&mut cache, 5) {
        LoadFromCacheOutcome::PartiallySatisfied {
            partial_from_cache,
            number_of_instances_needed_to_fully_satisfy_request,
        } => {
            assert_eq!(base_indices(&partial_from_cache), vec![5, 6]);
            assert_eq!(number_of_instances_needed_to_fully_satisfy_request, 3);
        },
        other => panic!("unexpected {:?}", other),
    }
    assert_eq!(cache.total_number_of_factor_instances(), 0);
}

#[test]
fn take_from_empty_cache() {
    let mut cache = PreDerivedKeysCache::default();
    match single_outcome(&mut cache, 2) {
        LoadFromCacheOutcome::CacheIsEmpty { number_of_instances_needed_to_fully_satisfy_request } => {
            assert_eq!(number_of_instances_needed_to_fully_satisfy_request, 2)
        },
        other => panic!("unexpected {:?}", other),
    }
    assert!(!cache.is_saturated_for(&quantified(FactorSourceIDFromHash::fs0(), 1)));
}

#[test]
fn put_appends_after_existing() {
    let fsid = FactorSourceIDFromHash::fs0();
    let mut cache = PreDerivedKeysCache::default();
    cache.put(account_veci_request(fsid), account_vecis(fsid, &[0, 1])).unwrap();
    cache.put(account_veci_request(fsid), account_vecis(fsid, &[2, 3])).unwrap();
    assert_eq!(base_indices(&cache.all_factor_instances()), vec![0, 1, 2, 3]);
    let snapshot = cache.clone_snapshot();
    assert_eq!(base_indices(&snapshot.all_factor_instances()), vec![0, 1, 2, 3]);
}

#[test]
fn new_groups_by_request() {
    let fs0 = FactorSourceIDFromHash::fs0();
    let fs1 = FactorSourceIDFromHash::fs1();
    let mut all = account_vecis(fs0, &[0, 1]);
    all.extend(&account_vecis(fs1, &[0]));
    all.extend(&account_vecis(fs0, &[2]));
    let mut cache = PreDerivedKeysCache::new(all);
    assert_eq!(cache.total_number_of_factor_instances(), 4);
    assert!(cache.is_saturated_for(&quantified(fs0, 3)));
    assert!(!cache.is_saturated_for(&quantified(fs1, 2)));
    let taken = cache
        .take(&QuantifiedUnindexDerivationRequests::new(vec![quantified(fs0, 3), quantified(fs1, 1)]))
        .unwrap();
    assert_eq!(taken.outcomes().len(), 2);
    assert_eq!(cache.total_number_of_factor_instances(), 0);
}

#[test]
fn equal_outcomes_are_kept_once() {
    let mut cache = PreDerivedKeysCache::default();
    let r = quantified(FactorSourceIDFromHash::fs0(), 1);
    let taken = cache.take(&QuantifiedUnindexDerivationRequests::new(vec![r, r])).unwrap();
    assert_eq!(taken.outcomes().len(), 1);
    let o = LoadFromCacheOutcome::CacheIsEmpty { number_of_instances_needed_to_fully_satisfy_request: 1 };
    let one = LoadFromCacheOutcomeForSingleRequest::new(r, o.clone());
    let two = LoadFromCacheOutcomeForSingleRequest::new(r, o);
    assert_eq!(FactorInstancesFromCache::new(vec![one, two]).outcomes().len(), 1);
}

#[test]
fn outcome_must_answer_request() {
    let fs0 = FactorSourceIDFromHash::fs0();
    let fs1 = FactorSourceIDFromHash::fs1();
    let outcome = LoadFromCacheOutcome::FullySatisfiedWithSpare(account_vecis(fs1, &[0]));
    assert!(!LoadFromCacheOutcomeForSingleRequest::fits(&quantified(fs0, 1), &outcome));
    assert!(LoadFromCacheOutcomeForSingleRequest::fits(&quantified(fs1, 1), &outcome));
}

#[test]
fn instance_satisfies_its_own_request() {
    let fs0 = FactorSourceIDFromHash::fs0();
    let f = account_vecis(fs0, &[4]).first().unwrap();
    assert!(f.satisfies(account_veci_request(fs0)));
    assert_eq!(UnquantifiedUnindexDerivationRequest::from_instance(&f), account_veci_request(fs0));
    assert!(!f.satisfies(account_veci_request(FactorSourceIDFromHash::fs1())));
    assert_eq!(quantified(fs0, 7).unquantified(), account_veci_request(fs0));
    assert_eq!(quantified(fs0, 7).requested_quantity(), 7);
}

#[test]
fn newly_derived_caches_what_it_should() {
    let fs0 = FactorSourceIDFromHash::fs0();
    let nd = NewlyDerived::maybe_some_to_use_directly(account_veci_request(fs0), account_vecis(fs0, &[1, 2]), account_vecis(fs0, &[0]));
    let (key, to_cache) = nd.key_value_for_cache();
    assert_eq!(key, account_veci_request(fs0));
    assert_eq!(base_indices(&to_cache), vec![1, 2]);
    assert_eq!(base_indices(&nd.to_use_directly), vec![0]);
    let all = NewlyDerived::cache_all(account_veci_request(fs0), account_vecis(fs0, &[3]));
    assert!(all.to_use_directly.is_empty());
}

#[test]
fn read_next_from_profile() {
    let profile = Profile::new(HDFactorSource::all(), vec![Account::a8(), Account::a7()], vec![]);
    let sut = NextDerivationIndexFromProfile::new(profile);
    assert_eq!(
        sut.read_next(account_veci_request(FactorSourceIDFromHash::fs10())),
        Some(HDPathComponent::unsecurified_hardening_base_index(9))
    );
    let securified = UnquantifiedUnindexDerivationRequest::new(
        FactorSourceIDFromHash::fs2(),
        NetworkID::Mainnet,
        CAP26EntityKind::Account,
        CAP26KeyKind::TransactionSigning,
        KeySpace::Securified,
    );
    assert_eq!(sut.read_next(securified), Some(HDPathComponent::securifying_base_index(8)));
    assert_eq!(sut.read_next(account_veci_request(FactorSourceIDFromHash::fs1())), None);
}

#[test]
fn next_index_moves_on_locally() {
    let profile = Profile::new(HDFactorSource::all(), vec![Account::a0()], vec![]);
    let mut sut = NextIndexAssignerWithEphemeralLocalOffsets::new(Some(profile));
    let r = account_veci_request(FactorSourceIDFromHash::fs0());
    assert_eq!(sut.next(r), HDPathComponent::unsecurified_hardening_base_index(1));
    assert_eq!(sut.next(r), HDPathComponent::unsecurified_hardening_base_index(2));
    let other = account_veci_request(FactorSourceIDFromHash::fs1());
    assert_eq!(sut.next(other), HDPathComponent::unsecurified_hardening_base_index(0));
    let mut without_profile = NextIndexAssignerWithEphemeralLocalOffsets::new(None);
    assert_eq!(without_profile.next(r), HDPathComponent::unsecurified_hardening_base_index(0));
}

#[test]
fn local_offsets_count_per_request() {
    let mut offsets = EphemeralLocalIndexOffsets::default();
    let r0 = account_veci_request(FactorSourceIDFromHash::fs0());
    let r1 = account_veci_request(FactorSourceIDFromHash::fs1());
    assert_eq!(offsets.write_next(r0), 0);
    assert_eq!(offsets.write_next(r0), 1);
    assert_eq!(offsets.write_next(r1), 0);
    assert_eq!(offsets.write_next(r0), 2);
}

#[test]
fn factor_source_derivations_start_at_zero() {
    let added = FactorSourceDerivations::add_factor_source(HDFactorSource::sample());
    assert_eq!(added.start_base_index_of(&HDFactorSource::sample()), Some(0));
    let single = FactorSourceDerivations::single_factor_source(HDFactorSource::sample(), 5);
    assert_eq!(single.start_base_index_of(&HDFactorSource::sample()), Some(5));
    let all = HDFactorSource::all();
    let recovered = FactorSourceDerivations::recovery(OrderedSet::from_vec(all.clone()));
    for f in all.iter() {
        assert_eq!(recovered.start_base_index_of(f), Some(0));
    }
    assert_eq!(added.start_base_index_of(&all[1]), None);
}
