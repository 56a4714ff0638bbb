use sargon_mfa::factor_instances_provider::additional_derivation::paths_for_additional_derivation;
use sargon_mfa::factor_instances_provider::derive_more::{
    fill_cache_requests_for, Accounts, AnyFactorDerivationRequest, DerivationRequestWithRange, DeriveMore,
    FactorInstancesRequestPurpose,
    SecurifiedAccounts, UnsecurifiedAccounts,
};
use sargon_mfa::factor_instances_provider::derived_instances::{
    can_put_all, check_split_fits, newly_derived_per_request, use_and_cache, DidDeriveNewFactorInstances,
};
use sargon_mfa::factor_instances_provider::newly_derived::NewlyDerived;
use sargon_mfa::factor_instances_provider::pre_derived_provider::{
    can_take_and_split, take_and_plan, try_take_and_plan, try_use_derived, use_derived,
    FactorInstancesProvider as PreDerivedProvider,
};
use sargon_mfa::factor_instances_provider::additional_derivation::can_plan;
use sargon_mfa::factor_instances_provider::split_cache_response::check_split_allowed;
use sargon_mfa::factor_instances_provider::provider::outcome::FactorInstancesProviderOutcome;
use sargon_mfa::types::ordered_map::OrderedMap;
use sargon_mfa::factor_instances_provider::next_derivation_index_analyzer::NextIndexAssignerWithEphemeralLocalOffsets;
use sargon_mfa::factor_instances_provider::split_cache_response::split_cache_response;
use sargon_mfa::pre_derived_keys_cache::cache_outcome::{
    Action, FactorInstancesFromCache, LoadFromCacheOutcome, LoadFromCacheOutcomeForSingleRequest,
};
use sargon_mfa::pre_derived_keys_cache::pre_derived_keys_cache::PreDerivedKeysCache;
use sargon_mfa::pre_derived_keys_cache::requests::{
    QuantifiedUnindexDerivationRequest, QuantifiedUnindexDerivationRequests, UnquantifiedUnindexDerivationRequest,
};
use sargon_mfa::types::derivation::{CAP26EntityKind, CAP26KeyKind, DerivationPath, HDPathComponent, KeySpace};
use sargon_mfa::types::entities::{Account, MatrixOfFactorSources, Profile};
use sargon_mfa::types::factor_instances::FactorInstances;
use sargon_mfa::types::keys::{FactorSourceIDFromHash, HDFactorSource, HierarchicalDeterministicFactorInstance};
use sargon_mfa::types::network::NetworkID;

fn veci(fsid: FactorSourceIDFromHash) -> UnquantifiedUnindexDerivationRequest {
    UnquantifiedUnindexDerivationRequest::new(
        fsid,
        NetworkID::Mainnet,
        CAP26EntityKind::Account,
        CAP26KeyKind::TransactionSigning,
        KeySpace::Unsecurified,
    )
}

fn quantified(fsid: FactorSourceIDFromHash, quantity: usize) -> QuantifiedUnindexDerivationRequest {
    QuantifiedUnindexDerivationRequest::new(
        fsid,
        NetworkID::Mainnet,
        CAP26EntityKind::Account,
        CAP26KeyKind::TransactionSigning,
        KeySpace::Unsecurified,
        quantity,
    )
}

fn account_vecis(fsid: FactorSourceIDFromHash, indices: &[u32]) -> FactorInstances {
    FactorInstances::new(
        indices
            .iter()
            .map(|i| {
                HierarchicalDeterministicFactorInstance::mainnet_tx(
                    CAP26EntityKind::Account,
                    HDPathComponent::unsecurified_hardening_base_index(*i),
                    fsid,
                )
            })
            .collect(),
    )
}

fn base_indices(instances: &FactorInstances) -> Vec<u32> {
    instances.factor_instances().iter().map(|f| f.derivation_entity_base_index()).collect()
}

fn range(fsid: FactorSourceIDFromHash, quantity: usize, start: u32) -> DerivationRequestWithRange {
    DerivationRequestWithRange::new(
        fsid,
        NetworkID::Mainnet,
        CAP26EntityKind::Account,
        CAP26KeyKind::TransactionSigning,
        KeySpace::Unsecurified,
        quantity,
        start,
    )
}

fn veci_path(index: u32) -> DerivationPath {
    DerivationPath::account_tx(NetworkID::Mainnet, HDPathComponent::unsecurified_hardening_base_index(index))
}

#[test]
fn range_paths_are_consecutive() {
    let r = range(FactorSourceIDFromHash::fs0(), 3, 7);
    assert_eq!(r.derivation_paths(), vec![veci_path(7), veci_path(8), veci_path(9)]);
    assert_eq!(r.end_base_index(), 10);
    assert_eq!(r.unquantified(), veci(FactorSourceIDFromHash::fs0()));
    let after = DerivationRequestWithRange::from_request_and_last_index(&quantified(FactorSourceIDFromHash::fs0(), 4), 9);
    assert_eq!(after, range(FactorSourceIDFromHash::fs0(), 4, 10));
}

#[test]
fn action_without_spare_continues_after_largest_index() {
    let fs0 = FactorSourceIDFromHash::fs0();
    let outcome = LoadFromCacheOutcome::FullySatisfiedWithoutSpare(account_vecis(fs0, &[3, 1, 2]));
    let single = LoadFromCacheOutcomeForSingleRequest::new(quantified(fs0, 3), outcome);
    assert_eq!(single.request(), quantified(fs0, 3));
    match single.action() {
        Action::FullySatisfiedWithoutSpare { from_cache, next } => {
            assert_eq!(base_indices(&from_cache), vec![3, 1, 2]);
            assert_eq!(next, range(fs0, 3, 4));
        },
        other => panic!("unexpected {:?}", other),
    }
}

#[test]
fn action_partially_satisfied_derives_the_rest() {
    let fs0 = FactorSourceIDFromHash::fs0();
    let outcome = LoadFromCacheOutcome::PartiallySatisfied {
        partial_from_cache: account_vecis(fs0, &[5, 6]),
        number_of_instances_needed_to_fully_satisfy_request: 3,
    };
    let single = LoadFromCacheOutcomeForSingleRequest::new(quantified(fs0, 5), outcome);
    match single.action() {
        Action::PartiallySatisfied { partial_from_cache, derive_more, number_of_instances_needed_to_fully_satisfy_request } => {
            assert_eq!(base_indices(&partial_from_cache), vec![5, 6]);
            assert_eq!(derive_more, range(fs0, 5, 7));
            assert_eq!(number_of_instances_needed_to_fully_satisfy_request, 3);
        },
        other => panic!("unexpected {:?}", other),
    }
}

#[test]
fn action_with_spare_and_empty_cache() {
    let fs0 = FactorSourceIDFromHash::fs0();
    let spare = LoadFromCacheOutcomeForSingleRequest::new(
        quantified(fs0, 1),
        LoadFromCacheOutcome::FullySatisfiedWithSpare(account_vecis(fs0, &[0])),
    );
    match spare.action() {
        Action::FullySatisfiedWithSpare(f) => assert_eq!(base_indices(&f), vec![0]),
        other => panic!("unexpected {:?}", other),
    }
    let empty = LoadFromCacheOutcomeForSingleRequest::new(
        quantified(fs0, 2),
        LoadFromCacheOutcome::CacheIsEmpty { number_of_instances_needed_to_fully_satisfy_request: 2 },
    );
    match empty.action() {
        Action::CacheIsEmpty { number_of_instances_needed_to_fully_satisfy_request } => {
            assert_eq!(number_of_instances_needed_to_fully_satisfy_request, 2)
        },
        other => panic!("unexpected {:?}", other),
    }
}

#[test]
fn split_cache_response_separates_satisfied_and_derive_more() {
    let fs0 = FactorSourceIDFromHash::fs0();
    let fs1 = FactorSourceIDFromHash::fs1();
    let fs2 = FactorSourceIDFromHash::fs2();
    let outcomes = FactorInstancesFromCache::new(vec![
        LoadFromCacheOutcomeForSingleRequest::new(
            quantified(fs0, 1),
            LoadFromCacheOutcome::FullySatisfiedWithSpare(account_vecis(fs0, &[0])),
        ),
        LoadFromCacheOutcomeForSingleRequest::new(
            quantified(fs1, 2),
            LoadFromCacheOutcome::FullySatisfiedWithoutSpare(account_vecis(fs1, &[0, 1])),
        ),
        LoadFromCacheOutcomeForSingleRequest::new(
            quantified(fs2, 1),
            LoadFromCacheOutcome::CacheIsEmpty { number_of_instances_needed_to_fully_satisfy_request: 1 },
        ),
    ]);
    let split = split_cache_response(&outcomes);
    let satisfied = split.satisfied_by_cache();
    assert_eq!(base_indices(&satisfied), vec![0, 0, 1]);
    let ids: Vec<FactorSourceIDFromHash> = satisfied.factor_instances().iter().map(|f| f.factor_source_id()).collect();
    assert_eq!(ids, vec![fs0, fs1, fs1]);
    assert_eq!(
        split.derive_more_requests(),
        Some(vec![
            DeriveMore::WithKnownStartIndex {
                with_start_index: range(fs1, 2, 2),
                number_of_instances_needed_to_fully_satisfy_request: None,
            },
            DeriveMore::WithoutKnownLastIndex {
                request: quantified(fs2, 1),
                number_of_instances_needed_to_fully_satisfy_request: 1,
            },
        ])
    );
}

#[test]
fn split_cache_response_partial() {
    let fs0 = FactorSourceIDFromHash::fs0();
    let outcomes = FactorInstancesFromCache::new(vec![LoadFromCacheOutcomeForSingleRequest::new(
        quantified(fs0, 5),
        LoadFromCacheOutcome::PartiallySatisfied {
            partial_from_cache: account_vecis(fs0, &[8, 9]),
            number_of_instances_needed_to_fully_satisfy_request: 3,
        },
    )]);
    let split = split_cache_response(&outcomes);
    assert_eq!(base_indices(&split.satisfied_by_cache()), vec![8, 9]);
    assert_eq!(
        split.derive_more_requests(),
        Some(vec![DeriveMore::WithKnownStartIndex {
            with_start_index: range(fs0, 5, 10),
            number_of_instances_needed_to_fully_satisfy_request: Some(3),
        }])
    );
}

#[test]
fn split_cache_response_all_spare_needs_nothing_more() {
    let fs0 = FactorSourceIDFromHash::fs0();
    let outcomes = FactorInstancesFromCache::new(vec![LoadFromCacheOutcomeForSingleRequest::new(
        quantified(fs0, 2),
        LoadFromCacheOutcome::FullySatisfiedWithSpare(account_vecis(fs0, &[0, 1])),
    )]);
    let split = split_cache_response(&outcomes);
    assert_eq!(split.derive_more_requests(), None);
    assert_eq!(base_indices(&split.satisfied_by_cache()), vec![0, 1]);
}

#[test]
fn instances_used_directly_per_purpose() {
    let fs0 = FactorSourceIDFromHash::fs0();
    let known = DeriveMore::WithKnownStartIndex {
        with_start_index: range(fs0, 2, 2),
        number_of_instances_needed_to_fully_satisfy_request: None,
    };
    let partial = DeriveMore::WithKnownStartIndex {
        with_start_index: range(fs0, 5, 10),
        number_of_instances_needed_to_fully_satisfy_request: Some(3),
    };
    let unknown = DeriveMore::WithoutKnownLastIndex {
        request: quantified(fs0, 4),
        number_of_instances_needed_to_fully_satisfy_request: 4,
    };
    let source = HDFactorSource::new(fs0);
    let mars = FactorInstancesRequestPurpose::MARS { factor_source: source, network_id: NetworkID::Mainnet };
    let oars = FactorInstancesRequestPurpose::OARS { factor_sources: vec![source] };
    let new_fs = FactorInstancesRequestPurpose::PreDeriveInstancesForNewFactorSource { factor_source: source };
    let new_account =
        FactorInstancesRequestPurpose::NewVirtualUnsecurifiedAccount { network_id: NetworkID::Mainnet, factor_source: source };
    assert_eq!(known.number_of_instances_to_use_directly(&mars), 30);
    assert_eq!(known.number_of_instances_to_use_directly(&oars), 30);
    assert_eq!(known.number_of_instances_to_use_directly(&new_fs), 0);
    assert_eq!(unknown.number_of_instances_to_use_directly(&new_account), 1);
    assert_eq!(partial.number_of_instances_to_use_directly(&new_account), 1);
    assert_eq!(known.unquantified(), veci(fs0));
    assert_eq!(unknown.unquantified(), veci(fs0));
    assert_eq!(oars.factor_sources(), vec![source]);
    assert_eq!(new_account.factor_sources(), vec![source]);
}

#[test]
fn accounts_know_their_network_and_count() {
    let accounts = Accounts::new(NetworkID::Mainnet, vec![Account::a0(), Account::a7()]).unwrap();
    assert_eq!(accounts.len(), 2);
    assert_eq!(accounts.network_id(), NetworkID::Mainnet);
    assert!(Accounts::new(NetworkID::Mainnet, vec![]).is_none());
    assert!(Accounts::new(NetworkID::Stokenet, vec![Account::a0()]).is_none());
}

#[test]
fn unsecurified_and_securified_accounts_check_their_state() {
    let unsecurified = UnsecurifiedAccounts::new(NetworkID::Mainnet, vec![Account::a0(), Account::a8()]).unwrap();
    assert_eq!(unsecurified.len(), 2);
    assert_eq!(unsecurified.network_id(), NetworkID::Mainnet);
    assert!(UnsecurifiedAccounts::new(NetworkID::Mainnet, vec![Account::a0(), Account::a7()]).is_none());
    let securified = SecurifiedAccounts::new(NetworkID::Mainnet, vec![Account::a7()]).unwrap();
    assert_eq!(securified.len(), 1);
    assert_eq!(securified.network_id(), NetworkID::Mainnet);
    assert!(SecurifiedAccounts::new(NetworkID::Mainnet, vec![Account::a0()]).is_none());
    assert!(SecurifiedAccounts::new(NetworkID::Mainnet, vec![]).is_none());
}

fn identity_vecis(fsid: FactorSourceIDFromHash, indices: &[u32]) -> FactorInstances {
    FactorInstances::new(
        indices
            .iter()
            .map(|i| {
                HierarchicalDeterministicFactorInstance::mainnet_tx(
                    CAP26EntityKind::Identity,
                    HDPathComponent::unsecurified_hardening_base_index(*i),
                    fsid,
                )
            })
            .collect(),
    )
}

fn identity_veci(fsid: FactorSourceIDFromHash) -> UnquantifiedUnindexDerivationRequest {
    UnquantifiedUnindexDerivationRequest::new(
        fsid,
        NetworkID::Mainnet,
        CAP26EntityKind::Identity,
        CAP26KeyKind::TransactionSigning,
        KeySpace::Unsecurified,
    )
}

fn derived_for_new_account() -> Vec<NewlyDerived> {
    let fs0 = FactorSourceIDFromHash::fs0();
    let mut derived = account_vecis(fs0, &[0, 1]);
    derived.extend(&identity_vecis(fs0, &[0, 1]));
    derived.extend(&account_vecis(fs0, &[2, 3, 4]));
    let reqs = vec![DeriveMore::WithoutKnownLastIndex {
        request: quantified(fs0, 1),
        number_of_instances_needed_to_fully_satisfy_request: 1,
    }];
    newly_derived_per_request(&new_account_purpose(), &reqs, &derived)
}

#[test]
fn newly_derived_instances_are_split_per_request() {
    let fs0 = FactorSourceIDFromHash::fs0();
    let newly = derived_for_new_account();
    assert_eq!(newly.len(), 2);
    let (key, to_cache) = newly[0].key_value_for_cache();
    assert_eq!(key, veci(fs0));
    assert_eq!(base_indices(&to_cache), vec![1, 2, 3, 4]);
    assert_eq!(base_indices(&newly[0].to_use_directly()), vec![0]);
    let (key, to_cache) = newly[1].key_value_for_cache();
    assert_eq!(key, identity_veci(fs0));
    assert_eq!(base_indices(&to_cache), vec![0, 1]);
    assert!(newly[1].to_use_directly.is_empty());
}

#[test]
fn use_and_cache_returns_satisfied_then_used_directly() {
    let fs0 = FactorSourceIDFromHash::fs0();
    let fs1 = FactorSourceIDFromHash::fs1();
    let newly = derived_for_new_account();
    let mut cache = PreDerivedKeysCache::default();
    let satisfied = account_vecis(fs1, &[7]);
    let used = use_and_cache(&mut cache, &satisfied, &newly);
    let ids: Vec<FactorSourceIDFromHash> = used.factor_instances().iter().map(|f| f.factor_source_id()).collect();
    assert_eq!(ids, vec![fs1, fs0]);
    assert_eq!(base_indices(&used), vec![7, 0]);
    assert_eq!(cache.total_number_of_factor_instances(), 6);
    assert!(cache.is_saturated_for(&quantified(fs0, 4)));
    assert!(!cache.is_saturated_for(&quantified(fs0, 5)));
    assert_eq!(DidDeriveNewFactorInstances(true), DidDeriveNewFactorInstances(true));
    assert_ne!(DidDeriveNewFactorInstances(true), DidDeriveNewFactorInstances(false));
}

#[test]
fn provider_outcome_from_parts() {
    let outcome = FactorInstancesProviderOutcome::new(OrderedMap::new());
    assert!(outcome.per_factor.is_empty());
}

#[test]
fn fill_cache_requests_cover_six_presets() {
    let fs0 = FactorSourceIDFromHash::fs0();
    let requests = fill_cache_requests_for(fs0);
    assert_eq!(requests.len(), 6);
    for (i, r) in requests.iter().enumerate() {
        assert_eq!(r.requested_quantity(), 30);
        assert_eq!(r.factor_source_id, fs0);
        assert_eq!(r.network_id, NetworkID::Mainnet);
        for other in requests.iter().skip(i + 1) {
            assert_ne!(r.unquantified(), other.unquantified());
        }
    }
    assert_eq!(requests[0].unquantified(), veci(fs0));
}

#[test]
fn increase_local_offset_moves_next_index() {
    let fs0 = FactorSourceIDFromHash::fs0();
    let mut assigner = NextIndexAssignerWithEphemeralLocalOffsets::new(None);
    assigner.increase_local_offset(&range(fs0, 30, 5));
    assert_eq!(assigner.next(veci(fs0)), HDPathComponent::unsecurified_hardening_base_index(35));
    assert_eq!(assigner.next(veci(FactorSourceIDFromHash::fs1())), HDPathComponent::unsecurified_hardening_base_index(0));
}

fn new_account_purpose() -> FactorInstancesRequestPurpose {
    FactorInstancesRequestPurpose::NewVirtualUnsecurifiedAccount {
        network_id: NetworkID::Mainnet,
        factor_source: HDFactorSource::new(FactorSourceIDFromHash::fs0()),
    }
}

#[test]
fn additional_paths_fill_every_preset_of_an_empty_cache() {
    let fs0 = FactorSourceIDFromHash::fs0();
    let mut assigner = NextIndexAssignerWithEphemeralLocalOffsets::new(None);
    let reqs = vec![DeriveMore::WithoutKnownLastIndex {
        request: quantified(fs0, 1),
        number_of_instances_needed_to_fully_satisfy_request: 1,
    }];
    let cache = PreDerivedKeysCache::default();
    let paths = paths_for_additional_derivation(&mut assigner, &reqs, &new_account_purpose(), &cache);
    assert_eq!(paths.len(), 1);
    assert_eq!(paths.keys(), vec![fs0]);
    let set = paths.get(&fs0).unwrap().elements();
    assert_eq!(set.len(), 180);
    let expected: Vec<DerivationPath> = (0..30).map(veci_path).collect();
    assert_eq!(set[..30].to_vec(), expected);
    assert_eq!(
        set[30],
        DerivationPath::new(
            NetworkID::Mainnet,
            CAP26EntityKind::Account,
            CAP26KeyKind::TransactionSigning,
            HDPathComponent::securifying_base_index(0)
        )
    );
    // every request was assigned a cache's worth from zero
    assert_eq!(assigner.next(veci(fs0)), HDPathComponent::unsecurified_hardening_base_index(1));
}

#[test]
fn additional_paths_keep_known_start_and_skip_saturated() {
    let fs0 = FactorSourceIDFromHash::fs0();
    let mut assigner = NextIndexAssignerWithEphemeralLocalOffsets::new(None);
    let reqs = vec![DeriveMore::WithKnownStartIndex {
        with_start_index: range(fs0, 3, 10),
        number_of_instances_needed_to_fully_satisfy_request: None,
    }];
    let identity_veci = UnquantifiedUnindexDerivationRequest::new(
        fs0,
        NetworkID::Mainnet,
        CAP26EntityKind::Identity,
        CAP26KeyKind::TransactionSigning,
        KeySpace::Unsecurified,
    );
    let identities = FactorInstances::new(
        (0..30)
            .map(|i| {
                HierarchicalDeterministicFactorInstance::mainnet_tx(
                    CAP26EntityKind::Identity,
                    HDPathComponent::unsecurified_hardening_base_index(i),
                    fs0,
                )
            })
            .collect(),
    );
    let mut cache = PreDerivedKeysCache::default();
    cache.put(identity_veci, identities).unwrap();
    let paths = paths_for_additional_derivation(&mut assigner, &reqs, &new_account_purpose(), &cache);
    let set = paths.get(&fs0).unwrap().elements();
    // the known range, then four fill requests (identity veci is saturated)
    assert_eq!(set.len(), 150);
    let expected: Vec<DerivationPath> = (10..40).map(veci_path).collect();
    assert_eq!(set[..30].to_vec(), expected);
    assert!(!set.iter().any(|p| p.entity_kind == CAP26EntityKind::Identity && p.key_space() == KeySpace::Unsecurified));
    // the known range did not move the assigner
    assert_eq!(assigner.next(veci(fs0)), HDPathComponent::unsecurified_hardening_base_index(0));
}

#[test]
fn provide_from_empty_cache_derives_in_abundance_then_reads_from_cache() {
    let fs0 = FactorSourceIDFromHash::fs0();
    let purpose = new_account_purpose();
    let mut cache = PreDerivedKeysCache::default();
    let mut assigner = NextIndexAssignerWithEphemeralLocalOffsets::new(None);
    let requested = QuantifiedUnindexDerivationRequests::new(vec![quantified(fs0, 1)]);

    let (split, paths) = take_and_plan(&mut cache, &mut assigner, &purpose, &requested);
    assert!(split.satisfied_by_cache().is_empty());
    let paths = paths.unwrap();
    let to_derive = paths.get(&fs0).unwrap().elements();
    assert_eq!(to_derive.len(), 180);
    let derived = FactorInstances::new(
        to_derive.iter().map(|p| HierarchicalDeterministicFactorInstance::mocked(fs0, *p)).collect(),
    );
    let (used, did_derive) = use_derived(&mut cache, &purpose, &split, &derived);
    assert_eq!(did_derive, DidDeriveNewFactorInstances(true));
    assert_eq!(base_indices(&used), vec![0]);
    assert_eq!(used.factor_instances()[0].derivation_path(), veci_path(0));
    assert_eq!(cache.total_number_of_factor_instances(), 179);

    let mut assigner = NextIndexAssignerWithEphemeralLocalOffsets::new(None);
    let (split, paths) = take_and_plan(&mut cache, &mut assigner, &purpose, &requested);
    assert!(paths.is_none());
    let (used, did_derive) = use_derived(&mut cache, &purpose, &split, &FactorInstances::empty());
    assert_eq!(did_derive, DidDeriveNewFactorInstances(false));
    assert_eq!(base_indices(&used), vec![1]);
    assert_eq!(cache.total_number_of_factor_instances(), 178);
}

#[test]
fn purpose_requests_per_purpose() {
    let source = HDFactorSource::new(FactorSourceIDFromHash::fs0());
    let tx = CAP26KeyKind::TransactionSigning;
    let account = CAP26EntityKind::Account;
    let new_account = new_account_purpose().requests();
    assert_eq!(
        new_account.requests(),
        vec![AnyFactorDerivationRequest::new(NetworkID::Mainnet, account, KeySpace::Unsecurified, tx)]
    );
    let mars = FactorInstancesRequestPurpose::MARS { factor_source: source, network_id: NetworkID::Stokenet }.requests();
    assert_eq!(
        mars.requests(),
        vec![
            AnyFactorDerivationRequest::new(NetworkID::Stokenet, account, KeySpace::Unsecurified, tx),
            AnyFactorDerivationRequest::new(NetworkID::Stokenet, account, KeySpace::Securified, tx),
        ]
    );
    let new_fs = FactorInstancesRequestPurpose::PreDeriveInstancesForNewFactorSource { factor_source: source }.requests();
    assert_eq!(new_fs.len(), 6);
    let fill: Vec<AnyFactorDerivationRequest> = fill_cache_requests_for(source.factor_source_id)
        .iter()
        .map(|r| AnyFactorDerivationRequest::new(r.network_id, r.entity_kind, r.key_space, r.key_kind))
        .collect();
    assert_eq!(new_fs.requests(), fill);
}

#[test]
fn provider_operations_set_purpose_cache_and_assigner() {
    let fs0 = FactorSourceIDFromHash::fs0();
    let source = HDFactorSource::new(fs0);
    let mut oars = PreDerivedProvider::oars(&vec![source]);
    assert_eq!(oars.purpose.factor_sources(), vec![source]);
    assert_eq!(oars.cache.total_number_of_factor_instances(), 0);
    assert_eq!(oars.next_index_assigner.next(veci(fs0)), HDPathComponent::unsecurified_hardening_base_index(0));

    let profile = Profile::new(HDFactorSource::all(), vec![Account::a0()], vec![]);
    let mut cache = PreDerivedKeysCache::default();
    cache.put(veci(fs0), account_vecis(fs0, &[5, 6])).unwrap();
    let mut new_account =
        PreDerivedProvider::new_virtual_unsecurified_account(NetworkID::Mainnet, &source, Some(cache), profile.clone());
    assert_eq!(new_account.cache.total_number_of_factor_instances(), 2);
    assert_eq!(new_account.purpose.requests().len(), 1);
    assert_eq!(new_account.next_index_assigner.next(veci(fs0)), HDPathComponent::unsecurified_hardening_base_index(1));

    let new_fs = PreDerivedProvider::pre_derive_instance_for_new_factor_source(&source, None, profile.clone());
    assert_eq!(new_fs.purpose.requests().len(), 6);

    let accounts = Accounts::new(NetworkID::Mainnet, vec![Account::a0()]).unwrap();
    let shield = PreDerivedProvider::update_or_set_security_shield_for_accounts(
        accounts,
        MatrixOfFactorSources { threshold_factors: vec![source], threshold: 1, override_factors: vec![] },
        None,
        profile,
    );
    assert_eq!(shield.purpose.factor_sources(), vec![source]);
    assert_eq!(shield.purpose.requests().len(), 1);
}

#[test]
fn checked_provider_steps_refuse_what_cannot_be_done() {
    let fs0 = FactorSourceIDFromHash::fs0();
    let purpose = new_account_purpose();

    // a cache entry whose rest after the take would not increase
    let mut cache = PreDerivedKeysCache::new(account_vecis(fs0, &[5, 4, 3]));
    assert!(!cache.can_take_one(&quantified(fs0, 1)));
    assert!(cache.can_take_one(&quantified(fs0, 3)));
    let requested = QuantifiedUnindexDerivationRequests::new(vec![quantified(fs0, 1)]);
    assert!(!can_take_and_split(&cache, &requested));
    let mut assigner = NextIndexAssignerWithEphemeralLocalOffsets::new(None);
    assert!(try_take_and_plan(&mut cache, &mut assigner, &purpose, &requested).is_none());
    assert_eq!(cache.total_number_of_factor_instances(), 3);

    // putting an instance already cached, or out of order, is refused
    let mut cache = PreDerivedKeysCache::default();
    cache.put(veci(fs0), account_vecis(fs0, &[0, 1])).unwrap();
    assert!(!cache.can_put(veci(fs0), &account_vecis(fs0, &[1, 2])));
    assert!(!cache.can_put(veci(fs0), &account_vecis(fs0, &[0])));
    assert!(cache.can_put(veci(fs0), &account_vecis(fs0, &[2, 3])));
    assert!(cache.can_put(veci(FactorSourceIDFromHash::fs1()), &account_vecis(FactorSourceIDFromHash::fs1(), &[0])));

    // an outcome without spare splits only if its last instance is its largest
    let ok = LoadFromCacheOutcomeForSingleRequest::new(
        quantified(fs0, 2),
        LoadFromCacheOutcome::FullySatisfiedWithoutSpare(account_vecis(fs0, &[1, 3])),
    );
    assert!(check_split_allowed(&ok));
    let not_ok = LoadFromCacheOutcomeForSingleRequest::new(
        quantified(fs0, 2),
        LoadFromCacheOutcome::FullySatisfiedWithoutSpare(account_vecis(fs0, &[3, 1])),
    );
    assert!(!check_split_allowed(&not_ok));

    // a known range past the end of its key space cannot be planned
    let assigner = NextIndexAssignerWithEphemeralLocalOffsets::new(None);
    let far = vec![DeriveMore::WithKnownStartIndex {
        with_start_index: range(fs0, 1, 0x3FFF_FFF0),
        number_of_instances_needed_to_fully_satisfy_request: None,
    }];
    let empty = PreDerivedKeysCache::default();
    assert!(!can_plan(&assigner, &far, &purpose, &empty));
    let near = vec![DeriveMore::WithKnownStartIndex {
        with_start_index: range(fs0, 1, 10),
        number_of_instances_needed_to_fully_satisfy_request: None,
    }];
    assert!(can_plan(&assigner, &near, &purpose, &empty));

    // a request used directly must leave something to cache
    let reqs = vec![DeriveMore::WithoutKnownLastIndex {
        request: quantified(fs0, 1),
        number_of_instances_needed_to_fully_satisfy_request: 1,
    }];
    assert!(!check_split_fits(&purpose, &reqs, &account_vecis(fs0, &[0])));
    assert!(check_split_fits(&purpose, &reqs, &account_vecis(fs0, &[0, 1])));
    let newly = newly_derived_per_request(&purpose, &reqs, &account_vecis(fs0, &[0, 1]));
    assert!(can_put_all(&PreDerivedKeysCache::default(), &newly));
    let mut cached_already = PreDerivedKeysCache::default();
    cached_already.put(veci(fs0), account_vecis(fs0, &[1])).unwrap();
    assert!(!can_put_all(&cached_already, &newly));
}

#[test]
fn checked_provider_steps_run_the_whole_flow() {
    let fs0 = FactorSourceIDFromHash::fs0();
    let purpose = new_account_purpose();
    let mut cache = PreDerivedKeysCache::default();
    let mut assigner = NextIndexAssignerWithEphemeralLocalOffsets::new(None);
    let requested = QuantifiedUnindexDerivationRequests::new(vec![quantified(fs0, 1)]);
    let (split, paths) = try_take_and_plan(&mut cache, &mut assigner, &purpose, &requested).unwrap();
    let to_derive = paths.unwrap().get(&fs0).unwrap().elements();
    let derived = FactorInstances::new(
        to_derive.iter().map(|p| HierarchicalDeterministicFactorInstance::mocked(fs0, *p)).collect(),
    );
    let (used, did_derive) = try_use_derived(&mut cache, &purpose, &split, &derived).unwrap();
    assert_eq!(did_derive, DidDeriveNewFactorInstances(true));
    assert_eq!(base_indices(&used), vec![0]);
    assert_eq!(cache.total_number_of_factor_instances(), 179);
    // deriving the same again would cache what is cached already
    let (split, _) = try_take_and_plan(&mut cache, &mut assigner, &purpose, &requested).unwrap();
    assert!(split.derive_more_requests().is_none());
}
