use sargon_mfa::factor_instances_provider::agnostic_paths::IndexAgnosticPath;
use sargon_mfa::factor_instances_provider::provider::cache::{Cache, QuantityOutcome};
use sargon_mfa::factor_instances_provider::provider::query::{InstancesQuery, ProvidedInstances};
use sargon_mfa::factor_instances_provider::mixed::InstancesToUseDirectly;
use sargon_mfa::factor_instances_provider::network_cache::FactorInstancesForSpecificNetworkCache;
use sargon_mfa::types::derivation::{CAP26EntityKind, HDPathComponent};
use sargon_mfa::types::factor_instances::FactorInstances;
use sargon_mfa::types::keys::{FactorSourceIDFromHash, HDFactorSource, HierarchicalDeterministicFactorInstance};
use sargon_mfa::types::network::NetworkID;
use sargon_mfa::types::ordered_map::OrderedMap;

fn account_veci(i: u32, fsid: FactorSourceIDFromHash) -> HierarchicalDeterministicFactorInstance {
    HierarchicalDeterministicFactorInstance::mainnet_tx(
        CAP26EntityKind::Account,
        HDPathComponent::unsecurified_hardening_base_index(i),
        fsid,
    )
}

fn identity_mfa(i: u32, fsid: FactorSourceIDFromHash) -> HierarchicalDeterministicFactorInstance {
    HierarchicalDeterministicFactorInstance::mainnet_tx(
        CAP26EntityKind::Identity,
        HDPathComponent::securifying_base_index(i),
        fsid,
    )
}

fn vecis(range: std::ops::Range<u32>, fsid: FactorSourceIDFromHash) -> Vec<HierarchicalDeterministicFactorInstance> {
    range.map(|i| account_veci(i, fsid)).collect()
}

#[test]
fn cache_groups_inserted_instances_by_path() {
    let mut sut = Cache::default();
    let fsid = FactorSourceIDFromHash::fs0();
    let a0 = account_veci(0, fsid);
    let i0 = identity_mfa(0, fsid);
    let a1 = account_veci(1, fsid);
    sut.insert_for_factor(fsid, FactorInstances::new(vec![a0, i0, a1]));
    assert!(sut.is_grouped());
    let per_path = sut.peek_all_instances_of_factor_source(fsid).unwrap();
    assert_eq!(per_path.len(), 2);
    assert_eq!(per_path.get(&a0.agnostic_path()).unwrap().factor_instances(), vec![a0, a1]);
    assert_eq!(per_path.get(&i0.agnostic_path()).unwrap().factor_instances(), vec![i0]);
    assert_eq!(sut.total_number_of_factor_instances(), 3);
    assert!(sut.peek_all_instances_of_factor_source(FactorSourceIDFromHash::fs1()).is_none());
}

#[test]
fn cache_appends_contiguous_instances_and_skips_held_ones() {
    let mut sut = Cache::new();
    let fsid = FactorSourceIDFromHash::fs0();
    sut.insert_for_factor(fsid, FactorInstances::new(vecis(0..2, fsid)));
    // continues at index 2; the instance at 0 is already held and is skipped
    sut.insert_for_factor(fsid, FactorInstances::new(vec![account_veci(2, fsid), account_veci(0, fsid)]));
    let per_path = sut.peek_all_instances_of_factor_source(fsid).unwrap();
    let path: IndexAgnosticPath = account_veci(0, fsid).agnostic_path();
    assert_eq!(per_path.get(&path).unwrap().factor_instances(), vecis(0..3, fsid));
}

#[test]
fn cache_remove_exact_quantity_is_full_and_empties_the_path() {
    let mut sut = Cache::new();
    let fsid = FactorSourceIDFromHash::fs0();
    sut.insert_for_factor(fsid, FactorInstances::new(vecis(0..3, fsid)));
    let path = account_veci(0, fsid).agnostic_path();
    match sut.remove(&fsid, &path, 3) {
        QuantityOutcome::Full { instances } => assert_eq!(instances.factor_instances(), vecis(0..3, fsid)),
        _ => panic!("expected full"),
    }
    assert!(matches!(sut.remove(&fsid, &path, 1), QuantityOutcome::Empty));
    assert_eq!(sut.total_number_of_factor_instances(), 0);
}

#[test]
fn cache_remove_fewer_than_held_keeps_the_rest() {
    let mut sut = Cache::new();
    let fsid = FactorSourceIDFromHash::fs0();
    sut.insert_for_factor(fsid, FactorInstances::new(vecis(0..5, fsid)));
    let path = account_veci(0, fsid).agnostic_path();
    match sut.remove(&fsid, &path, 2) {
        QuantityOutcome::Full { instances } => assert_eq!(instances.factor_instances(), vecis(0..2, fsid)),
        _ => panic!("expected full"),
    }
    let per_path = sut.peek_all_instances_of_factor_source(fsid).unwrap();
    assert_eq!(per_path.get(&path).unwrap().factor_instances(), vecis(2..5, fsid));
}

#[test]
fn cache_remove_more_than_held_is_partial() {
    let mut sut = Cache::new();
    let fsid = FactorSourceIDFromHash::fs0();
    sut.insert_for_factor(fsid, FactorInstances::new(vecis(0..2, fsid)));
    let path = account_veci(0, fsid).agnostic_path();
    match sut.remove(&fsid, &path, 5) {
        QuantityOutcome::Partial { instances, remaining } => {
            assert_eq!(instances.factor_instances(), vecis(0..2, fsid));
            assert_eq!(remaining, 3);
        },
        _ => panic!("expected partial"),
    }
    assert!(sut.peek_all_instances_of_factor_source(fsid).unwrap().get(&path).is_none());
}

#[test]
fn cache_remove_unknown_factor_is_empty() {
    let mut sut = Cache::new();
    let fsid = FactorSourceIDFromHash::fs0();
    let path = account_veci(0, fsid).agnostic_path();
    assert!(matches!(sut.remove(&fsid, &path, 1), QuantityOutcome::Empty));
}

#[test]
fn cache_insert_all_and_fullness() {
    let mut sut = Cache::new();
    let fs0 = FactorSourceIDFromHash::fs0();
    let fs1 = FactorSourceIDFromHash::fs1();
    let mut per_factor = OrderedMap::new();
    let mut all: Vec<HierarchicalDeterministicFactorInstance> = Vec::new();
    for i in 0..30 {
        all.push(identity_mfa(i, fs0));
        all.push(HierarchicalDeterministicFactorInstance::mainnet_tx(
            CAP26EntityKind::Identity,
            HDPathComponent::unsecurified_hardening_base_index(i),
            fs0,
        ));
        all.push(HierarchicalDeterministicFactorInstance::mainnet_tx(
            CAP26EntityKind::Account,
            HDPathComponent::securifying_base_index(i),
            fs0,
        ));
        all.push(HierarchicalDeterministicFactorInstance::mainnet_tx(
            CAP26EntityKind::Account,
            HDPathComponent::unsecurified_hardening_base_index(i),
            fs0,
        ));
    }
    per_factor.insert(fs0, FactorInstances::new(all));
    per_factor.insert(fs1, FactorInstances::new(vecis(0..4, fs1)));
    assert!(sut.insert_all(&per_factor).is_ok());
    assert_eq!(sut.total_number_of_factor_instances(), 124);
    assert!(sut.is_full(NetworkID::Mainnet, fs0));
    sut.assert_is_full(NetworkID::Mainnet, fs0);
    assert!(!sut.is_full(NetworkID::Stokenet, fs0));
    assert!(!sut.is_full(NetworkID::Mainnet, fs1));
}

#[test]
fn query_lists_its_factor_sources() {
    let fs = HDFactorSource::sample();
    assert_eq!(InstancesQuery::AccountVeci { factor_source: fs }.factor_sources(), vec![fs]);
    let all = HDFactorSource::all();
    let q = InstancesQuery::AccountMfa { number_of_instances_per_factor_source: 2, factor_sources: all.clone() };
    assert_eq!(q.factor_sources(), all);
}

#[test]
fn provided_instances_for_account_veci_hold_one_instance() {
    let fsid = FactorSourceIDFromHash::fs0();
    let cache = FactorInstancesForSpecificNetworkCache::empty(NetworkID::Mainnet);
    let p = ProvidedInstances::for_account_veci(cache, account_veci(0, fsid));
    assert_eq!(p.instances_to_be_used.0.factor_instances(), vec![account_veci(0, fsid)]);
    let q = ProvidedInstances::new(
        FactorInstancesForSpecificNetworkCache::empty(NetworkID::Mainnet),
        InstancesToUseDirectly::new(FactorInstances::empty()),
    );
    assert!(q.instances_to_be_used.0.is_empty());
}
