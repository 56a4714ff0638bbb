use sargon_mfa::factor_instances_provider::mixed::{
    AccountMfaFactorInstance, AccountVeci, CollectionsOfFactorInstances, DerivationTemplate, IdentityVeci,
    InstancesToCache, IsHDFactorInstance,
};
use sargon_mfa::factor_instances_provider::network_cache::FactorInstancesForSpecificNetworkCache;
use sargon_mfa::factor_instances_provider::provider::fill_cache::{Quantities, QuantitiesForFactor};
use sargon_mfa::types::derivation::{CAP26EntityKind, HDPathComponent};
use sargon_mfa::types::error::CommonError;
use sargon_mfa::types::factor_instances::FactorInstances;
use sargon_mfa::types::keys::{FactorSourceIDFromHash, HierarchicalDeterministicFactorInstance};
use sargon_mfa::types::network::NetworkID;
use sargon_mfa::types::ordered_map::OrderedMap;

fn veci(i: u32, f: FactorSourceIDFromHash) -> HierarchicalDeterministicFactorInstance {
    HierarchicalDeterministicFactorInstance::mainnet_tx(
        CAP26EntityKind::Account,
        HDPathComponent::unsecurified_hardening_base_index(i),
        f,
    )
}

#[test]
fn account_veci_rejects_wrong_entity_kind_first() {
    let f = FactorSourceIDFromHash::fs0();
    let identity = HierarchicalDeterministicFactorInstance::mainnet_tx(
        CAP26EntityKind::Identity,
        HDPathComponent::securifying_base_index(0),
        f,
    );
    assert_eq!(AccountVeci::new(identity), Err(CommonError::EntityKindDiscrepancy));
    assert_eq!(IdentityVeci::new(identity), Err(CommonError::KeySpaceDiscrepancy));
    assert_eq!(AccountMfaFactorInstance::new(veci(0, f)), Err(CommonError::KeySpaceDiscrepancy));
    let v = AccountVeci::new(veci(3, f)).unwrap();
    assert_eq!(v.derivation_entity_index(), HDPathComponent::unsecurified_hardening_base_index(3));
    assert_eq!(v.network_id(), NetworkID::Mainnet);
    assert_eq!(v.factor_source_id(), f);
}

#[test]
fn collections_new_checks_network_then_factor_source() {
    let f = FactorSourceIDFromHash::fs0();
    let e = FactorInstances::empty;
    assert_eq!(
        CollectionsOfFactorInstances::new(NetworkID::Stokenet, f, FactorInstances::new(vec![veci(0, f)]), e(), e(), e()),
        Err(CommonError::NetworkDiscrepancy)
    );
    assert_eq!(
        CollectionsOfFactorInstances::new(NetworkID::Mainnet, FactorSourceIDFromHash::fs1(), FactorInstances::new(vec![veci(0, f)]), e(), e(), e()),
        Err(CommonError::FactorSourceDiscrepancy)
    );
    let c = CollectionsOfFactorInstances::new(NetworkID::Mainnet, f, FactorInstances::new(vec![veci(0, f)]), e(), e(), e()).unwrap();
    assert_eq!(c.quantity_for_template(DerivationTemplate::AccountVeci), 1);
    assert!(!c.is_full());
}

#[test]
fn collections_append_concatenates() {
    let f = FactorSourceIDFromHash::fs0();
    let e = FactorInstances::empty;
    let mut a = CollectionsOfFactorInstances::new(NetworkID::Mainnet, f, FactorInstances::new(vec![veci(0, f)]), e(), e(), e()).unwrap();
    let b = CollectionsOfFactorInstances::new(NetworkID::Mainnet, f, FactorInstances::new(vec![veci(1, f), veci(2, f)]), e(), e(), e()).unwrap();
    a.append(b);
    assert_eq!(a.account_veci, FactorInstances::new(vec![veci(0, f), veci(1, f), veci(2, f)]));
}

#[test]
fn instances_to_cache_sorts_by_template() {
    let f = FactorSourceIDFromHash::fs2();
    let mfa = HierarchicalDeterministicFactorInstance::mainnet_tx(
        CAP26EntityKind::Identity,
        HDPathComponent::securifying_base_index(4),
        f,
    );
    let mut m = OrderedMap::new();
    m.insert(f, FactorInstances::new(vec![veci(0, f), mfa, veci(1, f)]));
    let sorted = InstancesToCache::from((NetworkID::Mainnet, m));
    let c = sorted.0.get(&f).unwrap();
    assert_eq!(c.account_veci, FactorInstances::new(vec![veci(0, f), veci(1, f)]));
    assert_eq!(c.identity_mfa, FactorInstances::new(vec![mfa]));
    assert_eq!(c.account_mfa, FactorInstances::empty());
}

#[test]
fn calculate_quantities_for_factor_refills_to_cache_size() {
    let f = FactorSourceIDFromHash::fs0();
    let e = FactorInstances::empty;
    let cached = CollectionsOfFactorInstances::new(
        NetworkID::Mainnet,
        f,
        FactorInstances::new((0..25).map(|i| veci(i, f)).collect()),
        e(),
        e(),
        e(),
    )
    .unwrap();
    let triple = QuantitiesForFactor::fill(f).calculate_quantities_for_factor(
        Quantities::only(10, DerivationTemplate::AccountVeci),
        Some(cached),
    );
    assert_eq!(triple.to_derive.quantity_for_template(DerivationTemplate::AccountVeci).value, 15);
    assert_eq!(triple.to_derive.quantity_for_template(DerivationTemplate::AccountMfa).value, 30);
    assert_eq!(triple.to_use_directly.quantity_for_template(DerivationTemplate::AccountVeci).value, 10);
    assert_eq!(triple.to_cache.quantity_for_template(DerivationTemplate::IdentityMfa).value, 30);
    let none = QuantitiesForFactor::fill(f).calculate_quantities_for_factor(Quantities::only(1, DerivationTemplate::AccountVeci), None);
    assert_eq!(none.to_derive.quantity_for_template(DerivationTemplate::AccountVeci).value, 31);
}

#[test]
fn network_cache_append_then_consume() {
    let f = FactorSourceIDFromHash::fs0();
    let e = FactorInstances::empty;
    let mut cache = FactorInstancesForSpecificNetworkCache::empty(NetworkID::Mainnet);
    let c = CollectionsOfFactorInstances::new(NetworkID::Mainnet, f, FactorInstances::new(vec![veci(0, f), veci(1, f)]), e(), e(), e()).unwrap();
    cache.append_for_factor(f, c).unwrap();
    let first = cache.consume_account_veci(f).unwrap();
    assert_eq!(first.instance, veci(0, f));
    assert!(!first.was_last_used);
    let second = cache.consume_account_veci(f).unwrap();
    assert_eq!(second.instance, veci(1, f));
    assert!(second.was_last_used);
    assert!(cache.consume_account_veci(f).is_none());
    assert!(cache.consume_account_veci(FactorSourceIDFromHash::fs1()).is_none());
    assert!(!cache.is_full(f));
}

#[test]
fn network_cache_consumes_account_vecis_in_ascending_order() {
    let f = FactorSourceIDFromHash::fs0();
    let e = FactorInstances::empty;
    let mut cache = FactorInstancesForSpecificNetworkCache::empty(NetworkID::Mainnet);
    let c = CollectionsOfFactorInstances::new(
        NetworkID::Mainnet,
        f,
        FactorInstances::new(vec![veci(0, f), veci(1, f), veci(2, f)]),
        e(),
        e(),
        e(),
    )
    .unwrap();
    cache.append_for_factor(f, c).unwrap();
    assert_eq!(cache.consume_account_veci(f).unwrap().instance, veci(0, f));
    assert_eq!(cache.consume_account_veci(f).unwrap().instance, veci(1, f));
    let last = cache.consume_account_veci(f).unwrap();
    assert_eq!(last.instance, veci(2, f));
    assert!(last.was_last_used);
}
