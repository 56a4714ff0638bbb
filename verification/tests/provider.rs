use sargon_mfa::factor_instances_provider::agnostic_paths::{DerivationPreset, CACHE_FILLING_QUANTITY};
use sargon_mfa::factor_instances_provider::network_agnostic::NetworkIndexAgnosticPath;
use sargon_mfa::factor_instances_provider::provider::factor_instances_cache::{
    FactorInstancesCache, QuantifiedDerivationPreset,
};
use sargon_mfa::factor_instances_provider::provider::outcome::{
    FactorInstancesProviderOutcome, InternalFactorInstancesProviderOutcome,
};
use sargon_mfa::factor_instances_provider::provider::provider::{FactorInstancesProvider, ProviderStep};
use sargon_mfa::types::derivation::{CAP26EntityKind, DerivationPath, HDPathComponent};
use sargon_mfa::types::factor_instances::FactorInstances;
use sargon_mfa::types::keys::{FactorSourceIDFromHash, HierarchicalDeterministicFactorInstance};
use sargon_mfa::types::network::NetworkID;
use sargon_mfa::types::ordered_map::OrderedMap;

fn veci(i: u32, f: FactorSourceIDFromHash) -> HierarchicalDeterministicFactorInstance {
    HierarchicalDeterministicFactorInstance::mainnet_tx(
        CAP26EntityKind::Account,
        HDPathComponent::unsecurified_hardening_base_index(i),
        f,
    )
}

fn mfa(i: u32, f: FactorSourceIDFromHash) -> HierarchicalDeterministicFactorInstance {
    HierarchicalDeterministicFactorInstance::mainnet_tx(
        CAP26EntityKind::Account,
        HDPathComponent::securifying_base_index(i),
        f,
    )
}

fn one(f: FactorSourceIDFromHash, fis: Vec<HierarchicalDeterministicFactorInstance>) -> OrderedMap<FactorSourceIDFromHash, FactorInstances> {
    let mut m = OrderedMap::new();
    m.insert(f, FactorInstances::new(fis));
    m
}

#[test]
fn test_account_veci_derive_more_derives_identities() {}

#[test]
fn all_presets_holds_the_four_presets() {
    let all = NetworkIndexAgnosticPath::all_presets();
    assert_eq!(
        all,
        vec![
            NetworkIndexAgnosticPath::account_veci(),
            NetworkIndexAgnosticPath::account_mfa(),
            NetworkIndexAgnosticPath::identity_veci(),
            NetworkIndexAgnosticPath::identity_mfa()
        ]
    );
}

#[test]
fn split_uses_requested_quantity_from_cache_first() {
    let f = FactorSourceIDFromHash::fs0();
    let q = QuantifiedDerivationPreset::new(DerivationPreset::AccountVeci, 2);
    let found = one(f, vec![veci(0, f)]);
    let derived = one(f, vec![veci(1, f), veci(2, f), mfa(0, f)]);
    let (to_use, to_cache) = FactorInstancesProvider::split(&q, &vec![f], &found, &derived);
    assert_eq!(to_use.get(&f).unwrap(), &FactorInstances::new(vec![veci(0, f), veci(1, f)]));
    assert_eq!(to_cache.get(&f).unwrap(), &FactorInstances::new(vec![veci(2, f), mfa(0, f)]));
}

#[test]
fn split_without_requested_preset_caches_everything() {
    let f = FactorSourceIDFromHash::fs1();
    let q = QuantifiedDerivationPreset::new(DerivationPreset::IdentityVeci, 1);
    let derived = one(f, vec![veci(0, f), mfa(0, f)]);
    let (to_use, to_cache) = FactorInstancesProvider::split(&q, &vec![f], &OrderedMap::new(), &derived);
    assert!(to_use.get(&f).is_none());
    assert_eq!(to_cache.get(&f).unwrap(), &FactorInstances::new(vec![veci(0, f), mfa(0, f)]));
}

#[test]
fn provide_from_cache_takes_instances_when_enough() {
    let f = FactorSourceIDFromHash::fs0();
    let mut cache = FactorInstancesCache::default();
    cache.insert_for_factor(&f, &FactorInstances::new(vec![veci(0, f), veci(1, f), veci(2, f)])).unwrap();
    let q = QuantifiedDerivationPreset::new(DerivationPreset::AccountVeci, 2);
    match FactorInstancesProvider::provide_from_cache(NetworkID::Mainnet, &vec![f], q, &mut cache) {
        ProviderStep::SatisfiedByCache(pf) => {
            assert_eq!(pf.get(&f).unwrap(), &FactorInstances::new(vec![veci(0, f), veci(1, f)]));
            let outcome = InternalFactorInstancesProviderOutcome::satisfied_by_cache(pf);
            let o = outcome.per_factor.get(&f).unwrap();
            assert_eq!(o.to_use_directly, FactorInstances::new(vec![veci(0, f), veci(1, f)]));
            assert_eq!(o.to_cache, FactorInstances::empty());
        }
        ProviderStep::DeriveMore { .. } => panic!("expected the cache to satisfy"),
    }
    assert_eq!(cache.total_number_of_factor_instances(), 1);
}

#[test]
fn provide_from_cache_asks_for_more_when_short() {
    let f = FactorSourceIDFromHash::fs0();
    let mut cache = FactorInstancesCache::default();
    cache.insert_for_factor(&f, &FactorInstances::new(vec![veci(0, f)])).unwrap();
    let q = QuantifiedDerivationPreset::new(DerivationPreset::AccountVeci, 2);
    match FactorInstancesProvider::provide_from_cache(NetworkID::Mainnet, &vec![f], q, &mut cache) {
        ProviderStep::SatisfiedByCache(_) => panic!("expected to derive more"),
        ProviderStep::DeriveMore { partial_instances, quantities_to_derive } => {
            assert_eq!(partial_instances.get(&f).unwrap(), &FactorInstances::new(vec![veci(0, f)]));
            let pdp = quantities_to_derive.get(&f).unwrap();
            assert_eq!(pdp.get(&DerivationPreset::AccountVeci), Some(&(2 + CACHE_FILLING_QUANTITY - 1)));
            assert_eq!(pdp.get(&DerivationPreset::AccountMfa), Some(&CACHE_FILLING_QUANTITY));
        }
    }
    assert_eq!(cache.total_number_of_factor_instances(), 1);
}

#[test]
fn derive_more_and_cache_moves_found_and_caches_rest() {
    let f = FactorSourceIDFromHash::fs0();
    let mut cache = FactorInstancesCache::default();
    cache.insert_for_factor(&f, &FactorInstances::new(vec![veci(0, f)])).unwrap();
    let q = QuantifiedDerivationPreset::new(DerivationPreset::AccountVeci, 2);
    let found = one(f, vec![veci(0, f)]);
    let derived = one(f, vec![veci(1, f), veci(2, f), veci(3, f)]);
    assert!(FactorInstancesProvider::caching_succeeds(&q, &vec![f], &cache, &found, &derived));
    let outcome = FactorInstancesProvider::derive_more_and_cache(&q, &vec![f], &mut cache, found, derived).unwrap();
    let o = outcome.per_factor.get(&f).unwrap();
    assert_eq!(o.to_use_directly, FactorInstances::new(vec![veci(0, f), veci(1, f)]));
    assert_eq!(o.to_cache, FactorInstances::new(vec![veci(2, f), veci(3, f)]));
    assert_eq!(o.found_in_cache, FactorInstances::new(vec![veci(0, f)]));
    assert_eq!(o.newly_derived, FactorInstances::new(vec![veci(1, f), veci(2, f), veci(3, f)]));
    assert_eq!(cache.total_number_of_factor_instances(), 2);
    let final_outcome = FactorInstancesProviderOutcome::from(outcome);
    assert_eq!(final_outcome.total_number_of_newly_derived_instances(), 3);
    assert!(final_outcome.found_any_instances_in_cache_for_any_factor_source());
}

#[test]
fn paths_to_derive_continue_after_cache() {
    let f = FactorSourceIDFromHash::fs0();
    let mut cache = FactorInstancesCache::default();
    cache.insert_for_factor(&f, &FactorInstances::new(vec![veci(0, f), veci(1, f)])).unwrap();
    let mut pdp = OrderedMap::new();
    pdp.insert(DerivationPreset::AccountVeci, 2usize);
    let mut pf_pdp = OrderedMap::new();
    pf_pdp.insert(f, pdp);
    let paths = FactorInstancesProvider::paths_to_derive(&pf_pdp, NetworkID::Mainnet, None, &cache).unwrap();
    let p = paths.get(&f).unwrap().elements();
    assert_eq!(
        p,
        vec![
            DerivationPath::account_tx(NetworkID::Mainnet, HDPathComponent::unsecurified_hardening_base_index(2)),
            DerivationPath::account_tx(NetworkID::Mainnet, HDPathComponent::unsecurified_hardening_base_index(3)),
        ]
    );
}

#[test]
fn outcome_transpose_orders_factor_sources_by_first_appearance() {
    let a = FactorSourceIDFromHash::fs0();
    let b = FactorSourceIDFromHash::fs1();
    let o = InternalFactorInstancesProviderOutcome::transpose(
        one(b, vec![veci(5, b)]),
        OrderedMap::new(),
        one(a, vec![veci(0, a)]),
        one(b, vec![veci(5, b), veci(6, b)]),
    );
    assert_eq!(o.per_factor.keys(), vec![a, b]);
    let ob = o.per_factor.get(&b).unwrap();
    assert_eq!(ob.to_cache, FactorInstances::new(vec![veci(5, b)]));
    assert_eq!(ob.newly_derived, FactorInstances::new(vec![veci(5, b), veci(6, b)]));
    assert_eq!(ob.found_in_cache, FactorInstances::empty());
    let f = FactorInstancesProviderOutcome::transpose(
        one(b, vec![veci(5, b)]),
        OrderedMap::new(),
        one(a, vec![veci(0, a)]),
        one(b, vec![veci(5, b), veci(6, b)]),
    );
    assert_eq!(f.per_factor.get(&b).unwrap().debug_was_cached, FactorInstances::new(vec![veci(5, b)]));
    assert_eq!(f.total_number_of_instances_found_in_cache(), 1);
}

#[test]
fn caching_fails_when_an_instance_to_cache_is_cached_already() {
    let f = FactorSourceIDFromHash::fs0();
    let mut cache = FactorInstancesCache::default();
    cache.insert_for_factor(&f, &FactorInstances::new(vec![veci(2, f)])).unwrap();
    let q = QuantifiedDerivationPreset::new(DerivationPreset::AccountVeci, 1);
    let found = OrderedMap::new();
    let derived = one(f, vec![veci(1, f), veci(2, f), veci(3, f)]);
    assert!(!FactorInstancesProvider::caching_succeeds(&q, &vec![f], &cache, &found, &derived));
}
