use sargon_mfa::entity_recovery::answers_fit;
use sargon_mfa::factor_instances_provider::agnostic_paths::{DerivationPreset, CACHE_FILLING_QUANTITY};
use sargon_mfa::factor_instances_provider::next_index_assigner::profile_analyzing::is_profile_analyzable;
use sargon_mfa::factor_instances_provider::provider::factor_instances_cache::{
    FactorInstancesCache, QuantifiedDerivationPreset,
};
use sargon_mfa::factor_instances_provider::provider::outcome::is_pf_consistent;
use sargon_mfa::factor_instances_provider::provider::provider::FactorInstancesProvider;
use sargon_mfa::gateway::OnChainEntityState;
use sargon_mfa::types::appendable::OrderedSet;
use sargon_mfa::types::derivation::{CAP26EntityKind, HDPathComponent};
use sargon_mfa::types::entities::{
    Account, AddressOfAccountOrPersona, EntitySecurityState, MatrixOfFactorSources, Persona, Profile,
};
use sargon_mfa::types::factor_instances::FactorInstances;
use sargon_mfa::types::keys::{FactorSourceIDFromHash, HDFactorSource, HierarchicalDeterministicFactorInstance, PublicKeyHash};
use sargon_mfa::types::network::NetworkID;
use sargon_mfa::types::ordered_map::OrderedMap;

fn veci(i: u32, f: FactorSourceIDFromHash) -> HierarchicalDeterministicFactorInstance {
    HierarchicalDeterministicFactorInstance::mainnet_tx(
        CAP26EntityKind::Account,
        HDPathComponent::unsecurified_hardening_base_index(i),
        f,
    )
}

fn one(f: FactorSourceIDFromHash, fis: Vec<HierarchicalDeterministicFactorInstance>) -> OrderedMap<FactorSourceIDFromHash, FactorInstances> {
    let mut m = OrderedMap::new();
    m.insert(f, FactorInstances::new(fis));
    m
}

#[test]
fn new_factor_source_asks_for_every_preset_filled() {
    let f = FactorSourceIDFromHash::fs3();
    let q = FactorInstancesProvider::new_factor_source_quantities(f);
    assert_eq!(q.keys(), vec![f]);
    let per_preset = q.get(&f).unwrap();
    assert_eq!(per_preset.keys(), DerivationPreset::all());
    for p in DerivationPreset::all() {
        assert_eq!(per_preset.get(&p), Some(&CACHE_FILLING_QUANTITY));
    }
}

#[test]
fn new_factor_source_instances_are_cached_and_reported() {
    let f = FactorSourceIDFromHash::fs0();
    let mut cache = FactorInstancesCache::default();
    let derived = one(f, vec![veci(0, f), veci(1, f)]);
    let outcome = FactorInstancesProvider::cache_new_factor_source(&mut cache, f, &derived).unwrap();
    assert_eq!(outcome.factor_source_id, f);
    assert!(outcome.to_use_directly.is_empty());
    assert!(outcome.debug_found_in_cache.is_empty());
    assert_eq!(outcome.debug_was_cached.factor_instances(), vec![veci(0, f), veci(1, f)]);
    assert_eq!(outcome.debug_was_derived.factor_instances(), vec![veci(0, f), veci(1, f)]);
    assert_eq!(cache.total_number_of_factor_instances(), 2);
    // caching the same instances again would be refused by the cache
    assert!(!cache.can_insert_all(&derived));
    assert!(cache.can_insert_all(&one(f, vec![veci(2, f)])));
}

#[test]
fn mfa_request_uses_every_factor_of_the_matrix_once() {
    let fs = HDFactorSource::all();
    let matrix = MatrixOfFactorSources::new(vec![fs[0], fs[1], fs[0]], 2, vec![fs[1], fs[2]]);
    assert_eq!(matrix.all_factors(), vec![fs[0], fs[1], fs[2]]);
    let alice = Account::a0();
    let klara = Account::a8();
    let profile = Profile::new(fs.clone(), vec![alice.clone(), klara.clone()], vec![]);
    let addresses = OrderedSet::from_vec(vec![
        AddressOfAccountOrPersona::Account(alice.address),
        AddressOfAccountOrPersona::Account(klara.address),
    ]);
    let (network_id, ids, q) = FactorInstancesProvider::entity_mfa_request::<Account>(&profile, &matrix, &addresses);
    assert_eq!(network_id, NetworkID::Mainnet);
    assert_eq!(ids, vec![fs[0].factor_source_id, fs[1].factor_source_id, fs[2].factor_source_id]);
    assert_eq!(q, QuantifiedDerivationPreset::new(DerivationPreset::AccountMfa, 2));
}

#[test]
fn profile_knows_its_entities_by_address() {
    let alice = Account::a0();
    let batman = Persona::p1();
    let profile = Profile::new(HDFactorSource::all(), vec![alice.clone()], vec![batman.clone()]);
    assert!(profile.contains_entity_by_address(&AddressOfAccountOrPersona::Account(alice.address)));
    assert!(profile.contains_entity_by_address(&AddressOfAccountOrPersona::Identity(batman.address)));
    assert!(!profile.contains_entity_by_address(&AddressOfAccountOrPersona::Account(Account::a8().address)));
}

#[test]
fn derived_instances_must_be_filed_under_their_factor_and_suffice() {
    let f = FactorSourceIDFromHash::fs0();
    let g = FactorSourceIDFromHash::fs1();
    let q = QuantifiedDerivationPreset::new(DerivationPreset::AccountVeci, 2);
    let found = one(f, vec![veci(0, f)]);
    assert!(FactorInstancesProvider::derived_instances_fit(&q, &vec![f], &found, &one(f, vec![veci(1, f)])));
    // one found and none derived: fewer than the two requested
    assert!(!FactorInstancesProvider::derived_instances_fit(&q, &vec![f], &found, &OrderedMap::new()));
    // an instance of `g` under `f`
    assert!(!FactorInstancesProvider::derived_instances_fit(&q, &vec![f], &found, &one(f, vec![veci(1, f), veci(2, g)])));
    assert!(is_pf_consistent(&found));
    assert!(!is_pf_consistent(&one(f, vec![veci(0, g)])));
}

#[test]
fn cache_holds_what_was_inserted_only() {
    let f = FactorSourceIDFromHash::fs0();
    let mut cache = FactorInstancesCache::default();
    cache.insert(&one(f, vec![veci(0, f), veci(1, f)]));
    assert!(cache.holds_all(&one(f, vec![veci(1, f)])));
    assert!(!cache.holds_all(&one(f, vec![veci(2, f)])));
    assert!(cache.holds_all(&OrderedMap::new()));
}

#[test]
fn profile_with_instances_on_their_own_paths_is_analyzable() {
    let f = FactorSourceIDFromHash::fs0();
    let profile = Profile::new(HDFactorSource::all(), vec![Account::a0(), Account::a2()], vec![]);
    for p in DerivationPreset::all() {
        assert!(is_profile_analyzable(&Some(profile.clone()), NetworkID::Mainnet, p, f));
        assert!(is_profile_analyzable(&None, NetworkID::Mainnet, p, f));
    }
    // an account controlled by an instance on a securified path is read as a veci
    let mut odd = Account::a0();
    odd.security_state = EntitySecurityState::Unsecured(HierarchicalDeterministicFactorInstance::mainnet_tx(
        CAP26EntityKind::Account,
        HDPathComponent::securifying_base_index(0),
        f,
    ));
    let profile = Profile::new(HDFactorSource::all(), vec![odd], vec![]);
    assert!(!is_profile_analyzable(&Some(profile), NetworkID::Mainnet, DerivationPreset::AccountVeci, f));
}

#[test]
fn recovery_answers_must_name_one_address_per_derived_hash() {
    let f = FactorSourceIDFromHash::fs0();
    let a = veci(0, f);
    let mut map = OrderedMap::new();
    map.insert(a.public_key_hash(), a);
    let address = AddressOfAccountOrPersona::new(a, NetworkID::Mainnet, CAP26EntityKind::Account);
    let on_chain: OrderedMap<AddressOfAccountOrPersona, OnChainEntityState> = OrderedMap::new();

    let mut answers = OrderedMap::new();
    answers.insert(a.public_key_hash(), vec![address]);
    assert!(answers_fit(&map, &answers, &on_chain));

    let mut shared = OrderedMap::new();
    shared.insert(a.public_key_hash(), vec![address, AddressOfAccountOrPersona::sample()]);
    assert!(!answers_fit(&map, &shared, &on_chain));

    let mut unknown = OrderedMap::new();
    unknown.insert(PublicKeyHash::sample(), vec![address]);
    assert!(!answers_fit(&map, &unknown, &on_chain));
}
