use sargon_mfa::entity_recovery::recover_entities;
use sargon_mfa::gateway::OnChainEntityState;
use sargon_mfa::recovery::{group_by_address, hash_to_factor_map, recovery_derivation_paths};
use sargon_mfa::test_gateway::TestGateway;
use sargon_mfa::types::rendering::render_address;
use sargon_mfa::types::derivation::{CAP26EntityKind, CAP26KeyKind, KeySpace};
use sargon_mfa::types::entities::{
    AccessController, Account, AddressOfAccountOrPersona, EntitySecurityState, Persona, SecurifiedEntityControl,
};
use sargon_mfa::types::error::CommonError;
use sargon_mfa::types::keys::{FactorSourceIDFromHash, HDFactorSource, HierarchicalDeterministicFactorInstance};
use sargon_mfa::types::network::NetworkID;
use sargon_mfa::types::ordered_map::OrderedMap;

/// The instances of every sample factor source at every recovery path.
fn derive_at_recovery_paths(entity_kind: CAP26EntityKind) -> Vec<HierarchicalDeterministicFactorInstance> {
    let paths = recovery_derivation_paths(NetworkID::Mainnet, entity_kind);
    let mut all = Vec::new();
    for factor_source in HDFactorSource::all() {
        for path in paths.iter() {
            all.push(HierarchicalDeterministicFactorInstance::mocked(factor_source.factor_source_id(), *path));
        }
    }
    all
}

/// Runs recovery of entities of kind `E` against `gateway`.
fn recover<E: sargon_mfa::types::entities::IsEntity>(
    gateway: &TestGateway,
) -> Result<sargon_mfa::recovery::EntityRecoveryOutcome<E>, CommonError> {
    let instances = derive_at_recovery_paths(E::kind());
    let map = hash_to_factor_map(&instances);
    let answers = gateway.get_entity_addresses_of_by_public_key_hashes(&map.keys()).unwrap();
    let mut on_chain: OrderedMap<AddressOfAccountOrPersona, OnChainEntityState> = OrderedMap::new();
    for hash in answers.keys() {
        let addresses = answers.get(&hash).unwrap();
        assert_eq!(addresses.len(), 1);
        if let Some(state) = gateway.get_on_chain_entity(addresses[0]).unwrap() {
            on_chain.insert(addresses[0], state);
        }
    }
    recover_entities::<E>(&map, &answers, &on_chain)
}

fn account_address(a: &Account) -> AddressOfAccountOrPersona {
    AddressOfAccountOrPersona::Account(a.entity_address())
}

#[test]
fn recovery_paths_are_a_batch_of_each_key_space() {
    let paths = recovery_derivation_paths(NetworkID::Mainnet, CAP26EntityKind::Account);
    assert_eq!(paths.len(), 100);
    for (i, p) in paths.iter().enumerate() {
        assert_eq!(p.network_id, NetworkID::Mainnet);
        assert_eq!(p.entity_kind, CAP26EntityKind::Account);
        assert_eq!(p.key_kind, CAP26KeyKind::TransactionSigning);
        if i < 50 {
            assert_eq!(p.index.key_space(), KeySpace::Unsecurified);
            assert_eq!(p.index.base_index(), i as u32);
        } else {
            assert_eq!(p.index.key_space(), KeySpace::Securified);
            assert_eq!(p.index.base_index(), (i - 50) as u32);
        }
    }
}

#[test]
fn hash_map_keeps_the_later_of_two_equal_hashes() {
    let paths = recovery_derivation_paths(NetworkID::Mainnet, CAP26EntityKind::Identity);
    let a = HierarchicalDeterministicFactorInstance::mocked(FactorSourceIDFromHash::fs0(), paths[0]);
    let b = HierarchicalDeterministicFactorInstance::mocked(FactorSourceIDFromHash::fs1(), paths[1]);
    let map = hash_to_factor_map(&vec![a, b, a]);
    assert_eq!(map.len(), 2);
    assert_eq!(map.get(&a.public_key_hash()), Some(&a));
    assert_eq!(map.get(&b.public_key_hash()), Some(&b));
}

#[test]
fn instances_are_grouped_by_reported_address() {
    let paths = recovery_derivation_paths(NetworkID::Mainnet, CAP26EntityKind::Account);
    let a = HierarchicalDeterministicFactorInstance::mocked(FactorSourceIDFromHash::fs0(), paths[0]);
    let b = HierarchicalDeterministicFactorInstance::mocked(FactorSourceIDFromHash::fs1(), paths[1]);
    let c = HierarchicalDeterministicFactorInstance::mocked(FactorSourceIDFromHash::fs2(), paths[2]);
    let map = hash_to_factor_map(&vec![a, b, c]);
    let x = AddressOfAccountOrPersona::new(a, NetworkID::Mainnet, CAP26EntityKind::Account);
    let y = AddressOfAccountOrPersona::new(b, NetworkID::Mainnet, CAP26EntityKind::Account);
    let grouped = group_by_address(
        &map,
        &vec![(a.public_key_hash(), x), (b.public_key_hash(), y), (c.public_key_hash(), x)],
    );
    assert_eq!(grouped.len(), 2);
    assert_eq!(grouped.get(&x).unwrap().factor_instances(), vec![a, c]);
    assert_eq!(grouped.get(&y).unwrap().factor_instances(), vec![b]);
}

#[test]
fn recovery_of_unsecurified_accounts() {
    let mut gateway = TestGateway::new(true);
    let unsecurified = Account::a0();
    gateway.simulate_network_activity_for(account_address(&unsecurified)).unwrap();
    let recovered = recover::<Account>(&gateway).unwrap();
    assert_eq!(recovered.recovered_securified.len(), 0);
    assert_eq!(recovered.unrecovered.len(), 0);
    assert_eq!(recovered.recovered_unsecurified.len(), 1);
    let account = &recovered.recovered_unsecurified[0];
    assert_eq!(account.security_state, unsecurified.security_state);
    assert_eq!(account.address, unsecurified.address);
    assert!(account.name.starts_with("Recovered Unsecurified: "));
    let h = unsecurified.address.public_key_hash;
    assert_eq!(
        account.name,
        format!("Recovered Unsecurified: account_mainnet_{:016x}{:016x}{:016x}{:016x}", h.w0, h.w1, h.w2, h.w3)
    );
}

#[test]
fn recovery_of_securified_accounts() {
    let mut gateway = TestGateway::new(true);
    let securified = Account::a7();
    let control = match &securified.security_state {
        EntitySecurityState::Securified(c) => c.clone(),
        EntitySecurityState::Unsecured(_) => panic!("a7 is securified"),
    };
    gateway.set_securified_account(control, &securified.entity_address()).unwrap();
    let recovered = recover::<Account>(&gateway).unwrap();
    assert_eq!(recovered.recovered_unsecurified.len(), 0);
    assert_eq!(recovered.unrecovered.len(), 0);
    assert_eq!(recovered.recovered_securified.len(), 1);
    let account = &recovered.recovered_securified[0];
    assert_eq!(account.security_state, securified.security_state);
    assert!(account.name.starts_with("Recovered Securified: "));
    let h = securified.address.public_key_hash;
    assert_eq!(
        account.name,
        format!("Recovered Securified: account_mainnet_{:016x}{:016x}{:016x}{:016x}", h.w0, h.w1, h.w2, h.w3)
    );
}

#[test]
fn recovery_of_securified_persona() {
    let mut gateway = TestGateway::new(true);
    let securified = Persona::p7();
    let control = match &securified.security_state {
        EntitySecurityState::Securified(c) => c.clone(),
        EntitySecurityState::Unsecured(_) => panic!("p7 is securified"),
    };
    gateway.set_securified_persona(control, &securified.entity_address()).unwrap();
    let recovered = recover::<Persona>(&gateway).unwrap();
    assert_eq!(recovered.recovered_unsecurified.len(), 0);
    assert_eq!(recovered.recovered_securified.len(), 1);
    assert_eq!(recovered.recovered_securified[0].security_state, securified.security_state);
}

#[test]
fn recovery_of_mixed_accounts() {
    let mut gateway = TestGateway::new(true);
    let alice = Account::a0();
    let carla = Account::a2();
    let grace = Account::a7();
    gateway.simulate_network_activity_for(account_address(&alice)).unwrap();
    for a in [&carla, &grace] {
        let control = match &a.security_state {
            EntitySecurityState::Securified(c) => c.clone(),
            EntitySecurityState::Unsecured(_) => panic!("securified sample"),
        };
        gateway.set_securified_account(control, &a.entity_address()).unwrap();
    }
    let recovered = recover::<Account>(&gateway).unwrap();
    assert!(recovered.unrecovered.is_empty());
    assert_eq!(recovered.recovered_unsecurified.len(), 1);
    assert_eq!(recovered.recovered_securified.len(), 2);
    assert_eq!(recovered.recovered_unsecurified[0].security_state, alice.security_state);
    let states: Vec<EntitySecurityState> = recovered.recovered_securified.iter().map(|a| a.security_state.clone()).collect();
    assert!(states.contains(&carla.security_state));
    assert!(states.contains(&grace.security_state));
}

#[test]
fn accounts_found_when_recovering_personas_is_an_error() {
    let mut gateway = TestGateway::new(true);
    let grace = Account::a7();
    let control = match &grace.security_state {
        EntitySecurityState::Securified(c) => c.clone(),
        EntitySecurityState::Unsecured(_) => panic!("a7 is securified"),
    };
    gateway.set_securified_account(control, &grace.entity_address()).unwrap();
    // The matrix of a7 uses account paths, which a persona scan does not
    // derive; scanning for accounts and typing the result as personas fails.
    let instances = derive_at_recovery_paths(CAP26EntityKind::Account);
    let map = hash_to_factor_map(&instances);
    let answers = gateway.get_entity_addresses_of_by_public_key_hashes(&map.keys()).unwrap();
    let mut on_chain: OrderedMap<AddressOfAccountOrPersona, OnChainEntityState> = OrderedMap::new();
    let address = account_address(&grace);
    on_chain.insert(address, gateway.get_on_chain_entity(address).unwrap().unwrap());
    let r = recover_entities::<Persona>(&map, &answers, &on_chain);
    assert_eq!(r.err(), Some(CommonError::AddressConversionError));
}

#[test]
fn securified_entity_with_unknown_rules_is_not_recovered() {
    let mut gateway = TestGateway::new(true);
    let grace = Account::a7();
    let control = match &grace.security_state {
        EntitySecurityState::Securified(c) => c.clone(),
        EntitySecurityState::Unsecured(_) => panic!("a7 is securified"),
    };
    let without_rules = SecurifiedEntityControl::new(
        control.matrix.clone(),
        AccessController::from_unsecurified_address(account_address(&grace)),
        None,
    );
    gateway.set_securified_account(without_rules, &grace.entity_address()).unwrap();
    let recovered = recover::<Account>(&gateway).unwrap();
    assert_eq!(recovered.recovered_securified.len(), 0);
    assert_eq!(recovered.recovered_unsecurified.len(), 0);
    assert_eq!(recovered.unrecovered.len(), 1);
    assert_eq!(
        recovered.unrecovered[0].on_chain,
        gateway.get_on_chain_entity(account_address(&grace)).unwrap().unwrap()
    );
    assert_eq!(recovered.unrecovered[0].key_hash_to_factor_instances.len(), 0);
}

#[test]
fn nothing_on_ledger_recovers_nothing() {
    let gateway = TestGateway::new(true);
    let recovered = recover::<Account>(&gateway).unwrap();
    assert!(recovered.recovered_unsecurified.is_empty());
    assert!(recovered.recovered_securified.is_empty());
    assert!(recovered.unrecovered.is_empty());
}

#[test]
fn addresses_render_kind_network_and_hash() {
    let h = sargon_mfa::types::keys::PublicKeyHash { w0: 0x1, w1: 0xabc, w2: u64::MAX, w3: 0 };
    let account = AddressOfAccountOrPersona::Account(sargon_mfa::types::entities::AccountAddress::new(NetworkID::Mainnet, h));
    assert_eq!(
        render_address(&account),
        "account_mainnet_00000000000000010000000000000abcffffffffffffffff0000000000000000"
    );
    let identity =
        AddressOfAccountOrPersona::Identity(sargon_mfa::types::entities::IdentityAddress::new(NetworkID::Stokenet, h));
    assert_eq!(
        render_address(&identity),
        "identity_stokenet_00000000000000010000000000000abcffffffffffffffff0000000000000000"
    );
}
