use sargon_mfa::test_gateway::TestGateway;
use sargon_mfa::types::entities::{
    AccountAddress, AddressOfAccountOrPersona, IdentityAddress, ScryptoAccessRule, SecurifiedEntityControl,
};
use sargon_mfa::types::keys::PublicKeyHash;

type Sut = TestGateway;

#[test]
fn test_has_internet_connection() {
    let has_internet_connection = true;
    let sut = Sut::new(has_internet_connection);
    let does_have_internet = sut.has_internet_connection();
    assert_eq!(does_have_internet, has_internet_connection);

    let has_internet_connection = false;
    let sut = Sut::new(has_internet_connection);
    let does_have_internet = sut.has_internet_connection();
    assert_eq!(does_have_internet, has_internet_connection);
}

#[test]
fn test_set_securified_account() {
    let mut sut = Sut::new(true);
    let address = AccountAddress::sample();
    let value = SecurifiedEntityControl::sample();
    sut.set_securified_account(value.clone(), &address).unwrap();
    let on_chain = sut.get_on_chain_account(&address).unwrap();
    let is_securified = sut.is_securified(AddressOfAccountOrPersona::Account(address)).unwrap();
    assert!(is_securified);
    assert_eq!(
        on_chain.unwrap().access_controller.unwrap().metadata.unwrap().scrypto_access_rules,
        ScryptoAccessRule::from_matrix(&value.matrix)
    );
    let is_pub_key_known = sut.query_public_key_hash_is_known(&vec![address.public_key_hash]).unwrap();
    assert_eq!(
        is_pub_key_known.get(&address.public_key_hash).unwrap(),
        &false // the creating key is not among the matrix's keys
    );
}

#[test]
fn test_set_securified_persona() {
    let mut sut = Sut::new(true);
    let address = IdentityAddress::sample();
    let value = SecurifiedEntityControl::sample();
    sut.set_securified_persona(value.clone(), &address).unwrap();
    let on_chain = sut.get_on_chain_entity(AddressOfAccountOrPersona::Identity(address)).unwrap();
    assert_eq!(
        on_chain.unwrap().access_controller.unwrap().metadata.unwrap().scrypto_access_rules,
        ScryptoAccessRule::from_matrix(&value.matrix)
    );
}

#[test]
fn gateway_starts_empty() {
    let sut = Sut::default();
    assert!(sut.has_internet_connection());
    assert_eq!(sut.get_on_chain_entity(AddressOfAccountOrPersona::sample()).unwrap(), None);
    assert!(!sut.is_key_hash_known(PublicKeyHash::sample()).unwrap());
    assert!(!sut.is_securified(AddressOfAccountOrPersona::sample()).unwrap());
}

#[test]
fn network_activity_records_unsecurified_entity_and_its_key() {
    let mut sut = Sut::new(true);
    let owner = AddressOfAccountOrPersona::sample();
    sut.simulate_network_activity_for(owner).unwrap();
    let state = sut.get_on_chain_entity(owner).unwrap().unwrap();
    assert_eq!(state.address(), owner);
    assert!(!state.is_securified());
    assert_eq!(state.owner_keys(), vec![owner.public_key_hash()]);
    assert!(sut.is_key_hash_known(owner.public_key_hash()).unwrap());
    assert!(!sut.is_securified(owner).unwrap());
    assert_eq!(sut.get_owner_key_hashes(owner).unwrap(), Some(vec![owner.public_key_hash()]));
}

#[test]
fn securifying_replaces_state_and_remembers_old_key() {
    let mut sut = Sut::new(true);
    let owner = AddressOfAccountOrPersona::sample();
    sut.simulate_network_activity_for(owner).unwrap();
    let value = SecurifiedEntityControl::sample();
    sut.set_securified_entity(value.clone(), owner).unwrap();
    assert!(sut.is_securified(owner).unwrap());
    let keys = sut.get_owner_key_hashes(owner).unwrap().unwrap();
    let expected: Vec<PublicKeyHash> = value.matrix.all_factors().iter().map(|f| f.public_key_hash()).collect();
    assert_eq!(keys, expected);
    // The ledger never forgets a key that once controlled an entity.
    assert!(sut.is_key_hash_known(owner.public_key_hash()).unwrap());
    for k in expected.iter() {
        assert!(sut.is_key_hash_known(*k).unwrap());
    }
}

#[test]
fn addresses_are_found_by_owner_key_hash() {
    let mut sut = Sut::new(true);
    let owner = AddressOfAccountOrPersona::sample();
    sut.simulate_network_activity_for(owner).unwrap();
    let value = SecurifiedEntityControl::sample();
    let persona = AddressOfAccountOrPersona::Identity(IdentityAddress::sample());
    sut.set_securified_entity(value.clone(), persona).unwrap();
    let matrix_key = value.matrix.all_factors()[0].public_key_hash();
    let unknown = PublicKeyHash::sample_other();
    let found = sut
        .get_entity_addresses_of_by_public_key_hashes(&vec![owner.public_key_hash(), matrix_key, unknown])
        .unwrap();
    assert_eq!(found.len(), 2);
    assert_eq!(found.get(&owner.public_key_hash()), Some(&vec![owner]));
    assert_eq!(found.get(&matrix_key), Some(&vec![persona]));
    assert_eq!(found.get(&unknown), None);
}

#[test]
fn snapshot_evolves_on_its_own() {
    let mut sut = Sut::new(true);
    let snapshot = sut.clone_snapshot();
    let owner = AddressOfAccountOrPersona::sample();
    sut.simulate_network_activity_for(owner).unwrap();
    assert!(sut.get_on_chain_entity(owner).unwrap().is_some());
    assert!(snapshot.get_on_chain_entity(owner).unwrap().is_none());
    let copy = sut.clone_snapshot();
    assert_eq!(copy.get_on_chain_entity(owner).unwrap(), sut.get_on_chain_entity(owner).unwrap());
    assert!(copy.is_key_hash_known(owner.public_key_hash()).unwrap());
}
