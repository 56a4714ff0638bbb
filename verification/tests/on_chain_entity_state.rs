use std::collections::HashSet;

use sargon_mfa::gateway::OnChainEntityState;
use sargon_mfa::types::entities::AddressOfAccountOrPersona;
use sargon_mfa::types::keys::PublicKeyHash;

type Sut = OnChainEntityState;

#[test]
fn equality() {
    assert_eq!(Sut::sample(), Sut::sample());
    assert_eq!(Sut::sample_other(), Sut::sample_other());
}

#[test]
fn inequality() {
    assert_ne!(Sut::sample(), Sut::sample_other());
}

#[test]
fn securified_is_securified() {
    assert!(Sut::sample().is_securified());
}

#[test]
fn address() {
    assert_eq!(Sut::sample().address(), AddressOfAccountOrPersona::sample());
}

#[test]
fn unsecurified_is_not_securified() {
    assert!(!Sut::sample_other().is_securified());
}

#[test]
fn owner_keys() {
    assert_eq!(
        Sut::sample().owner_keys().into_iter().collect::<HashSet<_>>(),
        HashSet::from_iter([PublicKeyHash::sample(), PublicKeyHash::sample_other()])
    );
}

#[test]
fn owner_keys_are_each_listed_once_in_order() {
    let s = Sut::new(
        AddressOfAccountOrPersona::sample(),
        None,
        vec![PublicKeyHash::sample_other(), PublicKeyHash::sample(), PublicKeyHash::sample_other()],
    );
    assert_eq!(s.owner_keys(), vec![PublicKeyHash::sample_other(), PublicKeyHash::sample()]);
}
