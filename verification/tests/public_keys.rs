use std::collections::HashSet;

use sargon_mfa::types::derivation::{DerivationPath, HDPathComponent, HDPathValue};
use sargon_mfa::types::keys::{FactorSourceIDFromHash, HierarchicalDeterministicPublicKey};
use sargon_mfa::types::network::NetworkID;

type PK = HierarchicalDeterministicPublicKey;

#[test]
fn recover_entity_public_key_hash_is_unique() {
    let f = &FactorSourceIDFromHash::fs0();
    let n: usize = 10;
    let pub_keys = HashSet::<PK>::from_iter(
        (0..n as HDPathValue)
            .map(|i| DerivationPath::account_tx(NetworkID::Mainnet, HDPathComponent::unsecurified(i)))
            .map(|p| PK::mocked_with(p, f)),
    );
    assert_eq!(pub_keys.len(), n);
    let hashes = pub_keys.iter().map(|k| k.hash()).collect::<HashSet<_>>();
    assert_eq!(hashes.len(), n);
}

#[test]
fn recovery_public_key_hash_is_unique() {
    let f = &FactorSourceIDFromHash::fs0();
    let n: usize = 10;
    let pub_keys = HashSet::<PK>::from_iter(
        (0..n as HDPathValue)
            .map(|i| {
                DerivationPath::account_tx(
                    NetworkID::Mainnet,
                    HDPathComponent::unsecurified_hardening_base_index(i),
                )
            })
            .map(|p| PK::mocked_with(p, f)),
    );
    assert_eq!(pub_keys.len(), n);
    let hashes = pub_keys.iter().map(|k| k.hash()).collect::<HashSet<_>>();
    assert_eq!(hashes.len(), n);
}

#[test]
fn mocked_key_depends_on_factor_source() {
    let p = DerivationPath::account_tx(NetworkID::Mainnet, HDPathComponent::unsecurified(0));
    let a = PK::mocked_with(p, &FactorSourceIDFromHash::fs0());
    let b = PK::mocked_with(p, &FactorSourceIDFromHash::fs1());
    assert_ne!(a, b);
    assert_ne!(a.hash(), b.hash());
    assert_eq!(a, PK::mocked_with(p, &FactorSourceIDFromHash::fs0()));
}
