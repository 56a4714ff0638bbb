use sargon_mfa::factor_instances_provider::agnostic_paths::{DerivationPreset, IndexAgnosticPath};
use sargon_mfa::types::derivation::{CAP26EntityKind, CAP26KeyKind, KeySpace};
use sargon_mfa::types::error::CommonError;
use sargon_mfa::types::network::NetworkID;

#[test]
fn try_from_success() {
    NetworkID::all().into_iter().for_each(|n| {
        let f = |preset: DerivationPreset| {
            let sut = preset.index_agnostic_path_on_network(n);
            let back_again = DerivationPreset::try_from(sut).unwrap();
            assert_eq!(back_again, preset);
        };
        DerivationPreset::all().into_iter().for_each(|p| f(p));
    });
}

#[test]
fn try_from_fail() {
    let path = IndexAgnosticPath::new(
        NetworkID::Stokenet,
        CAP26EntityKind::Account,
        CAP26KeyKind::AuthenticationSigning,
        KeySpace::Unsecurified,
    );
    assert!(DerivationPreset::try_from(path).is_err());
}

#[test]
fn try_from_fail_gives_non_standard_derivation_path() {
    let path = IndexAgnosticPath::new(
        NetworkID::Mainnet,
        CAP26EntityKind::Identity,
        CAP26KeyKind::AuthenticationSigning,
        KeySpace::Securified,
    );
    assert_eq!(DerivationPreset::try_from(path), Err(CommonError::NonStandardDerivationPath));
}

#[test]
fn preset_paths_have_expected_parts() {
    let p = DerivationPreset::IdentityMfa.index_agnostic_path_on_network(NetworkID::Stokenet);
    assert_eq!(p.network_id, NetworkID::Stokenet);
    assert_eq!(p.entity_kind, CAP26EntityKind::Identity);
    assert_eq!(p.key_kind, CAP26KeyKind::TransactionSigning);
    assert_eq!(p.key_space, KeySpace::Securified);
}
