use sargon_mfa::factor_instances_provider::agnostic_paths::DerivationPreset;
use sargon_mfa::factor_instances_provider::next_index_assigner::assigner::{
    NextDerivationEntityIndexAssigner, NextDerivationEntityIndexCacheAnalyzingAssigner, OffsetFromCache,
};
use sargon_mfa::factor_instances_provider::next_index_assigner::offsets::{
    NextDerivationEntityIndexWithEphemeralOffsets, NextDerivationEntityIndexWithLocalOffsets,
};
use sargon_mfa::factor_instances_provider::next_index_assigner::profile_analyzing::NextDerivationEntityIndexProfileAnalyzingAssigner;
use sargon_mfa::factor_instances_provider::provider::factor_instances_cache::FactorInstancesCache;
use sargon_mfa::types::derivation::{CAP26EntityKind, HDPathComponent};
use sargon_mfa::types::entities::{
    Account, AccountAddress, EntitySecurityState, Persona, Profile, ThirdPartyDepositPreference,
};
use sargon_mfa::types::error::CommonError;
use sargon_mfa::types::factor_instances::FactorInstances;
use sargon_mfa::types::keys::{FactorSourceIDFromHash, HDFactorSource, HierarchicalDeterministicFactorInstance};
use sargon_mfa::types::network::NetworkID;
use sargon_mfa::types::ordered_map::OrderedMap;

type Sut = NextDerivationEntityIndexProfileAnalyzingAssigner;

#[test]
fn test_network_discrepancy() {
    let sut = Sut::new(NetworkID::Mainnet, None);
    assert_eq!(
        sut.next(
            FactorSourceIDFromHash::fs0(),
            DerivationPreset::AccountVeci.index_agnostic_path_on_network(NetworkID::Stokenet),
        ),
        Err(CommonError::NetworkDiscrepancy)
    );
}

#[test]
fn test_next_account_veci_with_single_at_0_is_1() {
    let preset = DerivationPreset::AccountVeci;
    let network_id = NetworkID::Mainnet;
    let sut = Sut::new(network_id, Some(Profile::new(HDFactorSource::all(), vec![Account::a0()], vec![])));
    let next = sut
        .next(FactorSourceIDFromHash::fs0(), preset.index_agnostic_path_on_network(network_id))
        .unwrap();
    assert_eq!(next, Some(HDPathComponent::unsecurified_hardening_base_index(1)))
}

#[test]
fn test_next_account_veci_with_unused_factor_is_none() {
    let preset = DerivationPreset::AccountVeci;
    let network_id = NetworkID::Mainnet;
    let sut = Sut::new(network_id, Some(Profile::new(HDFactorSource::all(), vec![Account::a0()], vec![])));
    let next = sut
        .next(FactorSourceIDFromHash::fs1(), preset.index_agnostic_path_on_network(network_id))
        .unwrap();
    assert_eq!(next, None)
}

#[test]
fn test_next_account_mfa_with_single_unsecurified_is_none() {
    let preset = DerivationPreset::AccountMfa;
    let network_id = NetworkID::Mainnet;
    let sut = Sut::new(network_id, Some(Profile::new(HDFactorSource::all(), vec![Account::a0()], vec![])));
    let next = sut
        .next(FactorSourceIDFromHash::fs0(), preset.index_agnostic_path_on_network(network_id))
        .unwrap();
    assert_eq!(next, None)
}

#[test]
fn test_next_account_veci_with_single_at_8_is_9() {
    let preset = DerivationPreset::AccountVeci;
    let network_id = NetworkID::Mainnet;
    let sut = Sut::new(
        network_id,
        Some(Profile::new(
            HDFactorSource::all(),
            vec![Account::a8(), Account::a2() /* securified, should not interfere */],
            vec![],
        )),
    );
    let next = sut
        .next(FactorSourceIDFromHash::fs10(), preset.index_agnostic_path_on_network(network_id))
        .unwrap();
    assert_eq!(next, Some(HDPathComponent::unsecurified_hardening_base_index(9)))
}

#[test]
fn test_next_account_mfa_with_single_at_7_is_8() {
    let preset = DerivationPreset::AccountMfa;
    let network_id = NetworkID::Mainnet;
    let sut = Sut::new(
        network_id,
        Some(Profile::new(
            HDFactorSource::all(),
            vec![Account::a8() /* unsecurified, should not interfere */, Account::a7()],
            vec![],
        )),
    );
    type F = FactorSourceIDFromHash;
    for fid in [F::fs2(), F::fs6(), F::fs7(), F::fs8(), F::fs9()] {
        let next = sut.next(fid, preset.index_agnostic_path_on_network(network_id)).unwrap();
        assert_eq!(next, Some(HDPathComponent::securifying_base_index(8)))
    }
}

#[test]
fn test_next_identity_mfa_with_single_at_7_is_8() {
    let preset = DerivationPreset::IdentityMfa;
    let network_id = NetworkID::Mainnet;
    let sut = Sut::new(network_id, Some(Profile::new(HDFactorSource::all(), vec![], vec![Persona::p7()])));
    type F = FactorSourceIDFromHash;
    for fid in [F::fs2(), F::fs6(), F::fs7(), F::fs8(), F::fs9()] {
        let next = sut.next(fid, preset.index_agnostic_path_on_network(network_id)).unwrap();
        assert_eq!(next, Some(HDPathComponent::securifying_base_index(8)))
    }
}

#[test]
fn test_next_identity_veci_with_single_at_1_is_2() {
    let preset = DerivationPreset::IdentityVeci;
    let network_id = NetworkID::Mainnet;
    let sut = Sut::new(
        network_id,
        Some(Profile::new(
            HDFactorSource::all(),
            vec![],
            vec![Persona::p7() /* securified should not interfere */, Persona::p1()],
        )),
    );
    let next = sut
        .next(FactorSourceIDFromHash::fs1(), preset.index_agnostic_path_on_network(network_id))
        .unwrap();
    assert_eq!(next, Some(HDPathComponent::unsecurified_hardening_base_index(2)))
}

#[test]
fn test_next_account_veci_with_non_contiguous_at_0_1_7_is_8() {
    let fsid = FactorSourceIDFromHash::fs0();
    let fi = |i: u32| {
        HierarchicalDeterministicFactorInstance::mainnet_tx(
            CAP26EntityKind::Account,
            HDPathComponent::unsecurified_hardening_base_index(i),
            fsid,
        )
    };
    let network_id = NetworkID::Mainnet;
    let accounts = [fi(0), fi(1), fi(7)]
        .map(|fi| {
            Account::new(
                "acco".to_string(),
                AccountAddress::new(network_id, fi.public_key_hash()),
                EntitySecurityState::Unsecured(fi),
                ThirdPartyDepositPreference::default(),
            )
        })
        .to_vec();
    let sut = Sut::new(network_id, Some(Profile::new(HDFactorSource::all(), accounts, vec![])));
    let next = sut
        .next(fsid, DerivationPreset::AccountVeci.index_agnostic_path_on_network(network_id))
        .unwrap();
    assert_eq!(next, Some(HDPathComponent::unsecurified_hardening_base_index(8)))
}

#[test]
fn profile_analysis_non_standard_path_is_error() {
    let sut = Sut::new(NetworkID::Mainnet, None);
    let path = sargon_mfa::factor_instances_provider::agnostic_paths::IndexAgnosticPath::new(
        NetworkID::Mainnet,
        CAP26EntityKind::Account,
        sargon_mfa::types::derivation::CAP26KeyKind::AuthenticationSigning,
        sargon_mfa::types::derivation::KeySpace::Unsecurified,
    );
    assert_eq!(sut.next(FactorSourceIDFromHash::fs0(), path), Err(CommonError::NonStandardDerivationPath));
}

#[test]
fn test_contiguous() {
    let mut sut = NextDerivationEntityIndexWithEphemeralOffsets::default();
    let n = 4;
    let indices = (0..n)
        .map(|_| {
            sut.reserve(
                FactorSourceIDFromHash::fs0(),
                DerivationPreset::AccountVeci.index_agnostic_path_on_network(NetworkID::Mainnet),
            )
        })
        .collect::<Vec<u32>>();
    assert_eq!(indices, vec![0, 1, 2, 3]);
}

#[test]
fn test_zero_for_each_factor_sources_first_time() {
    let mut sut = NextDerivationEntityIndexWithEphemeralOffsets::default();
    let fsids = HDFactorSource::all().into_iter().map(|f| f.factor_source_id()).collect::<Vec<_>>();
    let indices = fsids
        .clone()
        .into_iter()
        .map(|fsid| {
            sut.reserve(fsid, DerivationPreset::AccountVeci.index_agnostic_path_on_network(NetworkID::Mainnet))
        })
        .collect::<Vec<_>>();
    assert_eq!(indices, vec![0; fsids.len()]);
}

#[test]
fn test_zero_for_each_derivation_preset() {
    let mut sut = NextDerivationEntityIndexWithEphemeralOffsets::default();
    let derivation_presets = DerivationPreset::all();
    let indices = derivation_presets
        .clone()
        .into_iter()
        .map(|preset| sut.reserve(FactorSourceIDFromHash::fs0(), preset.index_agnostic_path_on_network(NetworkID::Mainnet)))
        .collect::<Vec<_>>();
    assert_eq!(indices, vec![0; derivation_presets.len()]);
}

#[test]
fn test_zero_for_each_network() {
    let mut sut = NextDerivationEntityIndexWithEphemeralOffsets::default();
    let network_ids = NetworkID::all();
    let indices = network_ids
        .clone()
        .into_iter()
        .map(|network_id| {
            sut.reserve(FactorSourceIDFromHash::fs0(), DerivationPreset::AccountMfa.index_agnostic_path_on_network(network_id))
        })
        .collect::<Vec<_>>();
    assert_eq!(indices, vec![0; network_ids.len()]);
}

#[test]
fn local_offsets_are_contiguous_per_pair() {
    let mut sut = NextDerivationEntityIndexWithLocalOffsets::default();
    let p = DerivationPreset::IdentityVeci.index_agnostic_path_on_network(NetworkID::Stokenet);
    assert_eq!(sut.reserve(FactorSourceIDFromHash::fs1(), p), 0);
    assert_eq!(sut.reserve(FactorSourceIDFromHash::fs1(), p), 1);
    assert_eq!(sut.reserve(FactorSourceIDFromHash::fs2(), p), 0);
    assert_eq!(sut.reserve(FactorSourceIDFromHash::fs1(), p), 2);
}

fn cache_with_veci_up_to(n: u32, fsid: FactorSourceIDFromHash) -> FactorInstancesCache {
    let mut cache = FactorInstancesCache::default();
    let fis = (0..=n)
        .map(|i| {
            HierarchicalDeterministicFactorInstance::mainnet_tx(
                CAP26EntityKind::Account,
                HDPathComponent::unsecurified_hardening_base_index(i),
                fsid,
            )
        })
        .collect::<Vec<_>>();
    cache.insert_for_factor(&fsid, &FactorInstances::new(fis)).unwrap();
    cache
}

#[test]
fn cache_analyzing_next_is_one_after_last() {
    let fsid = FactorSourceIDFromHash::fs0();
    let sut = NextDerivationEntityIndexCacheAnalyzingAssigner::new(cache_with_veci_up_to(4, fsid));
    let path = DerivationPreset::AccountVeci.index_agnostic_path_on_network(NetworkID::Mainnet);
    assert_eq!(sut.next(fsid, path), Ok(Some(HDPathComponent::unsecurified_hardening_base_index(5))));
    assert_eq!(sut.next(FactorSourceIDFromHash::fs1(), path), Ok(None));
}

#[test]
fn assigner_takes_later_of_cache_and_profile_plus_offset() {
    let fsid = FactorSourceIDFromHash::fs0();
    let network_id = NetworkID::Mainnet;
    let path = DerivationPreset::AccountVeci.index_agnostic_path_on_network(network_id);
    let profile = Profile::new(HDFactorSource::all(), vec![Account::a0()], vec![]);
    let mut sut = NextDerivationEntityIndexAssigner::new(network_id, Some(profile), cache_with_veci_up_to(4, fsid));
    assert_eq!(sut.next(fsid, path), Ok(HDPathComponent::unsecurified_hardening_base_index(5)));
    assert_eq!(sut.next(fsid, path), Ok(HDPathComponent::unsecurified_hardening_base_index(6)));
    let mfa = DerivationPreset::AccountMfa.index_agnostic_path_on_network(network_id);
    assert_eq!(sut.next(fsid, mfa), Ok(HDPathComponent::securifying_base_index(0)));
}

#[test]
fn assigner_without_profile_or_cache_starts_at_zero() {
    let network_id = NetworkID::Stokenet;
    let path = DerivationPreset::IdentityVeci.index_agnostic_path_on_network(network_id);
    let mut sut = NextDerivationEntityIndexAssigner::new(network_id, None, FactorInstancesCache::default());
    assert_eq!(sut.next(FactorSourceIDFromHash::fs5(), path), Ok(HDPathComponent::unsecurified_hardening_base_index(0)));
    let other = DerivationPreset::IdentityVeci.index_agnostic_path_on_network(NetworkID::Mainnet);
    assert_eq!(sut.next(FactorSourceIDFromHash::fs5(), other), Err(CommonError::NetworkDiscrepancy));
}

#[test]
fn offset_from_cache_find_max_in_removed() {
    let fsid = FactorSourceIDFromHash::fs0();
    let path = DerivationPreset::AccountVeci.index_agnostic_path_on_network(NetworkID::Mainnet);
    let fi = |i: u32| {
        HierarchicalDeterministicFactorInstance::mainnet_tx(
            CAP26EntityKind::Account,
            HDPathComponent::unsecurified_hardening_base_index(i),
            fsid,
        )
    };
    let mut m = OrderedMap::new();
    m.insert(fsid, FactorInstances::new(vec![fi(3), fi(9), fi(2)]));
    let sut = OffsetFromCache::FindMaxInRemoved { pf_found_in_cache: m };
    assert_eq!(sut.next(fsid, path), Ok(Some(HDPathComponent::unsecurified_hardening_base_index(10))));
    assert_eq!(sut.next(FactorSourceIDFromHash::fs1(), path), Ok(None));
    let known = OffsetFromCache::KnownMax { instance: fi(0x3FFF_FFFF) };
    assert_eq!(known.next(fsid, path), Err(CommonError::IndexOverflow));
}
