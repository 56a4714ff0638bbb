use sargon_mfa::factor_instances_provider::agnostic_paths::IndexAgnosticPath;
use sargon_mfa::factor_instances_provider::provider::factor_instances_cache::FactorInstancesCache;
use sargon_mfa::types::appendable::{AppendableMap, OrderedSet};
use sargon_mfa::types::derivation::{CAP26EntityKind, CAP26KeyKind, HDPathComponent, KeySpace};
use sargon_mfa::types::error::CommonError;
use sargon_mfa::types::factor_instances::FactorInstances;
use sargon_mfa::types::keys::{FactorSourceIDFromHash, HDFactorSource, HierarchicalDeterministicFactorInstance};
use sargon_mfa::types::network::NetworkID;
use sargon_mfa::types::ordered_map::OrderedMap;

type Sut = FactorInstancesCache;

fn account_veci(i: u32, fsid: FactorSourceIDFromHash) -> HierarchicalDeterministicFactorInstance {
    HierarchicalDeterministicFactorInstance::mainnet_tx(
        CAP26EntityKind::Account,
        HDPathComponent::unsecurified_hardening_base_index(i),
        fsid,
    )
}

#[test]
fn non_contiguous_indices() {
    let mut sut = Sut::default();
    let fsid = FactorSourceIDFromHash::fs0();
    let fi0 = account_veci(0, fsid);
    assert!(!sut.insert_for_factor(&fsid, &FactorInstances::new(vec![fi0])).unwrap());
    let fi2 = account_veci(2, fsid); // skipping `1`
    assert!(sut.insert_for_factor(&fsid, &FactorInstances::new(vec![fi2])).unwrap());
}

#[test]
fn factor_source_discrepancy() {
    let mut sut = Sut::default();
    let fi0 = account_veci(0, FactorSourceIDFromHash::fs0());
    assert!(sut
        .insert_for_factor(&FactorSourceIDFromHash::fs1(), &FactorInstances::new(vec![fi0]))
        .is_err());
}

#[test]
fn factor_source_discrepancy_is_the_error() {
    let mut sut = Sut::default();
    let fi0 = account_veci(0, FactorSourceIDFromHash::fs0());
    assert_eq!(
        sut.insert_for_factor(&FactorSourceIDFromHash::fs1(), &FactorInstances::new(vec![fi0])),
        Err(CommonError::FactorSourceDiscrepancy)
    );
    assert_eq!(sut.total_number_of_factor_instances(), 0);
}

#[test]
fn delete() {
    let mut sut = Sut::default();
    let factor_source_ids = HDFactorSource::all()
        .into_iter()
        .map(|f| f.factor_source_id())
        .collect::<Vec<_>>();
    let n = 30;
    let mut to_delete = OrderedMap::<FactorSourceIDFromHash, FactorInstances>::new();
    let mut to_remain = OrderedMap::<FactorSourceIDFromHash, FactorInstances>::new();
    for factor_source_id in factor_source_ids.clone() {
        let fsid = factor_source_id;
        let instances = (0..n)
            .map(|i| {
                let fi = account_veci(i, fsid);
                if i < 10 {
                    to_delete.append_or_insert_to(fsid, vec![fi]);
                } else {
                    to_remain.append_or_insert_to(fsid, vec![fi]);
                }
                fi
            })
            .collect::<Vec<_>>();
        sut.insert_for_factor(&fsid, &FactorInstances::new(instances)).unwrap();
    }
    sut.delete(&to_delete);
    assert_eq!(
        sut.get_poly_factor(
            &factor_source_ids,
            &IndexAgnosticPath::new(
                NetworkID::Mainnet,
                CAP26EntityKind::Account,
                CAP26KeyKind::TransactionSigning,
                KeySpace::Unsecurified
            )
        )
        .unwrap(),
        to_remain
    );
}

#[test]
fn throws_if_same_is_added() {
    let mut sut = Sut::default();
    let fsid = FactorSourceIDFromHash::fs0();
    let fi0 = account_veci(0, fsid);
    let fi1 = account_veci(1, fsid);
    assert!(!sut.insert_for_factor(&fsid, &FactorInstances::new(vec![fi0, fi1])).unwrap());
    assert_eq!(
        sut.insert_for_factor(&fsid, &FactorInstances::new(vec![fi0])).err().unwrap(),
        CommonError::CacheAlreadyContainsFactorInstance { derivation_path: fi0.derivation_path() }
    );
}

#[test]
fn insert_then_read_back() {
    let mut sut = Sut::default();
    let fsid = FactorSourceIDFromHash::fs3();
    let fis = vec![account_veci(0, fsid), account_veci(1, fsid), account_veci(2, fsid)];
    sut.insert_for_factor(&fsid, &FactorInstances::new(fis.clone())).unwrap();
    let path = IndexAgnosticPath::new(
        NetworkID::Mainnet,
        CAP26EntityKind::Account,
        CAP26KeyKind::TransactionSigning,
        KeySpace::Unsecurified,
    );
    let read = sut.get_mono_factor(&fsid, &path).unwrap();
    assert_eq!(read, FactorInstances::new(fis));
    assert_eq!(sut.max_index_for(fsid, path), Some(HDPathComponent::unsecurified_hardening_base_index(2)));
    assert_eq!(sut.total_number_of_factor_instances(), 3);
}

#[test]
fn delete_undoes_insert() {
    let mut sut = Sut::default();
    let fsid = FactorSourceIDFromHash::fs4();
    let fis = vec![account_veci(5, fsid), account_veci(6, fsid)];
    sut.insert_for_factor(&fsid, &FactorInstances::new(fis.clone())).unwrap();
    let mut del = OrderedMap::<FactorSourceIDFromHash, FactorInstances>::new();
    del.append_or_insert_to(fsid, fis);
    sut.delete(&del);
    assert_eq!(sut.total_number_of_factor_instances(), 0);
    assert!(sut.get_mono_factor(&fsid, &IndexAgnosticPath::new(
        NetworkID::Mainnet,
        CAP26EntityKind::Account,
        CAP26KeyKind::TransactionSigning,
        KeySpace::Unsecurified,
    )).is_none());
}

#[test]
fn test_append_element() {
    type Sut = OrderedMap<i8, OrderedSet<u8>>;
    let mut map = Sut::new();
    map.append_or_insert_element_to(-3, 5);
    map.append_or_insert_element_to(-3, 6);
    map.append_or_insert_element_to(-3, 6);
    map.append_or_insert_to(-3, vec![42, 237]);
    map.append_or_insert_to(-9, vec![64, 128]);
    assert_eq!(
        map,
        Sut::from_entries(vec![
            (-3, OrderedSet::<u8>::from_vec(vec![5, 6, 42, 237, 237])),
            (-9, OrderedSet::<u8>::from_vec(vec![64, 128])),
        ])
    );
}

fn mainnet_tx(entity_kind: CAP26EntityKind, index: HDPathComponent, fsid: FactorSourceIDFromHash) -> HierarchicalDeterministicFactorInstance {
    HierarchicalDeterministicFactorInstance::mainnet_tx(entity_kind, index, fsid)
}

#[test]
fn full_means_every_preset_is_full() {
    let fsid = FactorSourceIDFromHash::fs0();
    let mut all = Vec::new();
    for i in 0..30 {
        all.push(mainnet_tx(CAP26EntityKind::Account, HDPathComponent::unsecurified_hardening_base_index(i), fsid));
        all.push(mainnet_tx(CAP26EntityKind::Account, HDPathComponent::securifying_base_index(i), fsid));
        all.push(mainnet_tx(CAP26EntityKind::Identity, HDPathComponent::unsecurified_hardening_base_index(i), fsid));
        all.push(mainnet_tx(CAP26EntityKind::Identity, HDPathComponent::securifying_base_index(i), fsid));
    }
    let mut sut = Sut::default();
    sut.insert_for_factor(&fsid, &FactorInstances::new(all)).unwrap();
    assert!(sut.is_full(NetworkID::Mainnet, fsid));
    sut.assert_is_full(NetworkID::Mainnet, fsid);
    assert!(!sut.is_full(NetworkID::Stokenet, fsid));
}

#[test]
fn twice_as_many_for_two_presets_is_not_full() {
    let fsid = FactorSourceIDFromHash::fs0();
    let mut all = Vec::new();
    for i in 0..60 {
        all.push(mainnet_tx(CAP26EntityKind::Account, HDPathComponent::unsecurified_hardening_base_index(i), fsid));
        all.push(mainnet_tx(CAP26EntityKind::Account, HDPathComponent::securifying_base_index(i), fsid));
    }
    let mut sut = Sut::default();
    sut.insert_for_factor(&fsid, &FactorInstances::new(all)).unwrap();
    assert_eq!(sut.total_number_of_factor_instances(), 120);
    assert!(!sut.is_full(NetworkID::Mainnet, fsid));
}
