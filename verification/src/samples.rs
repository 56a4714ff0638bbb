//! Sample values: factor sources, accounts and personas used by tests and
//! demonstrations.
use vstd::prelude::*;
use crate::types::derivation::{CAP26EntityKind, CAP26KeyKind, DerivationPath, HDPathComponent, KeySpace};
use crate::types::entities::{
    AccessController, Account, AccountAddress, AddressOfAccountOrPersona, EntitySecurityState,
    IdentityAddress, MatrixOfFactorInstances, Persona, SecurifiedEntityControl,
    ThirdPartyDepositPreference,
};
use crate::types::keys::{
    FactorSourceIDFromHash, FactorSourceKind, HDFactorSource, HierarchicalDeterministicFactorInstance,
    PublicKeyHash,
};
use crate::types::network::NetworkID;

verus! {

/// `f` is the mainnet transaction signing instance of `factor_source_id` for
/// `entity_kind` at base index `base` in `key_space`.
pub open spec fn is_sample_instance(
    f: HierarchicalDeterministicFactorInstance,
    entity_kind: CAP26EntityKind,
    key_space: KeySpace,
    base: u32,
    factor_source_id: FactorSourceIDFromHash,
) -> bool {
    &&& f.factor_source_id == factor_source_id
    &&& f.spec_path().network_id == NetworkID::Mainnet
    &&& f.spec_path().entity_kind == entity_kind
    &&& f.spec_path().key_kind == CAP26KeyKind::TransactionSigning
    &&& f.spec_path().index.spec_key_space() == key_space
    &&& f.spec_path().index.spec_base_index() == base
}

/// The factor sources of the five-factor sample matrices, in order: `fs2`,
/// `fs6`, `fs7`, `fs8` and `fs9`.
pub open spec fn five_sample_ids() -> Seq<FactorSourceIDFromHash> {
    seq![
        FactorSourceIDFromHash { kind: FactorSourceKind::Ledger, body: 2 },
        FactorSourceIDFromHash { kind: FactorSourceKind::Yubikey, body: 6 },
        FactorSourceIDFromHash { kind: FactorSourceKind::OffDeviceMnemonic, body: 7 },
        FactorSourceIDFromHash { kind: FactorSourceKind::OffDeviceMnemonic, body: 8 },
        FactorSourceIDFromHash { kind: FactorSourceKind::SecurityQuestions, body: 9 },
    ]
}

/// `v` holds, in order, the securified instances of `entity_kind` at base
/// index `base` of the five sample factor sources.
pub open spec fn is_five_sample(v: Seq<HierarchicalDeterministicFactorInstance>, entity_kind: CAP26EntityKind, base: u32) -> bool {
    &&& v.len() == 5
    &&& forall|i: int| 0 <= i < 5 ==> is_sample_instance(#[trigger] v[i], entity_kind, KeySpace::Securified, base, five_sample_ids()[i])
}

/// `state` is controlled by a matrix of the five sample factor sources at
/// securified index 7 of `entity_kind`, with a threshold of 2, no override
/// factors and no known creating instance.
pub open spec fn is_five_sample_control(state: EntitySecurityState, entity_kind: CAP26EntityKind) -> bool {
    state matches EntitySecurityState::Securified(c) && is_five_sample(c.matrix.threshold_factors@, entity_kind, 7)
        && c.matrix.threshold == 2 && c.matrix.override_factors@.len() == 0 && c.veci is None
}

impl FactorSourceIDFromHash {
    pub fn fs0() -> (id: Self)
        ensures
            id == (FactorSourceIDFromHash { kind: FactorSourceKind::Device, body: 0 }),
    {
        FactorSourceIDFromHash::new(FactorSourceKind::Device, 0)
    }

    pub fn fs1() -> (id: Self)
        ensures
            id == (FactorSourceIDFromHash { kind: FactorSourceKind::Ledger, body: 1 }),
    {
        FactorSourceIDFromHash::new(FactorSourceKind::Ledger, 1)
    }

    pub fn fs2() -> (id: Self)
        ensures
            id == (FactorSourceIDFromHash { kind: FactorSourceKind::Ledger, body: 2 }),
    {
        FactorSourceIDFromHash::new(FactorSourceKind::Ledger, 2)
    }

    pub fn fs3() -> (id: Self)
        ensures
            id == (FactorSourceIDFromHash { kind: FactorSourceKind::Arculus, body: 3 }),
    {
        FactorSourceIDFromHash::new(FactorSourceKind::Arculus, 3)
    }

    pub fn fs4() -> (id: Self)
        ensures
            id == (FactorSourceIDFromHash { kind: FactorSourceKind::Arculus, body: 4 }),
    {
        FactorSourceIDFromHash::new(FactorSourceKind::Arculus, 4)
    }

    pub fn fs5() -> (id: Self)
        ensures
            id == (FactorSourceIDFromHash { kind: FactorSourceKind::Yubikey, body: 5 }),
    {
        FactorSourceIDFromHash::new(FactorSourceKind::Yubikey, 5)
    }

    pub fn fs6() -> (id: Self)
        ensures
            id == (FactorSourceIDFromHash { kind: FactorSourceKind::Yubikey, body: 6 }),
    {
        FactorSourceIDFromHash::new(FactorSourceKind::Yubikey, 6)
    }

    pub fn fs7() -> (id: Self)
        ensures
            id == (FactorSourceIDFromHash { kind: FactorSourceKind::OffDeviceMnemonic, body: 7 }),
    {
        FactorSourceIDFromHash::new(FactorSourceKind::OffDeviceMnemonic, 7)
    }

    pub fn fs8() -> (id: Self)
        ensures
            id == (FactorSourceIDFromHash { kind: FactorSourceKind::OffDeviceMnemonic, body: 8 }),
    {
        FactorSourceIDFromHash::new(FactorSourceKind::OffDeviceMnemonic, 8)
    }

    pub fn fs9() -> (id: Self)
        ensures
            id == (FactorSourceIDFromHash { kind: FactorSourceKind::SecurityQuestions, body: 9 }),
    {
        FactorSourceIDFromHash::new(FactorSourceKind::SecurityQuestions, 9)
    }

    pub fn fs10() -> (id: Self)
        ensures
            id == (FactorSourceIDFromHash { kind: FactorSourceKind::Device, body: 10 }),
    {
        FactorSourceIDFromHash::new(FactorSourceKind::Device, 10)
    }
}

impl HDFactorSource {
    /// The sample factor sources `fs0` to `fs10`, in order.
    pub fn all() -> (v: Vec<HDFactorSource>)
        ensures
            v@.len() == 11,
            forall|i: int| 0 <= i < 11 ==> (#[trigger] v@[i]).factor_source_id.body == i,
    {
        let v = vec![
            HDFactorSource::new(FactorSourceIDFromHash::fs0()),
            HDFactorSource::new(FactorSourceIDFromHash::fs1()),
            HDFactorSource::new(FactorSourceIDFromHash::fs2()),
            HDFactorSource::new(FactorSourceIDFromHash::fs3()),
            HDFactorSource::new(FactorSourceIDFromHash::fs4()),
            HDFactorSource::new(FactorSourceIDFromHash::fs5()),
            HDFactorSource::new(FactorSourceIDFromHash::fs6()),
            HDFactorSource::new(FactorSourceIDFromHash::fs7()),
            HDFactorSource::new(FactorSourceIDFromHash::fs8()),
            HDFactorSource::new(FactorSourceIDFromHash::fs9()),
            HDFactorSource::new(FactorSourceIDFromHash::fs10()),
        ];
        v
    }

    /// The sample device factor source.
    pub fn device() -> (f: HDFactorSource)
        ensures
            f.factor_source_id == (FactorSourceIDFromHash { kind: FactorSourceKind::Device, body: 0 }),
    {
        HDFactorSource::new(FactorSourceIDFromHash::fs0())
    }

    /// A sample factor source.
    pub fn sample() -> (f: HDFactorSource)
        ensures
            f.factor_source_id == (FactorSourceIDFromHash { kind: FactorSourceKind::Device, body: 0 }),
    {
        HDFactorSource::device()
    }
}

impl PublicKeyHash {
    pub open spec fn sample_spec() -> Self {
        PublicKeyHash { w0: 1, w1: 1, w2: 1, w3: 1 }
    }

    pub open spec fn sample_other_spec() -> Self {
        PublicKeyHash { w0: 2, w1: 2, w2: 2, w3: 2 }
    }

    pub fn sample() -> (h: Self)
        ensures
            h == Self::sample_spec(),
    {
        PublicKeyHash { w0: 1, w1: 1, w2: 1, w3: 1 }
    }

    pub fn sample_other() -> (h: Self)
        ensures
            h == Self::sample_other_spec(),
    {
        PublicKeyHash { w0: 2, w1: 2, w2: 2, w3: 2 }
    }
}

impl AccountAddress {
    pub fn sample() -> (a: Self)
        ensures
            a == (AccountAddress { network_id: NetworkID::Mainnet, public_key_hash: PublicKeyHash { w0: 1, w1: 1, w2: 1, w3: 1 } }),
    {
        AccountAddress::new(NetworkID::Mainnet, PublicKeyHash::sample())
    }
}

impl IdentityAddress {
    pub fn sample() -> (a: Self)
        ensures
            a == (IdentityAddress { network_id: NetworkID::Mainnet, public_key_hash: PublicKeyHash { w0: 1, w1: 1, w2: 1, w3: 1 } }),
    {
        IdentityAddress::new(NetworkID::Mainnet, PublicKeyHash::sample())
    }
}

impl AddressOfAccountOrPersona {
    pub open spec fn sample_spec() -> Self {
        AddressOfAccountOrPersona::Account(
            AccountAddress { network_id: NetworkID::Mainnet, public_key_hash: PublicKeyHash::sample_spec() },
        )
    }

    pub fn sample() -> (a: Self)
        ensures
            a == Self::sample_spec(),
    {
        AddressOfAccountOrPersona::Account(AccountAddress::sample())
    }
}

impl AccessController {
    pub fn sample() -> (c: Self)
        ensures
            c.controlled_entity == AddressOfAccountOrPersona::Account(
                AccountAddress { network_id: NetworkID::Mainnet, public_key_hash: PublicKeyHash { w0: 1, w1: 1, w2: 1, w3: 1 } },
            ),
            c.metadata is None,
    {
        AccessController::from_unsecurified_address(AddressOfAccountOrPersona::sample())
    }
}

/// A mainnet transaction signing instance of `entity_kind` at `index`.
fn sample_instance(
    entity_kind: CAP26EntityKind,
    index: HDPathComponent,
    factor_source_id: FactorSourceIDFromHash,
) -> (f: HierarchicalDeterministicFactorInstance)
    ensures
        f.factor_source_id == factor_source_id,
        f.spec_path() == (DerivationPath {
            network_id: NetworkID::Mainnet,
            entity_kind,
            key_kind: CAP26KeyKind::TransactionSigning,
            index,
        }),
{
    HierarchicalDeterministicFactorInstance::mainnet_tx(entity_kind, index, factor_source_id)
}

/// An unsecurified account controlled by `factor_source_id` at unsecurified
/// base index `index`.
fn unsecurified_account(name: String, index: u32, factor_source_id: FactorSourceIDFromHash) -> (a: Account)
    requires
        index < 0x4000_0000,
    ensures
        a.address.network_id == NetworkID::Mainnet,
        a.security_state matches EntitySecurityState::Unsecured(fi) && is_sample_instance(
            fi,
            CAP26EntityKind::Account,
            KeySpace::Unsecurified,
            index,
            factor_source_id,
        ),
{
    let fi = sample_instance(
        CAP26EntityKind::Account,
        HDPathComponent::unsecurified_hardening_base_index(index),
        factor_source_id,
    );
    let address = AccountAddress::new(NetworkID::Mainnet, fi.public_key_hash());
    Account::new(name, address, EntitySecurityState::Unsecured(fi), ThirdPartyDepositPreference::AcceptAll)
}

/// The mainnet instances of `entity_kind` at securified base index `index` of
/// `fs2`, `fs6`, `fs7`, `fs8` and `fs9`.
fn five_factor_instances(entity_kind: CAP26EntityKind, index: u32) -> (v: Vec<HierarchicalDeterministicFactorInstance>)
    requires
        index < 0x4000_0000,
    ensures
        is_five_sample(v@, entity_kind, index),
{
    let i = HDPathComponent::securifying_base_index(index);
    vec![
        sample_instance(entity_kind, i, FactorSourceIDFromHash::fs2()),
        sample_instance(entity_kind, i, FactorSourceIDFromHash::fs6()),
        sample_instance(entity_kind, i, FactorSourceIDFromHash::fs7()),
        sample_instance(entity_kind, i, FactorSourceIDFromHash::fs8()),
        sample_instance(entity_kind, i, FactorSourceIDFromHash::fs9()),
    ]
}

impl SecurifiedEntityControl {
    /// The control of a securified account: the mainnet account instances of
    /// `fs2`, `fs6`, `fs7`, `fs8` and `fs9` at securified index 7 with a
    /// threshold of 2, guarded by a controller enforcing that matrix.
    pub fn sample() -> (c: Self)
        ensures
            is_five_sample(c.matrix.threshold_factors@, CAP26EntityKind::Account, 7),
            c.matrix.threshold == 2,
            c.matrix.override_factors@.len() == 0,
            c.access_controller.metadata is Some,
            c.veci is None,
    {
        let factors = five_factor_instances(CAP26EntityKind::Account, 7);
        let address = AccountAddress::new(NetworkID::Mainnet, factors[0].public_key_hash());
        let matrix = MatrixOfFactorInstances::new(factors, 2, Vec::new());
        let access_controller = AccessController::securifying(AddressOfAccountOrPersona::Account(address), &matrix);
        SecurifiedEntityControl::new(matrix, access_controller, None)
    }
}

impl Account {
    /// Unsecurified, controlled by `fs0` at index 0.
    pub fn a0() -> (a: Account)
        ensures
            a.address.network_id == NetworkID::Mainnet,
            a.security_state matches EntitySecurityState::Unsecured(fi) && is_sample_instance(
                fi,
                CAP26EntityKind::Account,
                KeySpace::Unsecurified,
                0,
                FactorSourceIDFromHash { kind: FactorSourceKind::Device, body: 0 },
            ),
    {
        unsecurified_account("Alice".to_string(), 0, FactorSourceIDFromHash::fs0())
    }

    /// Securified, controlled by `fs0` at securified index 2.
    pub fn a2() -> (a: Account)
        ensures
            a.address.network_id == NetworkID::Mainnet,
            a.security_state matches EntitySecurityState::Securified(c) && c.matrix.threshold_factors@.len() == 1
                && is_sample_instance(
                c.matrix.threshold_factors@[0],
                CAP26EntityKind::Account,
                KeySpace::Securified,
                2,
                FactorSourceIDFromHash { kind: FactorSourceKind::Device, body: 0 },
            ) && c.matrix.threshold == 1 && c.matrix.override_factors@.len() == 0 && c.veci is None,
    {
        let fi = sample_instance(
            CAP26EntityKind::Account,
            HDPathComponent::securifying_base_index(2),
            FactorSourceIDFromHash::fs0(),
        );
        let address = AccountAddress::new(NetworkID::Mainnet, fi.public_key_hash());
        let matrix = MatrixOfFactorInstances::new(vec![fi], 1, Vec::new());
        let access_controller = AccessController::securifying(AddressOfAccountOrPersona::Account(address), &matrix);
        let control = SecurifiedEntityControl::new(matrix, access_controller, None);
        Account::new("Carla".to_string(), address, EntitySecurityState::Securified(control), ThirdPartyDepositPreference::AcceptAll)
    }

    /// Securified, controlled by `fs2`, `fs6`, `fs7`, `fs8` and `fs9` at
    /// securified index 7.
    pub fn a7() -> (a: Account)
        ensures
            a.address.network_id == NetworkID::Mainnet,
            is_five_sample_control(a.security_state, CAP26EntityKind::Account),
    {
        let factors = five_factor_instances(CAP26EntityKind::Account, 7);
        let address = AccountAddress::new(NetworkID::Mainnet, factors[0].public_key_hash());
        let matrix = MatrixOfFactorInstances::new(factors, 2, Vec::new());
        let access_controller = AccessController::securifying(AddressOfAccountOrPersona::Account(address), &matrix);
        let control = SecurifiedEntityControl::new(matrix, access_controller, None);
        Account::new("Grace".to_string(), address, EntitySecurityState::Securified(control), ThirdPartyDepositPreference::AcceptAll)
    }

    /// Unsecurified, controlled by `fs10` at index 8.
    pub fn a8() -> (a: Account)
        ensures
            a.address.network_id == NetworkID::Mainnet,
            a.security_state matches EntitySecurityState::Unsecured(fi) && is_sample_instance(
                fi,
                CAP26EntityKind::Account,
                KeySpace::Unsecurified,
                8,
                FactorSourceIDFromHash { kind: FactorSourceKind::Device, body: 10 },
            ),
    {
        unsecurified_account("Klara".to_string(), 8, FactorSourceIDFromHash::fs10())
    }
}

impl Persona {
    /// Unsecurified, controlled by `fs1` at index 1.
    pub fn p1() -> (p: Persona)
        ensures
            p.address.network_id == NetworkID::Mainnet,
            p.security_state matches EntitySecurityState::Unsecured(fi) && is_sample_instance(
                fi,
                CAP26EntityKind::Identity,
                KeySpace::Unsecurified,
                1,
                FactorSourceIDFromHash { kind: FactorSourceKind::Ledger, body: 1 },
            ),
    {
        let fi = sample_instance(
            CAP26EntityKind::Identity,
            HDPathComponent::unsecurified_hardening_base_index(1),
            FactorSourceIDFromHash::fs1(),
        );
        let address = IdentityAddress::new(NetworkID::Mainnet, fi.public_key_hash());
        Persona::new("Batman".to_string(), address, EntitySecurityState::Unsecured(fi))
    }

    /// Securified, controlled by `fs2`, `fs6`, `fs7`, `fs8` and `fs9` at
    /// securified index 7.
    pub fn p7() -> (p: Persona)
        ensures
            p.address.network_id == NetworkID::Mainnet,
            is_five_sample_control(p.security_state, CAP26EntityKind::Identity),
    {
        let factors = five_factor_instances(CAP26EntityKind::Identity, 7);
        let address = IdentityAddress::new(NetworkID::Mainnet, factors[0].public_key_hash());
        let matrix = MatrixOfFactorInstances::new(factors, 2, Vec::new());
        let access_controller = AccessController::securifying(AddressOfAccountOrPersona::Identity(address), &matrix);
        let control = SecurifiedEntityControl::new(matrix, access_controller, None);
        Persona::new("Ziggy".to_string(), address, EntitySecurityState::Securified(control))
    }
}

} // verus!
