use vstd::prelude::*;
use crate::factor_instances_provider::agnostic_paths::{IndexAgnosticPath, QuantityToCacheToUseDirectly};
use crate::types::derivation::{CAP26EntityKind, CAP26KeyKind, KeySpace};
use crate::types::network::NetworkID;
use crate::types::ordered_map::{MapKey, OrderedMap};

verus! {

/// A derivation path without network and without index: a "preset".
#[derive(Clone, Copy, Debug, PartialEq, Eq, Hash, Structural)]
pub struct NetworkIndexAgnosticPath {
    pub entity_kind: CAP26EntityKind,
    pub key_kind: CAP26KeyKind,
    pub key_space: KeySpace,
}

impl MapKey for NetworkIndexAgnosticPath {
    fn same(&self, other: &Self) -> (b: bool) {
        *self == *other
    }
}

impl NetworkIndexAgnosticPath {
    pub fn new(entity_kind: CAP26EntityKind, key_kind: CAP26KeyKind, key_space: KeySpace) -> (p: Self)
        ensures
            p == (NetworkIndexAgnosticPath { entity_kind, key_kind, key_space }),
    {
        Self { entity_kind, key_kind, key_space }
    }

    /// A transaction signing preset.
    pub fn transaction_signing(entity_kind: CAP26EntityKind, key_space: KeySpace) -> (p: Self)
        ensures
            p == (NetworkIndexAgnosticPath { entity_kind, key_kind: CAP26KeyKind::TransactionSigning, key_space }),
    {
        Self::new(entity_kind, CAP26KeyKind::TransactionSigning, key_space)
    }

    pub fn account_veci() -> (p: Self)
        ensures
            p == (NetworkIndexAgnosticPath {
                entity_kind: CAP26EntityKind::Account,
                key_kind: CAP26KeyKind::TransactionSigning,
                key_space: KeySpace::Unsecurified,
            }),
    {
        Self::transaction_signing(CAP26EntityKind::Account, KeySpace::Unsecurified)
    }

    pub fn account_mfa() -> (p: Self)
        ensures
            p == (NetworkIndexAgnosticPath {
                entity_kind: CAP26EntityKind::Account,
                key_kind: CAP26KeyKind::TransactionSigning,
                key_space: KeySpace::Securified,
            }),
    {
        Self::transaction_signing(CAP26EntityKind::Account, KeySpace::Securified)
    }

    pub fn identity_veci() -> (p: Self)
        ensures
            p == (NetworkIndexAgnosticPath {
                entity_kind: CAP26EntityKind::Identity,
                key_kind: CAP26KeyKind::TransactionSigning,
                key_space: KeySpace::Unsecurified,
            }),
    {
        Self::transaction_signing(CAP26EntityKind::Identity, KeySpace::Unsecurified)
    }

    pub fn identity_mfa() -> (p: Self)
        ensures
            p == (NetworkIndexAgnosticPath {
                entity_kind: CAP26EntityKind::Identity,
                key_kind: CAP26KeyKind::TransactionSigning,
                key_space: KeySpace::Securified,
            }),
    {
        Self::transaction_signing(CAP26EntityKind::Identity, KeySpace::Securified)
    }

    /// The four presets, each once: account veci, account MFA, identity veci
    /// and identity MFA.
    pub fn all_presets() -> (v: Vec<NetworkIndexAgnosticPath>)
        ensures
            v@ == seq![
                NetworkIndexAgnosticPath::spec_account_veci(),
                NetworkIndexAgnosticPath::spec_account_mfa(),
                NetworkIndexAgnosticPath::spec_identity_veci(),
                NetworkIndexAgnosticPath::spec_identity_mfa(),
            ],
    {
        let v = vec![Self::account_veci(), Self::account_mfa(), Self::identity_veci(), Self::identity_mfa()];
        assert(v@ =~= seq![
            NetworkIndexAgnosticPath::spec_account_veci(),
            NetworkIndexAgnosticPath::spec_account_mfa(),
            NetworkIndexAgnosticPath::spec_identity_veci(),
            NetworkIndexAgnosticPath::spec_identity_mfa(),
        ]);
        v
    }

    pub open spec fn spec_account_veci() -> Self {
        NetworkIndexAgnosticPath {
            entity_kind: CAP26EntityKind::Account,
            key_kind: CAP26KeyKind::TransactionSigning,
            key_space: KeySpace::Unsecurified,
        }
    }

    pub open spec fn spec_account_mfa() -> Self {
        NetworkIndexAgnosticPath {
            entity_kind: CAP26EntityKind::Account,
            key_kind: CAP26KeyKind::TransactionSigning,
            key_space: KeySpace::Securified,
        }
    }

    pub open spec fn spec_identity_veci() -> Self {
        NetworkIndexAgnosticPath {
            entity_kind: CAP26EntityKind::Identity,
            key_kind: CAP26KeyKind::TransactionSigning,
            key_space: KeySpace::Unsecurified,
        }
    }

    pub open spec fn spec_identity_mfa() -> Self {
        NetworkIndexAgnosticPath {
            entity_kind: CAP26EntityKind::Identity,
            key_kind: CAP26KeyKind::TransactionSigning,
            key_space: KeySpace::Securified,
        }
    }

    /// This preset on `network_id`.
    pub fn on_network(&self, network_id: NetworkID) -> (p: IndexAgnosticPath)
        ensures
            p == (IndexAgnosticPath {
                network_id,
                entity_kind: self.entity_kind,
                key_kind: self.key_kind,
                key_space: self.key_space,
            }),
    {
        IndexAgnosticPath::new(network_id, self.entity_kind, self.key_kind, self.key_space)
    }
}

/// A preset together with a quantity of some kind.
#[derive(Clone, Copy, Debug, PartialEq, Eq, Hash)]
pub struct AbstractQuantifiedNetworkIndexAgnosticPath<T> {
    pub agnostic_path: NetworkIndexAgnosticPath,
    pub quantity: T,
}

/// A preset together with a number of instances.
#[derive(Clone, Copy, Debug, PartialEq, Eq, Hash, Structural)]
pub struct QuantifiedNetworkIndexAgnosticPath {
    pub agnostic_path: NetworkIndexAgnosticPath,
    pub quantity: usize,
}

/// A preset together with how many instances to cache and to use directly.
#[derive(Clone, Copy, Debug, PartialEq, Eq)]
pub struct QuantifiedToCacheToUseNetworkIndexAgnosticPath {
    pub agnostic_path: NetworkIndexAgnosticPath,
    pub quantity: QuantityToCacheToUseDirectly,
}

/// A path on a network together with how many instances to cache and to use
/// directly.
#[derive(Clone, Copy, Debug, PartialEq, Eq)]
pub struct QuantifiedToCacheToUseIndexAgnosticPath {
    pub agnostic_path: IndexAgnosticPath,
    pub quantity: QuantityToCacheToUseDirectly,
}

/// Some value per factor source per index agnostic path.
pub struct KeyValue<T> {
    pub values: OrderedMap<crate::types::keys::FactorSourceIDFromHash, OrderedMap<IndexAgnosticPath, T>>,
}

impl<T> KeyValue<T> {
    /// No values.
    pub fn new() -> (kv: Self)
        ensures
            kv.values@ == Seq::<(crate::types::keys::FactorSourceIDFromHash, OrderedMap<IndexAgnosticPath, T>)>::empty(),
    {
        KeyValue { values: OrderedMap::new() }
    }
}

} // verus!
