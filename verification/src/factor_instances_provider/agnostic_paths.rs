use vstd::prelude::*;
use crate::types::derivation::{CAP26EntityKind, CAP26KeyKind, DerivationPath, HDPathComponent, KeySpace};
use crate::types::error::CommonError;
use crate::types::keys::HierarchicalDeterministicFactorInstance;
use crate::types::network::NetworkID;

verus! {

/// The number of instances the cache is filled up to, per factor source and
/// per index agnostic path.
pub const CACHE_FILLING_QUANTITY: usize = 30;

/// Network agnostic and index agnostic "templates" for derivation paths.
#[derive(Clone, Copy, Debug, PartialEq, Eq, Hash, Structural)]
pub enum DerivationPreset {
    /// Account, unsecurified key space, transaction signing.
    AccountVeci,
    /// Account, securified key space, transaction signing.
    AccountMfa,
    /// Identity, unsecurified key space, transaction signing.
    IdentityVeci,
    /// Identity, securified key space, transaction signing.
    IdentityMfa,
}

pub open spec fn preset_entity_kind(p: DerivationPreset) -> CAP26EntityKind {
    match p {
        DerivationPreset::AccountVeci | DerivationPreset::AccountMfa => CAP26EntityKind::Account,
        DerivationPreset::IdentityVeci | DerivationPreset::IdentityMfa => CAP26EntityKind::Identity,
    }
}

pub open spec fn preset_key_space(p: DerivationPreset) -> KeySpace {
    match p {
        DerivationPreset::AccountVeci | DerivationPreset::IdentityVeci => KeySpace::Unsecurified,
        DerivationPreset::AccountMfa | DerivationPreset::IdentityMfa => KeySpace::Securified,
    }
}

/// The index agnostic path of a preset on a network.
pub open spec fn preset_path(network_id: NetworkID, p: DerivationPreset) -> IndexAgnosticPath {
    IndexAgnosticPath {
        network_id,
        entity_kind: preset_entity_kind(p),
        key_kind: CAP26KeyKind::TransactionSigning,
        key_space: preset_key_space(p),
    }
}

/// The preset an index agnostic path is an instance of, if any.
pub open spec fn spec_preset_of(path: IndexAgnosticPath) -> Option<DerivationPreset> {
    if path.key_kind != CAP26KeyKind::TransactionSigning {
        None
    } else {
        match (path.entity_kind, path.key_space) {
            (CAP26EntityKind::Account, KeySpace::Unsecurified) => Some(DerivationPreset::AccountVeci),
            (CAP26EntityKind::Identity, KeySpace::Unsecurified) => Some(DerivationPreset::IdentityVeci),
            (CAP26EntityKind::Account, KeySpace::Securified) => Some(DerivationPreset::AccountMfa),
            (CAP26EntityKind::Identity, KeySpace::Securified) => Some(DerivationPreset::IdentityMfa),
        }
    }
}

impl DerivationPreset {
    /// Every preset.
    pub fn all() -> (presets: Vec<DerivationPreset>)
        ensures
            presets@ == seq![
                DerivationPreset::AccountVeci,
                DerivationPreset::AccountMfa,
                DerivationPreset::IdentityVeci,
                DerivationPreset::IdentityMfa,
            ],
    {
        vec![
            DerivationPreset::AccountVeci,
            DerivationPreset::AccountMfa,
            DerivationPreset::IdentityVeci,
            DerivationPreset::IdentityMfa,
        ]
    }

    /// This preset as an index agnostic path on `network_id`.
    pub fn index_agnostic_path_on_network(&self, network_id: NetworkID) -> (path: IndexAgnosticPath)
        ensures
            path == preset_path(network_id, *self),
    {
        IndexAgnosticPath::from_network_and_preset(network_id, *self)
    }

    /// The "veci" preset of an entity kind.
    pub fn veci_entity_kind(entity_kind: CAP26EntityKind) -> (p: Self)
        ensures
            preset_entity_kind(p) == entity_kind,
            preset_key_space(p) == KeySpace::Unsecurified,
    {
        match entity_kind {
            CAP26EntityKind::Account => Self::AccountVeci,
            CAP26EntityKind::Identity => Self::IdentityVeci,
        }
    }

    /// The "mfa" preset of an entity kind.
    pub fn mfa_entity_kind(entity_kind: CAP26EntityKind) -> (p: Self)
        ensures
            preset_entity_kind(p) == entity_kind,
            preset_key_space(p) == KeySpace::Securified,
    {
        match entity_kind {
            CAP26EntityKind::Account => Self::AccountMfa,
            CAP26EntityKind::Identity => Self::IdentityMfa,
        }
    }

    pub fn entity_kind(&self) -> (k: CAP26EntityKind)
        ensures
            k == preset_entity_kind(*self),
    {
        match self {
            Self::AccountVeci | Self::AccountMfa => CAP26EntityKind::Account,
            Self::IdentityVeci | Self::IdentityMfa => CAP26EntityKind::Identity,
        }
    }

    pub fn key_kind(&self) -> (k: CAP26KeyKind)
        ensures
            k == CAP26KeyKind::TransactionSigning,
    {
        match self {
            Self::AccountVeci | Self::IdentityVeci => CAP26KeyKind::TransactionSigning,
            Self::AccountMfa | Self::IdentityMfa => CAP26KeyKind::TransactionSigning,
        }
    }

    pub fn key_space(&self) -> (k: KeySpace)
        ensures
            k == preset_key_space(*self),
    {
        match self {
            Self::AccountVeci | Self::IdentityVeci => KeySpace::Unsecurified,
            Self::AccountMfa | Self::IdentityMfa => KeySpace::Securified,
        }
    }

    /// The preset of `value`, or `NonStandardDerivationPath` if the path is
    /// not a transaction signing path.
    pub fn try_from(value: IndexAgnosticPath) -> (r: Result<DerivationPreset, CommonError>)
        ensures
            match spec_preset_of(value) {
                Some(p) => r == Ok::<DerivationPreset, CommonError>(p),
                None => r == Err::<DerivationPreset, CommonError>(CommonError::NonStandardDerivationPath),
            },
    {
        match (value.entity_kind, value.key_kind, value.key_space) {
            (CAP26EntityKind::Account, CAP26KeyKind::TransactionSigning, KeySpace::Unsecurified) => Ok(
                DerivationPreset::AccountVeci,
            ),
            (CAP26EntityKind::Identity, CAP26KeyKind::TransactionSigning, KeySpace::Unsecurified) => Ok(
                DerivationPreset::IdentityVeci,
            ),
            (CAP26EntityKind::Account, CAP26KeyKind::TransactionSigning, KeySpace::Securified) => Ok(
                DerivationPreset::AccountMfa,
            ),
            (CAP26EntityKind::Identity, CAP26KeyKind::TransactionSigning, KeySpace::Securified) => Ok(
                DerivationPreset::IdentityMfa,
            ),
            _ => Err(CommonError::NonStandardDerivationPath),
        }
    }
}

/// A preset on a network turns into its index agnostic path and back into the
/// same preset, and a path that is the path of some preset is the path of the
/// preset it turns back into.
pub proof fn lemma_preset_path_roundtrip(network_id: NetworkID, p: DerivationPreset, path: IndexAgnosticPath)
    ensures
        spec_preset_of(preset_path(network_id, p)) == Some(p),
        spec_preset_of(path) matches Some(q) ==> preset_path(path.network_id, q) == path,
{
}

/// A derivation path without its index, on a specific network.
#[derive(Clone, Copy, Debug, PartialEq, Eq, Hash, Structural)]
pub struct IndexAgnosticPath {
    pub network_id: NetworkID,
    pub entity_kind: CAP26EntityKind,
    pub key_kind: CAP26KeyKind,
    pub key_space: KeySpace,
}

impl IndexAgnosticPath {
    pub fn new(
        network_id: NetworkID,
        entity_kind: CAP26EntityKind,
        key_kind: CAP26KeyKind,
        key_space: KeySpace,
    ) -> (path: Self)
        ensures
            path == (IndexAgnosticPath { network_id, entity_kind, key_kind, key_space }),
    {
        IndexAgnosticPath { network_id, entity_kind, key_kind, key_space }
    }

    /// The path of `preset` on `network_id`.
    pub fn from_network_and_preset(network_id: NetworkID, preset: DerivationPreset) -> (path: Self)
        ensures
            path == preset_path(network_id, preset),
    {
        Self::new(network_id, preset.entity_kind(), preset.key_kind(), preset.key_space())
    }

    /// The derivation path of this path at `index`, which must lie in this
    /// path's key space.
    pub fn with_index(&self, index: HDPathComponent) -> (p: DerivationPath)
        requires
            index.spec_key_space() == self.key_space,
        ensures
            p == (DerivationPath {
                network_id: self.network_id,
                entity_kind: self.entity_kind,
                key_kind: self.key_kind,
                index,
            }),
            spec_agnostic(p) == *self,
    {
        DerivationPath::new(self.network_id, self.entity_kind, self.key_kind, index)
    }
}

/// The index agnostic path of a derivation path.
pub open spec fn spec_agnostic(p: DerivationPath) -> IndexAgnosticPath {
    IndexAgnosticPath {
        network_id: p.network_id,
        entity_kind: p.entity_kind,
        key_kind: p.key_kind,
        key_space: p.index.spec_key_space(),
    }
}

/// The index agnostic path of a factor instance.
pub open spec fn spec_agnostic_path(f: HierarchicalDeterministicFactorInstance) -> IndexAgnosticPath {
    spec_agnostic(f.spec_path())
}

impl DerivationPath {
    pub fn agnostic(&self) -> (path: IndexAgnosticPath)
        ensures
            path == spec_agnostic(*self),
    {
        IndexAgnosticPath {
            network_id: self.network_id,
            entity_kind: self.entity_kind,
            key_kind: self.key_kind,
            key_space: self.key_space(),
        }
    }
}

impl HierarchicalDeterministicFactorInstance {
    pub fn agnostic_path(&self) -> (path: IndexAgnosticPath)
        ensures
            path == spec_agnostic_path(*self),
    {
        self.derivation_path().agnostic()
    }
}

/// How many instances to derive for one path: only to fill the cache, or
/// also some to use directly.
#[derive(Clone, Copy, Debug, PartialEq, Eq)]
pub enum QuantityToCacheToUseDirectly {
    OnlyCacheFilling {
        /// Typically `CACHE_FILLING_QUANTITY`.
        fill_cache: usize,
        /// The instance with the highest index found in the cache, if any.
        instance_with_max_index: Option<HierarchicalDeterministicFactorInstance>,
    },
    /// Derive `remaining + extra_to_fill_cache` instances.
    ToCacheToUseDirectly {
        /// The part of the request the cache did not satisfy.
        remaining: usize,
        /// Typically `CACHE_FILLING_QUANTITY`.
        extra_to_fill_cache: usize,
    },
}

impl QuantityToCacheToUseDirectly {
    pub fn max_index(&self) -> (m: Option<HierarchicalDeterministicFactorInstance>)
        ensures
            m == (match *self {
                QuantityToCacheToUseDirectly::OnlyCacheFilling { instance_with_max_index, .. } => instance_with_max_index,
                QuantityToCacheToUseDirectly::ToCacheToUseDirectly { .. } => None,
            }),
    {
        match self {
            Self::OnlyCacheFilling { fill_cache: _, instance_with_max_index } => *instance_with_max_index,
            Self::ToCacheToUseDirectly { .. } => None,
        }
    }

    pub fn total_quantity_to_derive(&self) -> (n: usize)
        requires
            match *self {
                QuantityToCacheToUseDirectly::ToCacheToUseDirectly { remaining, extra_to_fill_cache } => remaining
                    + extra_to_fill_cache <= usize::MAX,
                _ => true,
            },
        ensures
            n == (match *self {
                QuantityToCacheToUseDirectly::OnlyCacheFilling { fill_cache, .. } => fill_cache as int,
                QuantityToCacheToUseDirectly::ToCacheToUseDirectly { remaining, extra_to_fill_cache } => remaining
                    + extra_to_fill_cache,
            }),
    {
        match self {
            Self::OnlyCacheFilling { fill_cache, .. } => *fill_cache,
            Self::ToCacheToUseDirectly { remaining, extra_to_fill_cache } => *remaining + *extra_to_fill_cache,
        }
    }
}

} // verus!

verus! {

impl crate::types::ordered_map::MapKey for IndexAgnosticPath {
    fn same(&self, other: &Self) -> (b: bool) {
        *self == *other
    }
}

impl crate::types::ordered_map::MapKey for DerivationPreset {
    fn same(&self, other: &Self) -> (b: bool) {
        *self == *other
    }
}

} // verus!
