use vstd::prelude::*;
use crate::types::error::CommonError;
use crate::types::network::NetworkID;

verus! {

/// The raw value of a derivation entity index, without its key space.
pub type HDPathValue = u32;

/// The size of each half of the derivation entity index space (2^30).
pub const BIP32_SECURIFIED_HALF: u32 = 0x4000_0000u32;

/// The kind of entity a derivation path is used for.
#[derive(Clone, Copy, Debug, PartialEq, Eq, Hash, Structural)]
pub enum CAP26EntityKind {
    Account,
    Identity,
}

/// The kind of key a derivation path is used for.
#[derive(Clone, Copy, Debug, PartialEq, Eq, Hash, Structural)]
pub enum CAP26KeyKind {
    TransactionSigning,
    AuthenticationSigning,
}

/// The half of the derivation entity index space an index lives in.
#[derive(Clone, Copy, Debug, PartialEq, Eq, Hash, Structural)]
pub enum KeySpace {
    Unsecurified,
    Securified,
}

impl KeySpace {
    /// Both key spaces, unsecurified first.
    pub fn both() -> (spaces: Vec<KeySpace>)
        ensures
            spaces@ == seq![KeySpace::Unsecurified, KeySpace::Securified],
    {
        vec![KeySpace::Unsecurified, KeySpace::Securified]
    }

    /// A one character indicator of the key space: `'` for unsecurified
    /// (hardened), `^` for securified.
    pub fn indicator(&self) -> (c: char)
        ensures
            c == (if *self == KeySpace::Unsecurified { '\'' } else { '^' }),
    {
        match self {
            KeySpace::Unsecurified => '\'',
            KeySpace::Securified => '^',
        }
    }
}

/// A derivation entity index: a base index below 2^30 in one of the two
/// key spaces.
#[derive(Clone, Copy, Debug, PartialEq, Eq, Hash, Structural)]
pub struct HDPathComponent {
    key_space: KeySpace,
    base_index: HDPathValue,
}

impl HDPathComponent {
    #[verifier::type_invariant]
    spec fn base_index_in_range(self) -> bool {
        self.base_index < BIP32_SECURIFIED_HALF
    }

    /// The key space of this index.
    pub closed spec fn spec_key_space(self) -> KeySpace {
        self.key_space
    }

    /// The base index, within the key space.
    pub closed spec fn spec_base_index(self) -> HDPathValue {
        self.base_index
    }

    /// The position of this index in the whole index space: securified indices
    /// come after all unsecurified ones.
    pub open spec fn spec_value(self) -> int {
        if self.spec_key_space() == KeySpace::Securified {
            BIP32_SECURIFIED_HALF + self.spec_base_index()
        } else {
            self.spec_base_index() as int
        }
    }

    /// Components are equal exactly when key space and base index are.
    pub proof fn lemma_eq_by_fields(a: HDPathComponent, b: HDPathComponent)
        ensures
            (a == b) <==> (a.spec_key_space() == b.spec_key_space() && a.spec_base_index()
                == b.spec_base_index()),
    {
    }

    pub fn new_with_key_space_and_base_index(key_space: KeySpace, base_index: HDPathValue) -> (c:
        Self)
        requires
            base_index < BIP32_SECURIFIED_HALF,
        ensures
            c.spec_key_space() == key_space,
            c.spec_base_index() == base_index,
    {
        HDPathComponent { key_space, base_index }
    }

    /// An index in the unsecurified key space.
    pub fn unsecurified_hardening_base_index(base_index: HDPathValue) -> (c: Self)
        requires
            base_index < BIP32_SECURIFIED_HALF,
        ensures
            c.spec_key_space() == KeySpace::Unsecurified,
            c.spec_base_index() == base_index,
    {
        Self::new_with_key_space_and_base_index(KeySpace::Unsecurified, base_index)
    }

    /// An index in the unsecurified key space.
    pub fn unsecurified(base_index: HDPathValue) -> (c: Self)
        requires
            base_index < BIP32_SECURIFIED_HALF,
        ensures
            c.spec_key_space() == KeySpace::Unsecurified,
            c.spec_base_index() == base_index,
    {
        Self::unsecurified_hardening_base_index(base_index)
    }

    /// An index in the securified key space.
    pub fn securifying_base_index(base_index: HDPathValue) -> (c: Self)
        requires
            base_index < BIP32_SECURIFIED_HALF,
        ensures
            c.spec_key_space() == KeySpace::Securified,
            c.spec_base_index() == base_index,
    {
        Self::new_with_key_space_and_base_index(KeySpace::Securified, base_index)
    }

    pub fn key_space(&self) -> (k: KeySpace)
        ensures
            k == self.spec_key_space(),
    {
        self.key_space
    }

    pub fn base_index(&self) -> (i: HDPathValue)
        ensures
            i == self.spec_base_index(),
            i < BIP32_SECURIFIED_HALF,
    {
        proof {
            use_type_invariant(self);
        }
        self.base_index
    }

    /// The position of this index in the whole index space.
    pub fn value(&self) -> (v: u32)
        ensures
            v == self.spec_value(),
    {
        proof {
            use_type_invariant(self);
        }
        match self.key_space {
            KeySpace::Securified => BIP32_SECURIFIED_HALF + self.base_index,
            KeySpace::Unsecurified => self.base_index,
        }
    }

    /// The index `n` steps further in the same key space, or
    /// `IndexOverflow` if that leaves the key space.
    pub fn add_n(&self, n: HDPathValue) -> (r: Result<Self, CommonError>)
        ensures
            self.spec_base_index() + n < BIP32_SECURIFIED_HALF ==> (r matches Ok(c) && c.spec_key_space()
                == self.spec_key_space() && c.spec_base_index() == self.spec_base_index() + n),
            self.spec_base_index() + n >= BIP32_SECURIFIED_HALF ==> r == Err::<HDPathComponent, CommonError>(
                CommonError::IndexOverflow,
            ),
    {
        proof {
            use_type_invariant(self);
        }
        if n >= BIP32_SECURIFIED_HALF - self.base_index {
            Err(CommonError::IndexOverflow)
        } else {
            Ok(HDPathComponent { key_space: self.key_space, base_index: self.base_index + n })
        }
    }

    /// The next index in the same key space, or `IndexOverflow`.
    pub fn add_one(&self) -> (r: Result<Self, CommonError>)
        ensures
            self.spec_base_index() + 1 < BIP32_SECURIFIED_HALF ==> (r matches Ok(c) && c.spec_key_space()
                == self.spec_key_space() && c.spec_base_index() == self.spec_base_index() + 1),
            self.spec_base_index() + 1 >= BIP32_SECURIFIED_HALF ==> r == Err::<HDPathComponent, CommonError>(
                CommonError::IndexOverflow,
            ),
    {
        self.add_n(1)
    }

    /// The larger of two indices by their position in the index space.
    pub fn max_of(a: Self, b: Self) -> (m: Self)
        ensures
            m == (if a.spec_value() >= b.spec_value() { a } else { b }),
    {
        if a.value() >= b.value() {
            a
        } else {
            b
        }
    }
}

/// A full derivation path: network, entity kind, key kind and index.
#[derive(Clone, Copy, Debug, PartialEq, Eq, Hash, Structural)]
pub struct DerivationPath {
    pub network_id: NetworkID,
    pub entity_kind: CAP26EntityKind,
    pub key_kind: CAP26KeyKind,
    pub index: HDPathComponent,
}

impl DerivationPath {
    pub fn new(
        network_id: NetworkID,
        entity_kind: CAP26EntityKind,
        key_kind: CAP26KeyKind,
        index: HDPathComponent,
    ) -> (p: Self)
        ensures
            p == (DerivationPath { network_id, entity_kind, key_kind, index }),
    {
        DerivationPath { network_id, entity_kind, key_kind, index }
    }

    /// A transaction signing path for an account.
    pub fn account_tx(network_id: NetworkID, index: HDPathComponent) -> (p: Self)
        ensures
            p == (DerivationPath {
                network_id,
                entity_kind: CAP26EntityKind::Account,
                key_kind: CAP26KeyKind::TransactionSigning,
                index,
            }),
    {
        Self::new(network_id, CAP26EntityKind::Account, CAP26KeyKind::TransactionSigning, index)
    }

    pub fn key_space(&self) -> (k: KeySpace)
        ensures
            k == self.index.spec_key_space(),
    {
        self.index.key_space()
    }
}

} // verus!
