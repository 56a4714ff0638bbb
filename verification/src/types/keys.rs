use vstd::prelude::*;
use crate::types::derivation::{BIP32_SECURIFIED_HALF, CAP26EntityKind, CAP26KeyKind, DerivationPath, HDPathComponent, HDPathValue, KeySpace};
use crate::types::network::{network_discriminant, NetworkID};

verus! {

/// The kind of a factor source.
#[derive(Clone, Copy, Debug, PartialEq, Eq, Hash, Structural)]
pub enum FactorSourceKind {
    Device,
    Ledger,
    Arculus,
    Yubikey,
    SecurityQuestions,
    OffDeviceMnemonic,
    Passphrase,
}

/// The identifier of a hierarchical deterministic factor source.
#[derive(Clone, Copy, Debug, PartialEq, Eq, Hash, Structural)]
pub struct FactorSourceIDFromHash {
    pub kind: FactorSourceKind,
    pub body: u64,
}

impl FactorSourceIDFromHash {
    pub fn new(kind: FactorSourceKind, body: u64) -> (id: Self)
        ensures
            id == (FactorSourceIDFromHash { kind, body }),
    {
        FactorSourceIDFromHash { kind, body }
    }
}

/// A hierarchical deterministic factor source, known by its identifier.
#[derive(Clone, Copy, Debug, PartialEq, Eq, Hash, Structural)]
pub struct HDFactorSource {
    pub factor_source_id: FactorSourceIDFromHash,
}

impl HDFactorSource {
    pub fn new(factor_source_id: FactorSourceIDFromHash) -> (f: Self)
        ensures
            f.factor_source_id == factor_source_id,
    {
        HDFactorSource { factor_source_id }
    }

    pub fn factor_source_id(&self) -> (id: FactorSourceIDFromHash)
        ensures
            id == self.factor_source_id,
    {
        self.factor_source_id
    }
}

/// A 256 bit public key, as four big endian 64 bit words.
#[derive(Clone, Copy, Debug, PartialEq, Eq, Hash, Structural)]
pub struct PublicKey {
    pub w0: u64,
    pub w1: u64,
    pub w2: u64,
    pub w3: u64,
}

/// The hash of a public key, as four big endian 64 bit words.
#[derive(Clone, Copy, Debug, PartialEq, Eq, Hash, Structural)]
pub struct PublicKeyHash {
    pub w0: u64,
    pub w1: u64,
    pub w2: u64,
    pub w3: u64,
}

/// The SHA-256 digest of `data`, as computed by the `sha2` crate.
pub uninterp spec fn sha256_digest(data: Seq<u8>) -> Seq<u8>;

/// Calls `sha2::Sha256::digest`. Believed: the result is the digest named
/// `sha256_digest` of the input bytes, and it is 32 bytes long (the output
/// size of SHA-256).
#[verifier::external_body]
fn sha256(data: &Vec<u8>) -> (digest: Vec<u8>)
    ensures
        digest@ == sha256_digest(data@),
        digest@.len() == 32,
{
    <sha2::Sha256 as sha2::Digest>::digest(data.as_slice()).to_vec()
}

/// The big endian 64 bit word made of the 8 bytes of `s` from `start`.
pub open spec fn be_word(s: Seq<u8>, start: int) -> u64 {
    ((s[start] as u64) << 56u64) | ((s[start + 1] as u64) << 48u64) | ((s[start + 2] as u64)
        << 40u64) | ((s[start + 3] as u64) << 32u64) | ((s[start + 4] as u64) << 24u64) | ((s[start
        + 5] as u64) << 16u64) | ((s[start + 6] as u64) << 8u64) | (s[start + 7] as u64)
}

/// The 8 big endian bytes of `w`.
pub open spec fn word_bytes(w: u64) -> Seq<u8> {
    seq![
        (w >> 56u64) as u8,
        (w >> 48u64) as u8,
        (w >> 40u64) as u8,
        (w >> 32u64) as u8,
        (w >> 24u64) as u8,
        (w >> 16u64) as u8,
        (w >> 8u64) as u8,
        w as u8,
    ]
}

fn read_word(s: &Vec<u8>, start: usize) -> (w: u64)
    requires
        s@.len() == 32,
        start <= 24,
    ensures
        w == be_word(s@, start as int),
{
    ((s[start] as u64) << 56u64) | ((s[start + 1] as u64) << 48u64) | ((s[start + 2] as u64)
        << 40u64) | ((s[start + 3] as u64) << 32u64) | ((s[start + 4] as u64) << 24u64) | ((s[start
        + 5] as u64) << 16u64) | ((s[start + 6] as u64) << 8u64) | (s[start + 7] as u64)
}

fn push_word(v: &mut Vec<u8>, w: u64)
    ensures
        final(v)@ == old(v)@ + word_bytes(w),
{
    v.push((w >> 56u64) as u8);
    v.push((w >> 48u64) as u8);
    v.push((w >> 40u64) as u8);
    v.push((w >> 32u64) as u8);
    v.push((w >> 24u64) as u8);
    v.push((w >> 16u64) as u8);
    v.push((w >> 8u64) as u8);
    v.push(w as u8);
}

/// The four words made of a 32 byte digest.
pub open spec fn words_of_digest(d: Seq<u8>) -> (u64, u64, u64, u64) {
    (be_word(d, 0), be_word(d, 8), be_word(d, 16), be_word(d, 24))
}

/// The 32 bytes of a public key.
pub open spec fn public_key_bytes(k: PublicKey) -> Seq<u8> {
    word_bytes(k.w0) + word_bytes(k.w1) + word_bytes(k.w2) + word_bytes(k.w3)
}

/// The hash of a public key: SHA-256 of its 32 bytes.
pub open spec fn spec_public_key_hash(k: PublicKey) -> PublicKeyHash {
    let d = sha256_digest(public_key_bytes(k));
    PublicKeyHash { w0: be_word(d, 0), w1: be_word(d, 8), w2: be_word(d, 16), w3: be_word(d, 24) }
}

/// The bytes a mocked public key is hashed from: the factor source id and
/// every part of the derivation path.
pub open spec fn mock_seed(factor_source_id: FactorSourceIDFromHash, path: DerivationPath) -> Seq<
    u8,
> {
    word_bytes(factor_source_id.body) + word_bytes(path.index.spec_base_index() as u64) + seq![
        factor_source_kind_byte(factor_source_id.kind),
        network_discriminant(path.network_id),
        entity_kind_byte(path.entity_kind),
        key_kind_byte(path.key_kind),
        key_space_byte(path.index.spec_key_space()),
    ]
}

/// The mocked public key for a factor source at a derivation path.
pub open spec fn spec_mocked_public_key(
    factor_source_id: FactorSourceIDFromHash,
    path: DerivationPath,
) -> PublicKey {
    let d = sha256_digest(mock_seed(factor_source_id, path));
    PublicKey { w0: be_word(d, 0), w1: be_word(d, 8), w2: be_word(d, 16), w3: be_word(d, 24) }
}

pub open spec fn factor_source_kind_byte(k: FactorSourceKind) -> u8 {
    match k {
        FactorSourceKind::Device => 0u8,
        FactorSourceKind::Ledger => 1u8,
        FactorSourceKind::Arculus => 2u8,
        FactorSourceKind::Yubikey => 3u8,
        FactorSourceKind::SecurityQuestions => 4u8,
        FactorSourceKind::OffDeviceMnemonic => 5u8,
        FactorSourceKind::Passphrase => 6u8,
    }
}

pub open spec fn entity_kind_byte(k: CAP26EntityKind) -> u8 {
    match k {
        CAP26EntityKind::Account => 0u8,
        CAP26EntityKind::Identity => 1u8,
    }
}

pub open spec fn key_kind_byte(k: CAP26KeyKind) -> u8 {
    match k {
        CAP26KeyKind::TransactionSigning => 0u8,
        CAP26KeyKind::AuthenticationSigning => 1u8,
    }
}

pub open spec fn key_space_byte(k: KeySpace) -> u8 {
    match k {
        KeySpace::Unsecurified => 0u8,
        KeySpace::Securified => 1u8,
    }
}

fn kind_byte(k: FactorSourceKind) -> (b: u8)
    ensures
        b == factor_source_kind_byte(k),
{
    match k {
        FactorSourceKind::Device => 0,
        FactorSourceKind::Ledger => 1,
        FactorSourceKind::Arculus => 2,
        FactorSourceKind::Yubikey => 3,
        FactorSourceKind::SecurityQuestions => 4,
        FactorSourceKind::OffDeviceMnemonic => 5,
        FactorSourceKind::Passphrase => 6,
    }
}

fn path_bytes(path: &DerivationPath) -> (b: (u8, u8, u8, u8))
    ensures
        b == (network_discriminant(path.network_id), entity_kind_byte(path.entity_kind),
            key_kind_byte(path.key_kind), key_space_byte(path.index.spec_key_space())),
{
    let e: u8 = match path.entity_kind {
        CAP26EntityKind::Account => 0,
        CAP26EntityKind::Identity => 1,
    };
    let k: u8 = match path.key_kind {
        CAP26KeyKind::TransactionSigning => 0,
        CAP26KeyKind::AuthenticationSigning => 1,
    };
    let s: u8 = match path.index.key_space() {
        KeySpace::Unsecurified => 0,
        KeySpace::Securified => 1,
    };
    (path.network_id.discriminant(), e, k, s)
}

impl PublicKey {
    /// The hash of this public key.
    pub fn hash(&self) -> (h: PublicKeyHash)
        ensures
            h == spec_public_key_hash(*self),
    {
        let mut bytes: Vec<u8> = Vec::new();
        push_word(&mut bytes, self.w0);
        push_word(&mut bytes, self.w1);
        push_word(&mut bytes, self.w2);
        push_word(&mut bytes, self.w3);
        assert(bytes@ =~= public_key_bytes(*self));
        let d = sha256(&bytes);
        PublicKeyHash {
            w0: read_word(&d, 0),
            w1: read_word(&d, 8),
            w2: read_word(&d, 16),
            w3: read_word(&d, 24),
        }
    }

    /// A deterministic stand-in for the public key a factor source would
    /// derive at `path`: SHA-256 of the factor source id and the path.
    pub fn mocked(factor_source_id: FactorSourceIDFromHash, path: DerivationPath) -> (k: PublicKey)
        ensures
            k == spec_mocked_public_key(factor_source_id, path),
    {
        let mut seed: Vec<u8> = Vec::new();
        push_word(&mut seed, factor_source_id.body);
        let base = path.index.base_index();
        push_word(&mut seed, base as u64);
        let (n, e, k, s) = path_bytes(&path);
        seed.push(kind_byte(factor_source_id.kind));
        seed.push(n);
        seed.push(e);
        seed.push(k);
        seed.push(s);
        assert(seed@ =~= mock_seed(factor_source_id, path));
        let d = sha256(&seed);
        PublicKey {
            w0: read_word(&d, 0),
            w1: read_word(&d, 8),
            w2: read_word(&d, 16),
            w3: read_word(&d, 24),
        }
    }
}

/// A public key together with the derivation path it was derived at.
#[derive(Clone, Copy, Debug, PartialEq, Eq, Hash, Structural)]
pub struct HierarchicalDeterministicPublicKey {
    pub public_key: PublicKey,
    pub derivation_path: DerivationPath,
}

impl HierarchicalDeterministicPublicKey {
    pub fn new(public_key: PublicKey, derivation_path: DerivationPath) -> (k: Self)
        ensures
            k == (HierarchicalDeterministicPublicKey { public_key, derivation_path }),
    {
        HierarchicalDeterministicPublicKey { public_key, derivation_path }
    }

    /// The mocked public key of `factor_source_id` at `derivation_path`.
    pub fn mocked_with(derivation_path: DerivationPath, factor_source_id: &FactorSourceIDFromHash) -> (k:
        Self)
        ensures
            k.derivation_path == derivation_path,
            k.public_key == spec_mocked_public_key(*factor_source_id, derivation_path),
    {
        HierarchicalDeterministicPublicKey {
            public_key: PublicKey::mocked(*factor_source_id, derivation_path),
            derivation_path,
        }
    }

    pub fn hash(&self) -> (h: PublicKeyHash)
        ensures
            h == spec_public_key_hash(self.public_key),
    {
        self.public_key.hash()
    }
}

/// A public key of a factor source, derived at a derivation path.
#[derive(Clone, Copy, Debug, PartialEq, Eq, Hash, Structural)]
pub struct HierarchicalDeterministicFactorInstance {
    pub factor_source_id: FactorSourceIDFromHash,
    pub public_key: HierarchicalDeterministicPublicKey,
}

impl HierarchicalDeterministicFactorInstance {
    pub open spec fn spec_path(self) -> DerivationPath {
        self.public_key.derivation_path
    }

    pub fn new(factor_source_id: FactorSourceIDFromHash, public_key: HierarchicalDeterministicPublicKey) -> (f:
        Self)
        ensures
            f == (HierarchicalDeterministicFactorInstance { factor_source_id, public_key }),
    {
        HierarchicalDeterministicFactorInstance { factor_source_id, public_key }
    }

    /// The instance a factor source derives at `path`, with a mocked key.
    pub fn mocked(factor_source_id: FactorSourceIDFromHash, path: DerivationPath) -> (f: Self)
        ensures
            f.factor_source_id == factor_source_id,
            f.spec_path() == path,
            f.public_key.public_key == spec_mocked_public_key(factor_source_id, path),
    {
        HierarchicalDeterministicFactorInstance {
            factor_source_id,
            public_key: HierarchicalDeterministicPublicKey::mocked_with(path, &factor_source_id),
        }
    }

    /// A mocked mainnet transaction signing instance.
    pub fn mainnet_tx(
        entity_kind: CAP26EntityKind,
        index: HDPathComponent,
        factor_source_id: FactorSourceIDFromHash,
    ) -> (f: Self)
        ensures
            f.factor_source_id == factor_source_id,
            f.spec_path() == (DerivationPath {
                network_id: NetworkID::Mainnet,
                entity_kind,
                key_kind: CAP26KeyKind::TransactionSigning,
                index,
            }),
    {
        Self::mocked(
            factor_source_id,
            DerivationPath::new(NetworkID::Mainnet, entity_kind, CAP26KeyKind::TransactionSigning, index),
        )
    }

    pub fn factor_source_id(&self) -> (id: FactorSourceIDFromHash)
        ensures
            id == self.factor_source_id,
    {
        self.factor_source_id
    }

    pub fn derivation_path(&self) -> (p: DerivationPath)
        ensures
            p == self.spec_path(),
    {
        self.public_key.derivation_path
    }

    pub fn key_space(&self) -> (k: KeySpace)
        ensures
            k == self.spec_path().index.spec_key_space(),
    {
        self.public_key.derivation_path.index.key_space()
    }

    pub fn derivation_entity_index(&self) -> (i: HDPathComponent)
        ensures
            i == self.spec_path().index,
    {
        self.public_key.derivation_path.index
    }

    pub fn derivation_entity_base_index(&self) -> (i: HDPathValue)
        ensures
            i == self.spec_path().index.spec_base_index(),
            i < BIP32_SECURIFIED_HALF,
    {
        self.public_key.derivation_path.index.base_index()
    }

    pub fn public_key_hash(&self) -> (h: PublicKeyHash)
        ensures
            h == spec_public_key_hash(self.public_key.public_key),
    {
        self.public_key.hash()
    }
}

} // verus!

verus! {

impl crate::types::ordered_map::MapKey for FactorSourceIDFromHash {
    fn same(&self, other: &Self) -> (b: bool) {
        *self == *other
    }
}

impl crate::types::ordered_map::MapKey for HDFactorSource {
    fn same(&self, other: &Self) -> (b: bool) {
        *self == *other
    }
}

} // verus!
