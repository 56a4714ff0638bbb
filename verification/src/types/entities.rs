use vstd::prelude::*;
use crate::types::derivation::{CAP26EntityKind, CAP26KeyKind, HDPathComponent, KeySpace};
use crate::types::keys::{
    spec_public_key_hash, HDFactorSource, HierarchicalDeterministicFactorInstance, PublicKeyHash,
};
use crate::types::network::NetworkID;

verus! {

/// The address of an account: its network and the hash of the public key
/// that created it.
#[derive(Clone, Copy, Debug, PartialEq, Eq, Hash, Structural)]
pub struct AccountAddress {
    pub network_id: NetworkID,
    pub public_key_hash: PublicKeyHash,
}

impl AccountAddress {
    pub fn new(network_id: NetworkID, public_key_hash: PublicKeyHash) -> (a: Self)
        ensures
            a == (AccountAddress { network_id, public_key_hash }),
    {
        AccountAddress { network_id, public_key_hash }
    }
}

/// The address of a persona (identity).
#[derive(Clone, Copy, Debug, PartialEq, Eq, Hash, Structural)]
pub struct IdentityAddress {
    pub network_id: NetworkID,
    pub public_key_hash: PublicKeyHash,
}

impl IdentityAddress {
    pub fn new(network_id: NetworkID, public_key_hash: PublicKeyHash) -> (a: Self)
        ensures
            a == (IdentityAddress { network_id, public_key_hash }),
    {
        IdentityAddress { network_id, public_key_hash }
    }
}

/// The address of an account or of a persona.
#[derive(Clone, Copy, Debug, PartialEq, Eq, Hash, Structural)]
pub enum AddressOfAccountOrPersona {
    Account(AccountAddress),
    Identity(IdentityAddress),
}

/// The address that the instance `fi` creates for an entity of `entity_kind`
/// on `network_id`.
pub open spec fn spec_address_of(
    fi: HierarchicalDeterministicFactorInstance,
    network_id: NetworkID,
    entity_kind: CAP26EntityKind,
) -> AddressOfAccountOrPersona {
    let h = spec_public_key_hash(fi.public_key.public_key);
    match entity_kind {
        CAP26EntityKind::Account => AddressOfAccountOrPersona::Account(
            AccountAddress { network_id, public_key_hash: h },
        ),
        CAP26EntityKind::Identity => AddressOfAccountOrPersona::Identity(
            IdentityAddress { network_id, public_key_hash: h },
        ),
    }
}

impl AddressOfAccountOrPersona {
    /// The address that `factor_instance` creates for an entity of
    /// `entity_kind` on `network_id`.
    pub fn new(
        factor_instance: HierarchicalDeterministicFactorInstance,
        network_id: NetworkID,
        entity_kind: CAP26EntityKind,
    ) -> (a: Self)
        ensures
            a == spec_address_of(factor_instance, network_id, entity_kind),
    {
        let h = factor_instance.public_key_hash();
        match entity_kind {
            CAP26EntityKind::Account => AddressOfAccountOrPersona::Account(
                AccountAddress::new(network_id, h),
            ),
            CAP26EntityKind::Identity => AddressOfAccountOrPersona::Identity(
                IdentityAddress::new(network_id, h),
            ),
        }
    }

    pub open spec fn spec_network_id(self) -> NetworkID {
        match self {
            AddressOfAccountOrPersona::Account(a) => a.network_id,
            AddressOfAccountOrPersona::Identity(i) => i.network_id,
        }
    }

    pub open spec fn spec_entity_kind(self) -> CAP26EntityKind {
        match self {
            AddressOfAccountOrPersona::Account(_) => CAP26EntityKind::Account,
            AddressOfAccountOrPersona::Identity(_) => CAP26EntityKind::Identity,
        }
    }

    pub fn network_id(&self) -> (n: NetworkID)
        ensures
            n == self.spec_network_id(),
    {
        match self {
            AddressOfAccountOrPersona::Account(a) => a.network_id,
            AddressOfAccountOrPersona::Identity(i) => i.network_id,
        }
    }

    pub fn entity_kind(&self) -> (k: CAP26EntityKind)
        ensures
            k == self.spec_entity_kind(),
    {
        match self {
            AddressOfAccountOrPersona::Account(_) => CAP26EntityKind::Account,
            AddressOfAccountOrPersona::Identity(_) => CAP26EntityKind::Identity,
        }
    }

    /// The hash of the public key that created the entity.
    pub open spec fn spec_key_hash(self) -> PublicKeyHash {
        match self {
            AddressOfAccountOrPersona::Account(a) => a.public_key_hash,
            AddressOfAccountOrPersona::Identity(i) => i.public_key_hash,
        }
    }

    /// The hash of the public key that created the entity.
    pub fn public_key_hash(&self) -> (h: PublicKeyHash)
        ensures
            h == self.spec_key_hash(),
    {
        match self {
            AddressOfAccountOrPersona::Account(a) => a.public_key_hash,
            AddressOfAccountOrPersona::Identity(i) => i.public_key_hash,
        }
    }
}

/// The hash of the public key of `f`.
pub open spec fn instance_hash(f: HierarchicalDeterministicFactorInstance) -> PublicKeyHash {
    spec_public_key_hash(f.public_key.public_key)
}

/// The hashes of the public keys of `s`, in order.
pub open spec fn hashes_of(s: Seq<HierarchicalDeterministicFactorInstance>) -> Seq<PublicKeyHash> {
    s.map_values(|f: HierarchicalDeterministicFactorInstance| instance_hash(f))
}

/// The hashes of the public keys of `v`, in order.
fn hash_all(v: &Vec<HierarchicalDeterministicFactorInstance>) -> (r: Vec<PublicKeyHash>)
    ensures
        r@ == hashes_of(v@),
{
    let mut r: Vec<PublicKeyHash> = Vec::new();
    let mut i: usize = 0;
    while i < v.len()
        invariant
            i <= v@.len(),
            r@ == hashes_of(v@.take(i as int)),
        decreases v@.len() - i,
    {
        r.push(v[i].public_key_hash());
        i = i + 1;
        assert(r@ =~= hashes_of(v@.take(i as int)));
    }
    assert(v@.take(i as int) =~= v@);
    r
}

/// The rules an access controller enforces: the public key hashes of the
/// factor instances of a matrix, by role, and its threshold.
#[derive(Debug, PartialEq, Eq, Hash)]
pub struct ScryptoAccessRule {
    pub threshold_factors: Vec<PublicKeyHash>,
    pub threshold: u8,
    pub override_factors: Vec<PublicKeyHash>,
}

impl ScryptoAccessRule {
    /// The rules of `matrix`: the hashes of its instances, role by role.
    pub fn from_matrix(matrix: &MatrixOfFactorInstances) -> (r: Self)
        ensures
            r.threshold_factors@ == hashes_of(matrix.threshold_factors@),
            r.threshold == matrix.threshold,
            r.override_factors@ == hashes_of(matrix.override_factors@),
    {
        ScryptoAccessRule {
            threshold_factors: hash_all(&matrix.threshold_factors),
            threshold: matrix.threshold,
            override_factors: hash_all(&matrix.override_factors),
        }
    }
}

/// What a gateway tells of an access controller besides its entity.
#[derive(Debug, PartialEq, Eq, Hash)]
pub struct AccessControllerMetadata {
    pub scrypto_access_rules: ScryptoAccessRule,
}

/// The on-ledger access controller that guards a securified entity.
#[derive(Debug, PartialEq, Eq, Hash)]
pub struct AccessController {
    /// The address of the entity this controller was created for.
    pub controlled_entity: AddressOfAccountOrPersona,
    /// The rules it enforces, where known.
    pub metadata: Option<AccessControllerMetadata>,
}

/// The rules of an access controller as values: the threshold hashes, the
/// threshold and the override hashes.
pub type ScryptoAccessRuleView = (Seq<PublicKeyHash>, u8, Seq<PublicKeyHash>);

/// An access controller as values: its entity and its rules, where known.
pub type AccessControllerView = (AddressOfAccountOrPersona, Option<ScryptoAccessRuleView>);

impl View for ScryptoAccessRule {
    type V = ScryptoAccessRuleView;

    open spec fn view(&self) -> ScryptoAccessRuleView {
        (self.threshold_factors@, self.threshold, self.override_factors@)
    }
}

impl View for AccessController {
    type V = AccessControllerView;

    open spec fn view(&self) -> AccessControllerView {
        (
            self.controlled_entity,
            match self.metadata {
                Some(m) => Some(m.scrypto_access_rules@),
                None => None,
            },
        )
    }
}

impl Clone for ScryptoAccessRule {
    fn clone(&self) -> (r: Self)
        ensures
            r@ == self@,
    {
        let r = ScryptoAccessRule {
            threshold_factors: self.threshold_factors.clone(),
            threshold: self.threshold,
            override_factors: self.override_factors.clone(),
        };
        assert(r.threshold_factors@ =~= self.threshold_factors@);
        assert(r.override_factors@ =~= self.override_factors@);
        r
    }
}

impl Clone for AccessControllerMetadata {
    fn clone(&self) -> (r: Self)
        ensures
            r.scrypto_access_rules@ == self.scrypto_access_rules@,
    {
        AccessControllerMetadata { scrypto_access_rules: self.scrypto_access_rules.clone() }
    }
}

impl Clone for AccessController {
    fn clone(&self) -> (r: Self)
        ensures
            r@ == self@,
    {
        let metadata = match &self.metadata {
            Some(m) => Some(m.clone()),
            None => None,
        };
        AccessController { controlled_entity: self.controlled_entity, metadata }
    }
}

impl AccessController {
    /// The access controller created when securifying the entity at
    /// `address`, its rules not known yet.
    pub fn from_unsecurified_address(address: AddressOfAccountOrPersona) -> (c: Self)
        ensures
            c.controlled_entity == address,
            c.metadata is None,
    {
        AccessController { controlled_entity: address, metadata: None }
    }

    /// The access controller of the entity at `address` that enforces the
    /// rules of `matrix`.
    pub fn securifying(address: AddressOfAccountOrPersona, matrix: &MatrixOfFactorInstances) -> (c: Self)
        ensures
            c.controlled_entity == address,
            c.metadata matches Some(m) && m.scrypto_access_rules.threshold_factors@ == hashes_of(matrix.threshold_factors@)
                && m.scrypto_access_rules.threshold == matrix.threshold
                && m.scrypto_access_rules.override_factors@ == hashes_of(matrix.override_factors@),
    {
        AccessController {
            controlled_entity: address,
            metadata: Some(AccessControllerMetadata { scrypto_access_rules: ScryptoAccessRule::from_matrix(matrix) }),
        }
    }

    /// This controller enforcing the rules of `matrix`.
    pub fn with_rules_of(&self, matrix: &MatrixOfFactorInstances) -> (c: Self)
        ensures
            c.controlled_entity == self.controlled_entity,
            c.metadata matches Some(m) && m.scrypto_access_rules.threshold_factors@ == hashes_of(matrix.threshold_factors@)
                && m.scrypto_access_rules.threshold == matrix.threshold
                && m.scrypto_access_rules.override_factors@ == hashes_of(matrix.override_factors@),
    {
        Self::securifying(self.controlled_entity, matrix)
    }
}

/// The factor instance that created a virtual entity, with the address it
/// created.
#[derive(Clone, Copy, Debug, PartialEq, Eq, Hash, Structural)]
pub struct VirtualEntityCreatingFactorInstance {
    /// The address of the entity that `factor_instance` has created.
    pub address: AddressOfAccountOrPersona,
    pub factor_instance: HierarchicalDeterministicFactorInstance,
}

impl VirtualEntityCreatingFactorInstance {
    /// Pairs an address with the instance that created it; the address must
    /// be the one the instance creates.
    pub fn new(
        address: AddressOfAccountOrPersona,
        factor_instance: HierarchicalDeterministicFactorInstance,
    ) -> (v: Self)
        requires
            address == spec_address_of(
                factor_instance,
                address.spec_network_id(),
                address.spec_entity_kind(),
            ),
        ensures
            v.address == address,
            v.factor_instance == factor_instance,
    {
        VirtualEntityCreatingFactorInstance { address, factor_instance }
    }

    pub fn factor_instance(&self) -> (f: HierarchicalDeterministicFactorInstance)
        ensures
            f == self.factor_instance,
    {
        self.factor_instance
    }
}

/// The factor instances of a securified entity, by role.
#[derive(Clone, Debug, PartialEq, Eq, Hash)]
pub struct MatrixOfFactorInstances {
    pub threshold_factors: Vec<HierarchicalDeterministicFactorInstance>,
    pub threshold: u8,
    pub override_factors: Vec<HierarchicalDeterministicFactorInstance>,
}

impl MatrixOfFactorInstances {
    pub fn new(
        threshold_factors: Vec<HierarchicalDeterministicFactorInstance>,
        threshold: u8,
        override_factors: Vec<HierarchicalDeterministicFactorInstance>,
    ) -> (m: Self)
        ensures
            m.threshold_factors@ == threshold_factors@,
            m.threshold == threshold,
            m.override_factors@ == override_factors@,
    {
        MatrixOfFactorInstances { threshold_factors, threshold, override_factors }
    }

    /// Every factor instance of the matrix, threshold factors first.
    pub open spec fn spec_all_factors(&self) -> Seq<HierarchicalDeterministicFactorInstance> {
        self.threshold_factors@ + self.override_factors@
    }

    /// Every factor instance of the matrix, threshold factors first.
    pub fn all_factors(&self) -> (v: Vec<HierarchicalDeterministicFactorInstance>)
        ensures
            v@ == self.spec_all_factors(),
    {
        let mut v: Vec<HierarchicalDeterministicFactorInstance> = Vec::new();
        let mut i: usize = 0;
        while i < self.threshold_factors.len()
            invariant
                i <= self.threshold_factors.len(),
                v@ == self.threshold_factors@.take(i as int),
            decreases self.threshold_factors.len() - i,
        {
            v.push(self.threshold_factors[i]);
            i = i + 1;
            assert(v@ =~= self.threshold_factors@.take(i as int));
        }
        let mut j: usize = 0;
        while j < self.override_factors.len()
            invariant
                j <= self.override_factors.len(),
                v@ == self.threshold_factors@ + self.override_factors@.take(j as int),
            decreases self.override_factors.len() - j,
        {
            v.push(self.override_factors[j]);
            j = j + 1;
            assert(v@ =~= self.threshold_factors@ + self.override_factors@.take(j as int));
        }
        assert(self.override_factors@.take(j as int) =~= self.override_factors@);
        v
    }
}

/// How a securified entity is controlled: its matrix, its access
/// controller, and the instance that once created it, if known.
#[derive(Clone, Debug, PartialEq, Eq, Hash)]
pub struct SecurifiedEntityControl {
    pub matrix: MatrixOfFactorInstances,
    pub access_controller: AccessController,
    pub veci: Option<VirtualEntityCreatingFactorInstance>,
}

impl SecurifiedEntityControl {
    pub fn new(
        matrix: MatrixOfFactorInstances,
        access_controller: AccessController,
        veci: Option<VirtualEntityCreatingFactorInstance>,
    ) -> (c: Self)
        ensures
            c.matrix == matrix,
            c.access_controller == access_controller,
            c.veci == veci,
    {
        SecurifiedEntityControl { matrix, access_controller, veci }
    }

    pub fn veci(&self) -> (v: Option<VirtualEntityCreatingFactorInstance>)
        ensures
            v == self.veci,
    {
        self.veci
    }
}

/// Whether an entity is controlled by a single factor instance or by a
/// matrix of them.
#[derive(Clone, Debug, PartialEq, Eq, Hash)]
pub enum EntitySecurityState {
    Unsecured(HierarchicalDeterministicFactorInstance),
    Securified(SecurifiedEntityControl),
}

/// Which third party deposits an account accepts.
#[derive(Clone, Copy, Debug, PartialEq, Eq, Hash, Structural)]
pub enum ThirdPartyDepositPreference {
    AcceptAll,
    AcceptKnown,
    DenyAll,
}

impl Default for ThirdPartyDepositPreference {
    fn default() -> (p: Self)
        ensures
            p == ThirdPartyDepositPreference::AcceptAll,
    {
        ThirdPartyDepositPreference::AcceptAll
    }
}

/// An account of a profile.
#[derive(Clone, Debug, PartialEq, Eq, Hash)]
pub struct Account {
    pub name: String,
    pub address: AccountAddress,
    pub security_state: EntitySecurityState,
    pub third_party_deposit: ThirdPartyDepositPreference,
}

impl Account {
    pub fn new(
        name: String,
        address: AccountAddress,
        security_state: EntitySecurityState,
        third_party_deposit: ThirdPartyDepositPreference,
    ) -> (a: Self)
        ensures
            a.name@ == name@,
            a.address == address,
            a.security_state == security_state,
            a.third_party_deposit == third_party_deposit,
    {
        Account { name, address, security_state, third_party_deposit }
    }

    pub fn entity_address(&self) -> (a: AccountAddress)
        ensures
            a == self.address,
    {
        self.address
    }
}

/// A persona of a profile.
#[derive(Clone, Debug, PartialEq, Eq, Hash)]
pub struct Persona {
    pub name: String,
    pub address: IdentityAddress,
    pub security_state: EntitySecurityState,
}

impl Persona {
    pub fn new(name: String, address: IdentityAddress, security_state: EntitySecurityState) -> (p:
        Self)
        ensures
            p.name@ == name@,
            p.address == address,
            p.security_state == security_state,
    {
        Persona { name, address, security_state }
    }

    pub fn entity_address(&self) -> (a: IdentityAddress)
        ensures
            a == self.address,
    {
        self.address
    }
}

/// The factor sources of a security shield, by role, and its threshold.
#[derive(Clone, Debug, PartialEq, Eq, Hash)]
pub struct MatrixOfFactorSources {
    pub threshold_factors: Vec<HDFactorSource>,
    pub threshold: u8,
    pub override_factors: Vec<HDFactorSource>,
}

impl MatrixOfFactorSources {
    pub fn new(threshold_factors: Vec<HDFactorSource>, threshold: u8, override_factors: Vec<HDFactorSource>) -> (m: Self)
        ensures
            m.threshold_factors@ == threshold_factors@,
            m.threshold == threshold,
            m.override_factors@ == override_factors@,
    {
        MatrixOfFactorSources { threshold_factors, threshold, override_factors }
    }

    /// Every factor source of the matrix, each once, threshold factors first.
    pub open spec fn spec_all_factors(&self) -> Seq<HDFactorSource> {
        crate::types::factor_instances::append_new(Seq::<HDFactorSource>::empty(), self.threshold_factors@ + self.override_factors@)
    }

    /// Every factor source of the matrix, each once, threshold factors first.
    pub fn all_factors(&self) -> (v: Vec<HDFactorSource>)
        ensures
            v@ == self.spec_all_factors(),
    {
        let ghost t = self.threshold_factors@;
        let ghost o = self.override_factors@;
        let mut v: Vec<HDFactorSource> = Vec::new();
        let mut i: usize = 0;
        while i < self.threshold_factors.len()
            invariant
                t == self.threshold_factors@,
                i <= t.len(),
                v@ == crate::types::factor_instances::append_new(Seq::<HDFactorSource>::empty(), t.take(i as int)),
            decreases t.len() - i,
        {
            let f = self.threshold_factors[i];
            proof {
                assert(t.take(i + 1).drop_last() =~= t.take(i as int));
                assert(t.take(i + 1).last() == f);
            }
            push_new_factor_source(&mut v, f);
            i = i + 1;
        }
        assert(t.take(i as int) =~= t);
        let mut j: usize = 0;
        while j < self.override_factors.len()
            invariant
                t == self.threshold_factors@,
                o == self.override_factors@,
                j <= o.len(),
                v@ == crate::types::factor_instances::append_new(Seq::<HDFactorSource>::empty(), t + o.take(j as int)),
            decreases o.len() - j,
        {
            let f = self.override_factors[j];
            proof {
                assert((t + o.take(j + 1)).drop_last() =~= t + o.take(j as int));
                assert((t + o.take(j + 1)).last() == f);
            }
            push_new_factor_source(&mut v, f);
            j = j + 1;
        }
        assert(t + o.take(j as int) =~= t + o);
        if j == 0 {
            assert(t + o.take(0) =~= t);
        }
        v
    }
}

/// Appends `f` to `v` unless `v` holds it.
fn push_new_factor_source(v: &mut Vec<HDFactorSource>, f: HDFactorSource)
    ensures
        final(v)@ == (if old(v)@.contains(f) { old(v)@ } else { old(v)@.push(f) }),
{
    let mut j: usize = 0;
    while j < v.len()
        invariant
            j <= v@.len(),
            forall|l: int| 0 <= l < j ==> v@[l] != f,
        decreases v@.len() - j,
    {
        if v[j] == f {
            return;
        }
        j = j + 1;
    }
    v.push(f);
}

/// An entity of a profile, an account or a persona, as recovery builds it.
pub trait IsEntity: Sized {
    /// The kind of entity.
    spec fn spec_kind() -> CAP26EntityKind;

    /// The address of the entity.
    spec fn spec_address(&self) -> AddressOfAccountOrPersona;

    /// How the entity is controlled.
    spec fn spec_security_state(&self) -> EntitySecurityState;

    /// The display name of the entity.
    spec fn spec_name(&self) -> Seq<char>;

    /// The kind of entity.
    fn kind() -> (k: CAP26EntityKind)
        ensures
            k == Self::spec_kind(),
    ;

    /// The entity named `name` at `address`, which is of this kind,
    /// controlled as `security_state` says.
    fn new(name: String, address: AddressOfAccountOrPersona, security_state: EntitySecurityState) -> (e: Self)
        requires
            address.spec_entity_kind() == Self::spec_kind(),
        ensures
            e.spec_address() == address,
            e.spec_security_state() == security_state,
            e.spec_name() == name@,
    ;
}

impl IsEntity for Account {
    open spec fn spec_kind() -> CAP26EntityKind {
        CAP26EntityKind::Account
    }

    open spec fn spec_address(&self) -> AddressOfAccountOrPersona {
        AddressOfAccountOrPersona::Account(self.address)
    }

    open spec fn spec_security_state(&self) -> EntitySecurityState {
        self.security_state
    }

    open spec fn spec_name(&self) -> Seq<char> {
        self.name@
    }

    fn kind() -> (k: CAP26EntityKind) {
        CAP26EntityKind::Account
    }

    /// An account accepting all third party deposits.
    fn new(name: String, address: AddressOfAccountOrPersona, security_state: EntitySecurityState) -> (e: Self) {
        let address = match address {
            AddressOfAccountOrPersona::Account(a) => a,
            AddressOfAccountOrPersona::Identity(i) => {
                proof {
                    assert(false);
                }
                AccountAddress::new(i.network_id, i.public_key_hash)
            },
        };
        Account::new(name, address, security_state, ThirdPartyDepositPreference::AcceptAll)
    }
}

impl IsEntity for Persona {
    open spec fn spec_kind() -> CAP26EntityKind {
        CAP26EntityKind::Identity
    }

    open spec fn spec_address(&self) -> AddressOfAccountOrPersona {
        AddressOfAccountOrPersona::Identity(self.address)
    }

    open spec fn spec_security_state(&self) -> EntitySecurityState {
        self.security_state
    }

    open spec fn spec_name(&self) -> Seq<char> {
        self.name@
    }

    fn kind() -> (k: CAP26EntityKind) {
        CAP26EntityKind::Identity
    }

    fn new(name: String, address: AddressOfAccountOrPersona, security_state: EntitySecurityState) -> (e: Self) {
        let address = match address {
            AddressOfAccountOrPersona::Identity(i) => i,
            AddressOfAccountOrPersona::Account(a) => {
                proof {
                    assert(false);
                }
                IdentityAddress::new(a.network_id, a.public_key_hash)
            },
        };
        Persona::new(name, address, security_state)
    }
}

/// An entity as the profile analysis sees it: its network and how it is
/// controlled.
pub type EntityEntry = (NetworkID, EntitySecurityState);

/// Which factor instances of an entity an analysis reads.
#[derive(Clone, Copy, Debug, PartialEq, Eq, Structural)]
pub enum EntityFacet {
    /// The instance of an unsecurified entity.
    UnsecurifiedVeci,
    /// The instance that once created a securified entity, if known.
    SecurifiedVeci,
    /// Every instance of the matrix of a securified entity.
    SecurifiedMatrix,
}

/// The instances of `facet` of one entity, if it is on `network_id`.
pub open spec fn facet_of(e: EntityEntry, facet: EntityFacet, network_id: NetworkID) -> Seq<
    HierarchicalDeterministicFactorInstance,
> {
    if e.0 != network_id {
        Seq::empty()
    } else {
        match (facet, e.1) {
            (EntityFacet::UnsecurifiedVeci, EntitySecurityState::Unsecured(fi)) => seq![fi],
            (EntityFacet::SecurifiedVeci, EntitySecurityState::Securified(c)) => match c.veci {
                Some(v) => seq![v.factor_instance],
                None => Seq::empty(),
            },
            (EntityFacet::SecurifiedMatrix, EntitySecurityState::Securified(c)) => c.matrix.spec_all_factors(),
            _ => Seq::empty(),
        }
    }
}

/// The instances of `facet` of every entity of `entries` on `network_id`, in
/// order.
pub open spec fn facets_on(entries: Seq<EntityEntry>, facet: EntityFacet, network_id: NetworkID) -> Seq<
    HierarchicalDeterministicFactorInstance,
>
    decreases entries.len(),
{
    if entries.len() == 0 {
        Seq::empty()
    } else {
        facets_on(entries.drop_last(), facet, network_id) + facet_of(entries.last(), facet, network_id)
    }
}

pub open spec fn account_entries(accounts: Seq<Account>) -> Seq<EntityEntry> {
    accounts.map_values(|a: Account| (a.address.network_id, a.security_state))
}

pub open spec fn persona_entries(personas: Seq<Persona>) -> Seq<EntityEntry> {
    personas.map_values(|p: Persona| (p.address.network_id, p.security_state))
}

/// The instances of `facet` of an entity on `entity_network`.
fn facet_instances(
    state: &EntitySecurityState,
    entity_network: NetworkID,
    facet: EntityFacet,
    network_id: NetworkID,
) -> (v: Vec<HierarchicalDeterministicFactorInstance>)
    ensures
        v@ == facet_of((entity_network, *state), facet, network_id),
{
    if entity_network != network_id {
        return Vec::new();
    }
    match (facet, state) {
        (EntityFacet::UnsecurifiedVeci, EntitySecurityState::Unsecured(fi)) => {
            let v = vec![*fi];
            assert(v@ =~= seq![*fi]);
            v
        },
        (EntityFacet::SecurifiedVeci, EntitySecurityState::Securified(c)) => match &c.veci {
            Some(veci) => {
                let v = vec![veci.factor_instance];
                assert(v@ =~= seq![veci.factor_instance]);
                v
            },
            None => Vec::new(),
        },
        (EntityFacet::SecurifiedMatrix, EntitySecurityState::Securified(c)) => c.matrix.all_factors(),
        _ => Vec::new(),
    }
}

/// Appends the elements of `more` to `v`.
fn append_instances(
    v: &mut Vec<HierarchicalDeterministicFactorInstance>,
    more: &Vec<HierarchicalDeterministicFactorInstance>,
)
    ensures
        final(v)@ == old(v)@ + more@,
{
    let mut i: usize = 0;
    while i < more.len()
        invariant
            i <= more.len(),
            v@ == old(v)@ + more@.take(i as int),
        decreases more.len() - i,
    {
        v.push(more[i]);
        i = i + 1;
        assert(v@ =~= old(v)@ + more@.take(i as int));
    }
    assert(more@.take(i as int) =~= more@);
}

/// The factor sources, accounts and personas a wallet knows of.
#[derive(Clone, Debug, PartialEq, Eq, Hash)]
pub struct Profile {
    pub factor_sources: Vec<HDFactorSource>,
    pub accounts: Vec<Account>,
    pub personas: Vec<Persona>,
}

impl Profile {
    pub fn new(factor_sources: Vec<HDFactorSource>, accounts: Vec<Account>, personas: Vec<Persona>) -> (p:
        Self)
        ensures
            p.factor_sources@ == factor_sources@,
            p.accounts@ == accounts@,
            p.personas@ == personas@,
    {
        Profile { factor_sources, accounts, personas }
    }

    /// The profile holds an entity at `address`.
    pub open spec fn spec_contains_address(&self, address: AddressOfAccountOrPersona) -> bool {
        match address {
            AddressOfAccountOrPersona::Account(a) => exists|i: int| 0 <= i < self.accounts@.len() && (#[trigger] self.accounts@[i]).address == a,
            AddressOfAccountOrPersona::Identity(a) => exists|i: int| 0 <= i < self.personas@.len() && (#[trigger] self.personas@[i]).address == a,
        }
    }

    /// Whether the profile holds an entity at `address`.
    pub fn contains_entity_by_address(&self, address: &AddressOfAccountOrPersona) -> (b: bool)
        ensures
            b == self.spec_contains_address(*address),
    {
        match address {
            AddressOfAccountOrPersona::Account(a) => {
                let mut i: usize = 0;
                while i < self.accounts.len()
                    invariant
                        i <= self.accounts@.len(),
                        *address == AddressOfAccountOrPersona::Account(*a),
                        forall|j: int| 0 <= j < i ==> (#[trigger] self.accounts@[j]).address != *a,
                    decreases self.accounts@.len() - i,
                {
                    if self.accounts[i].address == *a {
                        assert(self.accounts@[i as int].address == *a);
                        return true;
                    }
                    i = i + 1;
                }
                false
            },
            AddressOfAccountOrPersona::Identity(a) => {
                let mut i: usize = 0;
                while i < self.personas.len()
                    invariant
                        i <= self.personas@.len(),
                        *address == AddressOfAccountOrPersona::Identity(*a),
                        forall|j: int| 0 <= j < i ==> (#[trigger] self.personas@[j]).address != *a,
                    decreases self.personas@.len() - i,
                {
                    if self.personas[i].address == *a {
                        assert(self.personas@[i as int].address == *a);
                        return true;
                    }
                    i = i + 1;
                }
                false
            },
        }
    }

    /// The instances of `facet` of the accounts on `network_id`.
    pub fn account_instances_on_network(&self, facet: EntityFacet, network_id: NetworkID) -> (v: Vec<
        HierarchicalDeterministicFactorInstance,
    >)
        ensures
            v@ == facets_on(account_entries(self.accounts@), facet, network_id),
    {
        let ghost es = account_entries(self.accounts@);
        let mut v: Vec<HierarchicalDeterministicFactorInstance> = Vec::new();
        let mut i: usize = 0;
        while i < self.accounts.len()
            invariant
                i <= self.accounts.len(),
                es == account_entries(self.accounts@),
                v@ == facets_on(es.take(i as int), facet, network_id),
            decreases self.accounts.len() - i,
        {
            let a = &self.accounts[i];
            let more = facet_instances(&a.security_state, a.address.network_id, facet, network_id);
            append_instances(&mut v, &more);
            proof {
                assert(es.take(i + 1).drop_last() =~= es.take(i as int));
                assert(es.take(i + 1).last() == es[i as int]);
            }
            i = i + 1;
        }
        assert(es.take(i as int) =~= es);
        v
    }

    /// The instances of `facet` of the personas on `network_id`.
    pub fn persona_instances_on_network(&self, facet: EntityFacet, network_id: NetworkID) -> (v: Vec<
        HierarchicalDeterministicFactorInstance,
    >)
        ensures
            v@ == facets_on(persona_entries(self.personas@), facet, network_id),
    {
        let ghost es = persona_entries(self.personas@);
        let mut v: Vec<HierarchicalDeterministicFactorInstance> = Vec::new();
        let mut i: usize = 0;
        while i < self.personas.len()
            invariant
                i <= self.personas.len(),
                es == persona_entries(self.personas@),
                v@ == facets_on(es.take(i as int), facet, network_id),
            decreases self.personas.len() - i,
        {
            let p = &self.personas[i];
            let more = facet_instances(&p.security_state, p.address.network_id, facet, network_id);
            append_instances(&mut v, &more);
            proof {
                assert(es.take(i + 1).drop_last() =~= es.take(i as int));
                assert(es.take(i + 1).last() == es[i as int]);
            }
            i = i + 1;
        }
        assert(es.take(i as int) =~= es);
        v
    }
}

} // verus!
