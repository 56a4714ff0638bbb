//! Recovery of entities from factor sources: which paths to derive keys at,
//! and how to match the derived keys against what a gateway knows.
use vstd::prelude::*;
use crate::gateway::{distinct_in_order, OnChainEntityState};
use crate::types::derivation::{CAP26EntityKind, CAP26KeyKind, DerivationPath, HDPathComponent, HDPathValue, KeySpace};
use crate::types::entities::{
    instance_hash, AccessController, Account, AccountAddress, AddressOfAccountOrPersona, EntitySecurityState,
    MatrixOfFactorInstances, SecurifiedEntityControl,
};
use crate::types::factor_instances::{append_new, lemma_append_new, FactorInstances};
use crate::types::keys::{spec_public_key_hash, HierarchicalDeterministicFactorInstance, PublicKeyHash};
use crate::types::network::NetworkID;
use crate::types::ordered_map::{MapKey, OrderedMap};

verus! {

/// How many derivation entity indices of each key space are scanned.
pub const RECOVERY_BATCH_SIZE_DERIVATION_ENTITY_INDEX: HDPathValue = 50;

impl MapKey for PublicKeyHash {
    fn same(&self, other: &Self) -> (b: bool) {
        *self == *other
    }
}

impl MapKey for AddressOfAccountOrPersona {
    fn same(&self, other: &Self) -> (b: bool) {
        *self == *other
    }
}

/// An unsecurified account as a gateway knows it.
#[derive(Clone, Debug, PartialEq, Eq, Hash)]
pub struct OnChainAccountUnsecurified {
    pub account_address: AccountAddress,
    pub owner_keys: Vec<PublicKeyHash>,
}

impl OnChainAccountUnsecurified {
    pub fn new(account_address: AccountAddress, owner_keys: Vec<PublicKeyHash>) -> (a: Self)
        ensures
            a.account_address == account_address,
            a.owner_keys@ == owner_keys@,
    {
        Self { account_address, owner_keys }
    }

    /// The owner keys, each once, in order of first occurrence.
    pub fn owner_keys(&self) -> (keys: Vec<PublicKeyHash>)
        ensures
            keys@ == distinct_in_order(self.owner_keys@),
    {
        OnChainEntityState::new(AddressOfAccountOrPersona::Account(self.account_address), None, copy_hashes(&self.owner_keys)).owner_keys()
    }
}

/// A copy of `v`.
fn copy_hashes(v: &Vec<PublicKeyHash>) -> (r: Vec<PublicKeyHash>)
    ensures
        r@ == v@,
{
    let mut r: Vec<PublicKeyHash> = Vec::new();
    let mut i: usize = 0;
    while i < v.len()
        invariant
            i <= v@.len(),
            r@ == v@.take(i as int),
        decreases v@.len() - i,
    {
        r.push(v[i]);
        i = i + 1;
        assert(r@ =~= v@.take(i as int));
    }
    assert(v@.take(i as int) =~= v@);
    r
}

/// A securified account as a gateway knows it.
#[derive(Clone, Debug, PartialEq, Eq, Hash)]
pub struct OnChainAccountSecurified {
    pub account_address: AccountAddress,
    pub access_controller: AccessController,
    pub owner_keys: Vec<PublicKeyHash>,
}

impl OnChainAccountSecurified {
    pub fn new(account_address: AccountAddress, access_controller: AccessController, owner_keys: Vec<PublicKeyHash>) -> (a:
        Self)
        ensures
            a.account_address == account_address,
            a.access_controller == access_controller,
            a.owner_keys@ == owner_keys@,
    {
        Self { account_address, access_controller, owner_keys }
    }

    /// The owner keys, each once, in order of first occurrence.
    pub fn owner_keys(&self) -> (keys: Vec<PublicKeyHash>)
        ensures
            keys@ == distinct_in_order(self.owner_keys@),
    {
        OnChainEntityState::new(AddressOfAccountOrPersona::Account(self.account_address), None, copy_hashes(&self.owner_keys)).owner_keys()
    }
}

/// An account as a gateway knows it.
#[derive(Clone, Debug, PartialEq, Eq, Hash)]
pub enum OnChainAccountState {
    Unsecurified(OnChainAccountUnsecurified),
    Securified(OnChainAccountSecurified),
}

impl OnChainAccountState {
    /// An unsecurified account with one owner key.
    pub fn unsecurified_with(account_address: &AccountAddress, owner_key: PublicKeyHash) -> (s: Self)
        ensures
            s matches OnChainAccountState::Unsecurified(a) && a.account_address == *account_address && a.owner_keys@
                == seq![owner_key],
    {
        let keys = vec![owner_key];
        assert(keys@ =~= seq![owner_key]);
        OnChainAccountState::Unsecurified(OnChainAccountUnsecurified::new(*account_address, keys))
    }

    /// A securified account.
    pub fn securified_with(account_address: &AccountAddress, access_controller: AccessController, owner_keys: Vec<PublicKeyHash>) -> (s:
        Self)
        ensures
            s matches OnChainAccountState::Securified(a) && a.account_address == *account_address
                && a.access_controller == access_controller && a.owner_keys@ == owner_keys@,
    {
        OnChainAccountState::Securified(OnChainAccountSecurified::new(*account_address, access_controller, owner_keys))
    }

    pub fn account_address(&self) -> (a: AccountAddress)
        ensures
            a == match self {
                OnChainAccountState::Unsecurified(u) => u.account_address,
                OnChainAccountState::Securified(s) => s.account_address,
            },
    {
        match self {
            OnChainAccountState::Unsecurified(u) => u.account_address,
            OnChainAccountState::Securified(s) => s.account_address,
        }
    }

    pub fn owner_keys(&self) -> (keys: Vec<PublicKeyHash>)
        ensures
            keys@ == distinct_in_order(match self {
                OnChainAccountState::Unsecurified(u) => u.owner_keys@,
                OnChainAccountState::Securified(s) => s.owner_keys@,
            }),
    {
        match self {
            OnChainAccountState::Unsecurified(u) => u.owner_keys(),
            OnChainAccountState::Securified(s) => s.owner_keys(),
        }
    }

    pub fn is_securified(&self) -> (b: bool)
        ensures
            b == self is Securified,
    {
        match self {
            OnChainAccountState::Unsecurified(_) => false,
            OnChainAccountState::Securified(_) => true,
        }
    }
}

/// An account that could not be recovered, with the instances matched so far.
#[derive(Debug, PartialEq, Eq)]
pub struct UncoveredAccount {
    pub on_chain: OnChainAccountState,
    pub key_hash_to_factor_instances: OrderedMap<PublicKeyHash, HierarchicalDeterministicFactorInstance>,
}

impl UncoveredAccount {
    pub fn new(on_chain: OnChainAccountState, key_hash_to_factor_instances: OrderedMap<PublicKeyHash, HierarchicalDeterministicFactorInstance>) -> (u:
        Self)
        ensures
            u.on_chain == on_chain,
            u.key_hash_to_factor_instances == key_hash_to_factor_instances,
    {
        Self { on_chain, key_hash_to_factor_instances }
    }
}

/// An entity that could not be recovered, with the instances matched so far.
#[derive(Debug, PartialEq, Eq)]
pub struct UncoveredEntity {
    pub on_chain: OnChainEntityState,
    pub key_hash_to_factor_instances: OrderedMap<PublicKeyHash, HierarchicalDeterministicFactorInstance>,
}

impl UncoveredEntity {
    pub fn new(on_chain: OnChainEntityState, key_hash_to_factor_instances: OrderedMap<PublicKeyHash, HierarchicalDeterministicFactorInstance>) -> (u:
        Self)
        ensures
            u.on_chain == on_chain,
            u.key_hash_to_factor_instances == key_hash_to_factor_instances,
    {
        Self { on_chain, key_hash_to_factor_instances }
    }
}

/// What recovering accounts gave.
#[derive(Debug, PartialEq, Eq)]
pub struct AccountRecoveryOutcome {
    pub recovered_unsecurified: Vec<Account>,
    pub recovered_securified: Vec<Account>,
    pub unrecovered: Vec<UncoveredAccount>,
}

impl AccountRecoveryOutcome {
    pub fn new(recovered_unsecurified: Vec<Account>, recovered_securified: Vec<Account>, unrecovered: Vec<UncoveredAccount>) -> (o:
        Self)
        ensures
            o.recovered_unsecurified@ == recovered_unsecurified@,
            o.recovered_securified@ == recovered_securified@,
            o.unrecovered@ == unrecovered@,
    {
        Self { recovered_unsecurified, recovered_securified, unrecovered }
    }
}

/// What recovering entities of kind `E` gave.
#[derive(Debug, PartialEq, Eq)]
pub struct EntityRecoveryOutcome<E> {
    pub recovered_unsecurified: Vec<E>,
    pub recovered_securified: Vec<E>,
    pub unrecovered: Vec<UncoveredEntity>,
}

impl<E> EntityRecoveryOutcome<E> {
    pub fn new(recovered_unsecurified: Vec<E>, recovered_securified: Vec<E>, unrecovered: Vec<UncoveredEntity>) -> (o:
        Self)
        ensures
            o.recovered_unsecurified@ == recovered_unsecurified@,
            o.recovered_securified@ == recovered_securified@,
            o.unrecovered@ == unrecovered@,
    {
        Self { recovered_unsecurified, recovered_securified, unrecovered }
    }
}

/// `p` is a transaction signing path for `entity_kind` on `network_id` at
/// base index `i` of `key_space`.
pub open spec fn is_scan_path(p: DerivationPath, network_id: NetworkID, entity_kind: CAP26EntityKind, key_space: KeySpace, i: int) -> bool {
    &&& p.network_id == network_id
    &&& p.entity_kind == entity_kind
    &&& p.key_kind == CAP26KeyKind::TransactionSigning
    &&& p.index.spec_key_space() == key_space
    &&& p.index.spec_base_index() == i
}

/// The paths to derive keys at when recovering entities of `entity_kind` on
/// `network_id`: the first batch of unsecurified indices, then the first batch
/// of securified ones.
pub fn recovery_derivation_paths(network_id: NetworkID, entity_kind: CAP26EntityKind) -> (v: Vec<DerivationPath>)
    ensures
        v@.len() == 2 * RECOVERY_BATCH_SIZE_DERIVATION_ENTITY_INDEX,
        forall|i: int| 0 <= i < RECOVERY_BATCH_SIZE_DERIVATION_ENTITY_INDEX ==> is_scan_path(
            #[trigger] v@[i],
            network_id,
            entity_kind,
            KeySpace::Unsecurified,
            i,
        ),
        forall|i: int| 0 <= i < RECOVERY_BATCH_SIZE_DERIVATION_ENTITY_INDEX ==> is_scan_path(
            #[trigger] v@[RECOVERY_BATCH_SIZE_DERIVATION_ENTITY_INDEX + i],
            network_id,
            entity_kind,
            KeySpace::Securified,
            i,
        ),
{
    let mut v: Vec<DerivationPath> = Vec::new();
    let mut i: u32 = 0;
    while i < RECOVERY_BATCH_SIZE_DERIVATION_ENTITY_INDEX
        invariant
            i <= RECOVERY_BATCH_SIZE_DERIVATION_ENTITY_INDEX,
            v@.len() == i,
            forall|j: int| 0 <= j < i ==> is_scan_path(#[trigger] v@[j], network_id, entity_kind, KeySpace::Unsecurified, j),
        decreases RECOVERY_BATCH_SIZE_DERIVATION_ENTITY_INDEX - i,
    {
        v.push(DerivationPath::new(network_id, entity_kind, CAP26KeyKind::TransactionSigning, HDPathComponent::unsecurified_hardening_base_index(i)));
        i = i + 1;
    }
    let mut j: u32 = 0;
    while j < RECOVERY_BATCH_SIZE_DERIVATION_ENTITY_INDEX
        invariant
            j <= RECOVERY_BATCH_SIZE_DERIVATION_ENTITY_INDEX,
            v@.len() == RECOVERY_BATCH_SIZE_DERIVATION_ENTITY_INDEX + j,
            forall|k: int| 0 <= k < RECOVERY_BATCH_SIZE_DERIVATION_ENTITY_INDEX ==> is_scan_path(#[trigger] v@[k], network_id, entity_kind, KeySpace::Unsecurified, k),
            forall|k: int| 0 <= k < j ==> is_scan_path(#[trigger] v@[RECOVERY_BATCH_SIZE_DERIVATION_ENTITY_INDEX + k], network_id, entity_kind, KeySpace::Securified, k),
        decreases RECOVERY_BATCH_SIZE_DERIVATION_ENTITY_INDEX - j,
    {
        v.push(DerivationPath::new(network_id, entity_kind, CAP26KeyKind::TransactionSigning, HDPathComponent::securifying_base_index(j)));
        j = j + 1;
    }
    v
}

/// The last instance of `s` whose key has hash `h`, if any.
pub open spec fn last_with_hash(s: Seq<HierarchicalDeterministicFactorInstance>, h: PublicKeyHash) -> Option<
    HierarchicalDeterministicFactorInstance,
>
    decreases s.len(),
{
    if s.len() == 0 {
        None
    } else if instance_hash(s.last()) == h {
        Some(s.last())
    } else {
        last_with_hash(s.drop_last(), h)
    }
}

/// The instances of `instances` by the hash of their public key; of two with
/// the same hash the later is kept.
pub fn hash_to_factor_map(instances: &Vec<HierarchicalDeterministicFactorInstance>) -> (m: OrderedMap<
    PublicKeyHash,
    HierarchicalDeterministicFactorInstance,
>)
    ensures
        forall|h: PublicKeyHash| #[trigger] m.spec_get(h) == last_with_hash(instances@, h),
{
    let mut m: OrderedMap<PublicKeyHash, HierarchicalDeterministicFactorInstance> = OrderedMap::new();
    let mut i: usize = 0;
    while i < instances.len()
        invariant
            i <= instances@.len(),
            forall|h: PublicKeyHash| #[trigger] m.spec_get(h) == last_with_hash(instances@.take(i as int), h),
        decreases instances@.len() - i,
    {
        let f = instances[i];
        let h = f.public_key_hash();
        m.insert(h, f);
        proof {
            assert(instances@.take(i + 1).drop_last() =~= instances@.take(i as int));
            assert(instances@.take(i + 1).last() == f);
        }
        i = i + 1;
    }
    assert(instances@.take(i as int) =~= instances@);
    m
}

/// The instances under the hashes of `hashes` that `m` has, in order.
pub open spec fn found_instances(hashes: Seq<PublicKeyHash>, m: OrderedMap<PublicKeyHash, HierarchicalDeterministicFactorInstance>) -> Seq<
    HierarchicalDeterministicFactorInstance,
>
    decreases hashes.len(),
{
    if hashes.len() == 0 {
        Seq::empty()
    } else {
        let rest = found_instances(hashes.drop_last(), m);
        match m.spec_get(hashes.last()) {
            Some(f) => rest.push(f),
            None => rest,
        }
    }
}

/// The instances `m` has for `hashes`, each once, in order.
fn collect_found(hashes: &Vec<PublicKeyHash>, m: &OrderedMap<PublicKeyHash, HierarchicalDeterministicFactorInstance>) -> (r:
    Vec<HierarchicalDeterministicFactorInstance>)
    ensures
        r@ == append_new(Seq::<HierarchicalDeterministicFactorInstance>::empty(), found_instances(hashes@, *m)),
{
    let mut all: Vec<HierarchicalDeterministicFactorInstance> = Vec::new();
    let mut i: usize = 0;
    while i < hashes.len()
        invariant
            i <= hashes@.len(),
            all@ == found_instances(hashes@.take(i as int), *m),
        decreases hashes@.len() - i,
    {
        proof {
            assert(hashes@.take(i + 1).drop_last() =~= hashes@.take(i as int));
            assert(hashes@.take(i + 1).last() == hashes@[i as int]);
        }
        match m.get(&hashes[i]) {
            Some(f) => {
                all.push(*f);
            },
            None => {},
        }
        i = i + 1;
    }
    assert(hashes@.take(i as int) =~= hashes@);
    FactorInstances::new(all).into_vec()
}

/// The key hashes of the matrix of a securified entity, by role, as read
/// from its access controller.
#[derive(Clone, Debug, PartialEq, Eq)]
pub struct MatrixOfKeyHashes {
    pub threshold_factors: Vec<PublicKeyHash>,
    pub threshold: u8,
    pub override_factors: Vec<PublicKeyHash>,
}

impl MatrixOfKeyHashes {
    /// The key hashes of the matrix the rules of `access_controller`
    /// enforce; none if its rules are not known.
    pub fn from_access_controller(access_controller: &AccessController) -> (r: Option<MatrixOfKeyHashes>)
        ensures
            match access_controller@.1 {
                Some(rule) => r matches Some(m) && m.threshold_factors@ == rule.0 && m.threshold == rule.1
                    && m.override_factors@ == rule.2,
                None => r is None,
            },
    {
        match &access_controller.metadata {
            Some(metadata) => {
                let rules = metadata.scrypto_access_rules.clone();
                Some(MatrixOfKeyHashes {
                    threshold_factors: rules.threshold_factors,
                    threshold: rules.threshold,
                    override_factors: rules.override_factors,
                })
            },
            None => None,
        }
    }
}

/// How an unsecurified entity found by a gateway is recovered: its single
/// matched instance controls it.
pub fn unsecurified_security_state(instances: &FactorInstances) -> (s: EntitySecurityState)
    requires
        instances@.len() == 1,
    ensures
        s == EntitySecurityState::Unsecured(instances@[0]),
{
    let f = instances.first();
    match f {
        Some(f) => EntitySecurityState::Unsecured(f),
        None => {
            proof {
                assert(false);
            }
            EntitySecurityState::Unsecured(instances.first().unwrap())
        },
    }
}

/// How a securified entity found by a gateway is recovered: the matrix of the
/// locally derived instances whose hashes its access controller names, each
/// once, in the controller's order; none if fewer threshold instances than
/// the threshold were found.
pub fn securified_security_state(
    matrix_of_hashes: &MatrixOfKeyHashes,
    map_hash_to_factor: &OrderedMap<PublicKeyHash, HierarchicalDeterministicFactorInstance>,
    access_controller: AccessController,
) -> (s: Option<EntitySecurityState>)
    ensures
        ({
            let t = append_new(Seq::<HierarchicalDeterministicFactorInstance>::empty(), found_instances(matrix_of_hashes.threshold_factors@, *map_hash_to_factor));
            let o = append_new(Seq::<HierarchicalDeterministicFactorInstance>::empty(), found_instances(matrix_of_hashes.override_factors@, *map_hash_to_factor));
            if t.len() < matrix_of_hashes.threshold {
                s is None
            } else {
                s matches Some(EntitySecurityState::Securified(c)) && c.matrix.threshold_factors@ == t
                    && c.matrix.threshold == matrix_of_hashes.threshold && c.matrix.override_factors@ == o
                    && c.access_controller == access_controller && c.veci is None
            }
        }),
{
    let threshold_factor_instances = collect_found(&matrix_of_hashes.threshold_factors, map_hash_to_factor);
    let override_factor_instances = collect_found(&matrix_of_hashes.override_factors, map_hash_to_factor);
    if threshold_factor_instances.len() < matrix_of_hashes.threshold as usize {
        return None;
    }
    let matrix = MatrixOfFactorInstances::new(threshold_factor_instances, matrix_of_hashes.threshold, override_factor_instances);
    Some(EntitySecurityState::Securified(SecurifiedEntityControl::new(matrix, access_controller, None)))
}

/// The instances matched to each address: for every `(hash, address)` the
/// gateway reported, the instance of that hash, collected per address in
/// order of first report; every reported hash must be among `map_hash_to_factor`.
pub fn group_by_address(
    map_hash_to_factor: &OrderedMap<PublicKeyHash, HierarchicalDeterministicFactorInstance>,
    addresses_per_hash: &Vec<(PublicKeyHash, AddressOfAccountOrPersona)>,
) -> (r: OrderedMap<AddressOfAccountOrPersona, FactorInstances>)
    requires
        forall|i: int| 0 <= i < addresses_per_hash@.len() ==> (#[trigger] map_hash_to_factor.spec_get(addresses_per_hash@[i].0)) is Some,
    ensures
        forall|a: AddressOfAccountOrPersona| #[trigger] r.spec_get(a) matches Some(fi) ==> fi@ == append_new(
            Seq::<HierarchicalDeterministicFactorInstance>::empty(),
            instances_reported_for(addresses_per_hash@, *map_hash_to_factor, a),
        ),
        forall|a: AddressOfAccountOrPersona| #[trigger] r.spec_has(a) == (instances_reported_for(addresses_per_hash@, *map_hash_to_factor, a).len() > 0),
{
    let mut r: OrderedMap<AddressOfAccountOrPersona, FactorInstances> = OrderedMap::new();
    let ghost s = addresses_per_hash@;
    let mut i: usize = 0;
    while i < addresses_per_hash.len()
        invariant
            i <= s.len(),
            s == addresses_per_hash@,
            forall|k: int| 0 <= k < s.len() ==> (#[trigger] map_hash_to_factor.spec_get(s[k].0)) is Some,
            forall|a: AddressOfAccountOrPersona| #[trigger] r.spec_get(a) matches Some(fi) ==> fi@ == append_new(
                Seq::<HierarchicalDeterministicFactorInstance>::empty(),
                instances_reported_for(s.take(i as int), *map_hash_to_factor, a),
            ),
            forall|a: AddressOfAccountOrPersona| #[trigger] r.spec_has(a) == (instances_reported_for(s.take(i as int), *map_hash_to_factor, a).len() > 0),
        decreases s.len() - i,
    {
        let (h, a) = addresses_per_hash[i];
        let f = match map_hash_to_factor.get(&h) {
            Some(f) => *f,
            None => {
                proof {
                    assert(map_hash_to_factor.spec_get(s[i as int].0) is Some);
                }
                i = i + 1;
                continue;
            },
        };
        let ghost r0 = r;
        proof {
            assert(s.take(i + 1).drop_last() =~= s.take(i as int));
            assert(s.take(i + 1).last() == s[i as int]);
            assert(map_hash_to_factor.spec_get(h) == Some(f));
        }
        match r.index_of(&a) {
            Some(j) => {
                let mut existing = r.replace_at(j, FactorInstances::empty());
                let ghost e0 = existing@;
                let one = vec![f];
                assert(one@ =~= seq![f]);
                existing.extend_from_vec(&one);
                r.replace_at(j, existing);
                proof {
                    crate::types::factor_instances::lemma_append_new_one(e0, f);
                    lemma_append_new_push(instances_reported_for(s.take(i as int), *map_hash_to_factor, a), f);
                }
            },
            None => {
                let fi = FactorInstances::just(f);
                r.insert(a, fi);
                proof {
                    assert(instances_reported_for(s.take(i as int), *map_hash_to_factor, a).len() == 0);
                    assert(instances_reported_for(s.take(i as int), *map_hash_to_factor, a) =~= Seq::<HierarchicalDeterministicFactorInstance>::empty());
                    lemma_append_new_push(Seq::<HierarchicalDeterministicFactorInstance>::empty(), f);
                    crate::types::factor_instances::lemma_append_new_one(Seq::<HierarchicalDeterministicFactorInstance>::empty(), f);
                }
            },
        }
        proof {
            assert forall|a2: AddressOfAccountOrPersona| #[trigger] r.spec_has(a2) == (instances_reported_for(s.take(i + 1), *map_hash_to_factor, a2).len() > 0) by {
                if a2 != a {
                    assert(r.spec_has(a2) == r0.spec_has(a2));
                }
            }
        }
        i = i + 1;
    }
    assert(s.take(i as int) =~= s);
    r
}

/// The instances the gateway reported for address `a`, in order.
pub open spec fn instances_reported_for(
    s: Seq<(PublicKeyHash, AddressOfAccountOrPersona)>,
    m: OrderedMap<PublicKeyHash, HierarchicalDeterministicFactorInstance>,
    a: AddressOfAccountOrPersona,
) -> Seq<HierarchicalDeterministicFactorInstance>
    decreases s.len(),
{
    if s.len() == 0 {
        Seq::empty()
    } else {
        let rest = instances_reported_for(s.drop_last(), m, a);
        if s.last().1 == a && m.spec_get(s.last().0) is Some {
            rest.push(m.spec_get(s.last().0).unwrap())
        } else {
            rest
        }
    }
}

/// Appending to the elements of `s` one more element is appending the
/// elements of `s` followed by it.
proof fn lemma_append_new_push(s: Seq<HierarchicalDeterministicFactorInstance>, f: HierarchicalDeterministicFactorInstance)
    ensures
        append_new(Seq::<HierarchicalDeterministicFactorInstance>::empty(), s.push(f)) == append_new(
            append_new(Seq::<HierarchicalDeterministicFactorInstance>::empty(), s),
            seq![f],
        ),
{
    crate::types::factor_instances::lemma_append_new_one(append_new(Seq::<HierarchicalDeterministicFactorInstance>::empty(), s), f);
    assert(s.push(f).drop_last() =~= s);
    assert(s.push(f).last() == f);
}

} // verus!
