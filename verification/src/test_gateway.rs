//! A gateway held in memory: the current on-ledger state of each entity, and
//! every public key hash the ledger has ever seen.
use vstd::prelude::*;
use crate::gateway::{OnChainEntityState, OnChainEntityStateView};
use crate::types::entities::{
    hashes_of, AccountAddress, AddressOfAccountOrPersona, IdentityAddress, SecurifiedEntityControl,
};
use crate::types::error::CommonError;
use crate::types::appendable::OrderedSet;
use crate::types::factor_instances::append_new;
use crate::types::keys::PublicKeyHash;
use crate::types::ordered_map::OrderedMap;

verus! {

/// The view of a state, if any.
pub open spec fn state_view(o: Option<OnChainEntityState>) -> Option<OnChainEntityStateView> {
    match o {
        Some(s) => Some(s@),
        None => None,
    }
}

/// The addresses of the states of `es` whose owner keys hold `h`, in order.
pub open spec fn owners_of(es: Seq<(AddressOfAccountOrPersona, OnChainEntityState)>, h: PublicKeyHash) -> Seq<AddressOfAccountOrPersona>
    decreases es.len(),
{
    if es.len() == 0 {
        Seq::empty()
    } else {
        let r = owners_of(es.drop_last(), h);
        if es.last().1.owner_keys@.contains(h) {
            r.push(es.last().1.address)
        } else {
            r
        }
    }
}

/// The owner key hashes a ledger records for an entity securified with
/// `control`: the hashes of every instance of its matrix, each once,
/// threshold factors first.
pub open spec fn securified_owner_keys(control: SecurifiedEntityControl) -> Seq<PublicKeyHash> {
    append_new(Seq::<PublicKeyHash>::empty(), hashes_of(control.matrix.spec_all_factors()))
}

/// A gateway held in memory. It knows the current state of each entity and,
/// never forgetting one, every public key hash that has controlled one.
pub struct TestGateway {
    has_internet_connection: bool,
    entities: OrderedMap<AddressOfAccountOrPersona, OnChainEntityState>,
    known_hashes: OrderedSet<PublicKeyHash>,
}

impl TestGateway {
    /// Whether requests reach the ledger.
    pub closed spec fn spec_online(&self) -> bool {
        self.has_internet_connection
    }

    /// The current state of the entity at `address`, if the ledger knows it.
    pub closed spec fn spec_entity(&self, address: AddressOfAccountOrPersona) -> Option<OnChainEntityStateView> {
        state_view(self.entities.spec_get(address))
    }

    /// The entities with their states, in the order first recorded.
    pub closed spec fn spec_entries(&self) -> Seq<(AddressOfAccountOrPersona, OnChainEntityState)> {
        self.entities@
    }

    /// Whether `hash` has ever controlled an entity.
    pub closed spec fn spec_known(&self, hash: PublicKeyHash) -> bool {
        self.known_hashes@.contains(hash)
    }

    /// The entity at `address` is known and securified.
    pub open spec fn spec_is_securified(&self, address: AddressOfAccountOrPersona) -> bool {
        self.spec_entity(address) matches Some(s) && s.1 is Some
    }

    /// A gateway knowing no entity and no hash.
    pub fn new(has_internet_connection: bool) -> (g: Self)
        ensures
            g.spec_online() == has_internet_connection,
            forall|a: AddressOfAccountOrPersona| #[trigger] g.spec_entity(a) is None,
            forall|h: PublicKeyHash| !(#[trigger] g.spec_known(h)),
            g.spec_entries().len() == 0,
    {
        TestGateway { has_internet_connection, entities: OrderedMap::new(), known_hashes: OrderedSet::new() }
    }

    /// A copy that evolves on its own.
    pub fn clone_snapshot(&self) -> (g: Self)
        ensures
            g.spec_online() == self.spec_online(),
            forall|a: AddressOfAccountOrPersona| #[trigger] g.spec_entity(a) == self.spec_entity(a),
            forall|h: PublicKeyHash| #[trigger] g.spec_known(h) == self.spec_known(h),
    {
        let mut entities: OrderedMap<AddressOfAccountOrPersona, OnChainEntityState> = OrderedMap::new();
        let ghost es = self.entities@;
        let _ = self.entities.has_unique_keys();
        let mut i: usize = 0;
        while i < self.entities.len()
            invariant
                i <= es.len(),
                es == self.entities@,
                crate::types::ordered_map::unique_keys(es),
                forall|a: AddressOfAccountOrPersona| #[trigger] state_view(entities.spec_get(a)) == (if crate::types::ordered_map::entries_have_key(es.take(i as int), a) {
                    state_view(self.entities.spec_get(a))
                } else {
                    None
                }),
            decreases es.len() - i,
        {
            let e = self.entities.get_index(i);
            proof {
                crate::types::ordered_map::lemma_entries_get_at(es, i as int);
                crate::types::ordered_map::lemma_entries_keys_contains(es.take(i + 1), e.0);
            }
            let ghost before = entities;
            entities.insert(e.0, e.1.clone());
            proof {
                assert forall|a: AddressOfAccountOrPersona| #[trigger] state_view(entities.spec_get(a)) == (if crate::types::ordered_map::entries_have_key(es.take(i + 1), a) {
                    state_view(self.entities.spec_get(a))
                } else {
                    None
                }) by {
                    crate::types::ordered_map::lemma_entries_get_take(es, i as int, a);
                    crate::types::ordered_map::lemma_entries_keys_contains(es.take(i + 1), a);
                    crate::types::ordered_map::lemma_entries_keys_contains(es.take(i as int), a);
                    if a != e.0 {
                        assert(entities.spec_get(a) == before.spec_get(a));
                    }
                }
            }
            i = i + 1;
        }
        proof {
            assert(es.take(es.len() as int) =~= es);
            assert forall|a: AddressOfAccountOrPersona| #[trigger] state_view(entities.spec_get(a)) == state_view(self.entities.spec_get(a)) by {
                if !crate::types::ordered_map::entries_have_key(es, a) {
                    assert(self.entities.spec_get(a) is None);
                }
            }
        }
        let known = self.known_hashes.elements();
        let known_hashes = OrderedSet::from_vec(known);
        proof {
            crate::types::factor_instances::lemma_append_new(Seq::<PublicKeyHash>::empty(), self.known_hashes@);
        }
        TestGateway { has_internet_connection: self.has_internet_connection, entities, known_hashes }
    }

    pub fn has_internet_connection(&self) -> (b: bool)
        ensures
            b == self.spec_online(),
    {
        self.has_internet_connection
    }

    /// Whether `hash` has ever controlled an entity.
    pub fn is_key_hash_known(&self, hash: PublicKeyHash) -> (r: Result<bool, CommonError>)
        ensures
            r == Ok::<bool, CommonError>(self.spec_known(hash)),
    {
        Ok(self.known_hashes.contains(&hash))
    }

    /// For each of `hashes`, whether it has ever controlled an entity.
    pub fn query_public_key_hash_is_known(&self, hashes: &Vec<PublicKeyHash>) -> (r: Result<OrderedMap<PublicKeyHash, bool>, CommonError>)
        ensures
            r matches Ok(m) && forall|h: PublicKeyHash| #[trigger] m.spec_get(h) == (if hashes@.contains(h) {
                Some(self.spec_known(h))
            } else {
                None
            }),
    {
        let mut m: OrderedMap<PublicKeyHash, bool> = OrderedMap::new();
        let mut i: usize = 0;
        while i < hashes.len()
            invariant
                i <= hashes@.len(),
                forall|h: PublicKeyHash| #[trigger] m.spec_get(h) == (if hashes@.take(i as int).contains(h) {
                    Some(self.spec_known(h))
                } else {
                    None
                }),
            decreases hashes@.len() - i,
        {
            let h = hashes[i];
            let known = self.is_key_hash_known(h);
            match known {
                Ok(b) => m.insert(h, b),
                Err(_) => {},
            }
            proof {
                assert forall|g: PublicKeyHash| #[trigger] hashes@.take(i + 1).contains(g) == (hashes@.take(i as int).contains(g) || g == h) by {
                    crate::types::factor_instances::lemma_take_one_more_contains(hashes@, i as int, g);
                }
            }
            i = i + 1;
        }
        assert(hashes@.take(i as int) =~= hashes@);
        Ok(m)
    }

    /// For each of `hashes` that some entity's owner keys hold, the addresses
    /// of those entities, in the order they were first recorded.
    pub fn get_entity_addresses_of_by_public_key_hashes(&self, hashes: &Vec<PublicKeyHash>) -> (r: Result<
        OrderedMap<PublicKeyHash, Vec<AddressOfAccountOrPersona>>,
        CommonError,
    >)
        ensures
            r matches Ok(m) && forall|h: PublicKeyHash| #[trigger] m.spec_get(h) matches Some(v) ==> v@ == owners_of(self.spec_entries(), h),
            r matches Ok(m) && forall|h: PublicKeyHash| #[trigger] m.spec_has(h) == (hashes@.contains(h) && owners_of(self.spec_entries(), h).len() > 0),
    {
        let mut m: OrderedMap<PublicKeyHash, Vec<AddressOfAccountOrPersona>> = OrderedMap::new();
        let mut i: usize = 0;
        while i < hashes.len()
            invariant
                i <= hashes@.len(),
                forall|h: PublicKeyHash| #[trigger] m.spec_get(h) matches Some(v) ==> v@ == owners_of(self.entities@, h),
                forall|h: PublicKeyHash| #[trigger] m.spec_has(h) == (hashes@.take(i as int).contains(h) && owners_of(self.entities@, h).len() > 0),
            decreases hashes@.len() - i,
        {
            let h = hashes[i];
            let owners = self.owners(&h);
            let ghost before = m;
            if owners.len() > 0 {
                m.insert(h, owners);
            }
            proof {
                assert forall|g: PublicKeyHash| #[trigger] hashes@.take(i + 1).contains(g) == (hashes@.take(i as int).contains(g) || g == h) by {
                    crate::types::factor_instances::lemma_take_one_more_contains(hashes@, i as int, g);
                }
                assert forall|g: PublicKeyHash| #[trigger] m.spec_has(g) == (hashes@.take(i + 1).contains(g) && owners_of(self.entities@, g).len() > 0) by {
                    if g != h {
                        assert(m.spec_has(g) == before.spec_has(g));
                    }
                }
            }
            i = i + 1;
        }
        assert(hashes@.take(i as int) =~= hashes@);
        Ok(m)
    }

    /// The addresses of the entities whose owner keys hold `h`, in order.
    fn owners(&self, h: &PublicKeyHash) -> (v: Vec<AddressOfAccountOrPersona>)
        ensures
            v@ == owners_of(self.entities@, *h),
    {
        let ghost es = self.entities@;
        let mut v: Vec<AddressOfAccountOrPersona> = Vec::new();
        let mut i: usize = 0;
        while i < self.entities.len()
            invariant
                i <= es.len(),
                es == self.entities@,
                v@ == owners_of(es.take(i as int), *h),
            decreases es.len() - i,
        {
            let e = self.entities.get_index(i);
            proof {
                assert(es.take(i + 1).drop_last() =~= es.take(i as int));
            }
            if vec_contains_hash(&e.1.owner_keys, h) {
                v.push(e.1.address);
            }
            i = i + 1;
        }
        assert(es.take(i as int) =~= es);
        v
    }

    /// The current state of the entity at `address`, if the ledger knows it.
    pub fn get_on_chain_entity(&self, address: AddressOfAccountOrPersona) -> (r: Result<Option<OnChainEntityState>, CommonError>)
        ensures
            r matches Ok(o) && state_view(o) == self.spec_entity(address),
    {
        match self.entities.get(&address) {
            Some(s) => Ok(Some(s.clone())),
            None => Ok(None),
        }
    }

    /// The current state of the account at `account_address`, if known.
    pub fn get_on_chain_account(&self, account_address: &AccountAddress) -> (r: Result<Option<OnChainEntityState>, CommonError>)
        ensures
            r matches Ok(o) && state_view(o) == self.spec_entity(AddressOfAccountOrPersona::Account(*account_address)),
    {
        self.get_on_chain_entity(AddressOfAccountOrPersona::Account(*account_address))
    }

    /// The owner key hashes of the entity at `address`, each once, if known.
    pub fn get_owner_key_hashes(&self, address: AddressOfAccountOrPersona) -> (r: Result<Option<Vec<PublicKeyHash>>, CommonError>)
        ensures
            r matches Ok(o) && match self.spec_entity(address) {
                Some(s) => o matches Some(v) && v@ == crate::gateway::distinct_in_order(s.2),
                None => o is None,
            },
    {
        match self.entities.get(&address) {
            Some(s) => Ok(Some(s.owner_keys())),
            None => Ok(None),
        }
    }

    /// Whether the entity at `address` is known and securified.
    pub fn is_securified(&self, address: AddressOfAccountOrPersona) -> (r: Result<bool, CommonError>)
        ensures
            r == Ok::<bool, CommonError>(self.spec_is_securified(address)),
    {
        match self.entities.get(&address) {
            Some(s) => Ok(s.is_securified()),
            None => Ok(false),
        }
    }

    /// Records activity of the unsecurified entity at `owner`: the ledger
    /// learns it with its creating key as owner key. The ledger must know
    /// neither the entity nor that key yet.
    pub fn simulate_network_activity_for(&mut self, owner: AddressOfAccountOrPersona) -> (r: Result<(), CommonError>)
        requires
            old(self).spec_entity(owner) is None,
            !old(self).spec_known(owner.spec_key_hash()),
        ensures
            r is Ok,
            final(self).spec_online() == old(self).spec_online(),
            final(self).spec_entity(owner) == Some((owner, None::<crate::types::entities::AccessControllerView>, seq![owner.spec_key_hash()])),
            forall|a: AddressOfAccountOrPersona| a != owner ==> #[trigger] final(self).spec_entity(a) == old(self).spec_entity(a),
            forall|h: PublicKeyHash| #[trigger] final(self).spec_known(h) == (old(self).spec_known(h) || h == owner.spec_key_hash()),
    {
        let owner_key = owner.public_key_hash();
        let state = OnChainEntityState::unsecurified(owner, owner_key);
        self.entities.insert(owner, state);
        let keys = vec![owner_key];
        let ghost k0 = self.known_hashes@;
        self.known_hashes.extend_from_vec(&keys);
        proof {
            assert(keys@ =~= seq![owner_key]);
            crate::types::factor_instances::lemma_append_new(k0, keys@);
        }
        Ok(())
    }

    /// Records the entity at `owner` as securified with `securified`: its
    /// state becomes securified with the access controller of `securified`
    /// and the hashes of every instance of its matrix as owner keys, and the
    /// ledger learns those hashes. The entity must not be securified yet.
    pub fn set_securified_entity(&mut self, securified: SecurifiedEntityControl, owner: AddressOfAccountOrPersona) -> (r: Result<(), CommonError>)
        requires
            !old(self).spec_is_securified(owner),
        ensures
            r is Ok,
            final(self).spec_online() == old(self).spec_online(),
            final(self).spec_entity(owner) == Some((owner, Some(securified.access_controller@), securified_owner_keys(securified))),
            forall|a: AddressOfAccountOrPersona| a != owner ==> #[trigger] final(self).spec_entity(a) == old(self).spec_entity(a),
            forall|h: PublicKeyHash| #[trigger] final(self).spec_known(h) == (old(self).spec_known(h) || securified_owner_keys(securified).contains(h)),
    {
        let all = securified.matrix.all_factors();
        let mut hashes: Vec<PublicKeyHash> = Vec::new();
        let mut i: usize = 0;
        while i < all.len()
            invariant
                i <= all@.len(),
                all@ == securified.matrix.spec_all_factors(),
                hashes@ == hashes_of(all@.take(i as int)),
            decreases all@.len() - i,
        {
            hashes.push(all[i].public_key_hash());
            i = i + 1;
            assert(hashes@ =~= hashes_of(all@.take(i as int)));
        }
        assert(all@.take(i as int) =~= all@);
        let owner_keys = OrderedSet::from_vec(hashes);
        let owner_keys = owner_keys.elements();
        let ghost k0 = self.known_hashes@;
        self.known_hashes.extend_from_vec(&owner_keys);
        proof {
            crate::types::factor_instances::lemma_append_new(k0, owner_keys@);
        }
        let state = OnChainEntityState::securified(owner, securified.access_controller, owner_keys);
        self.entities.insert(owner, state);
        Ok(())
    }

    /// Records the account at `owner` as securified with `securified`.
    pub fn set_securified_account(&mut self, securified: SecurifiedEntityControl, owner: &AccountAddress) -> (r: Result<(), CommonError>)
        requires
            !old(self).spec_is_securified(AddressOfAccountOrPersona::Account(*owner)),
        ensures
            r is Ok,
            final(self).spec_entity(AddressOfAccountOrPersona::Account(*owner)) == Some((
                AddressOfAccountOrPersona::Account(*owner),
                Some(securified.access_controller@),
                securified_owner_keys(securified),
            )),
            forall|a: AddressOfAccountOrPersona| a != AddressOfAccountOrPersona::Account(*owner) ==> #[trigger] final(self).spec_entity(a)
                == old(self).spec_entity(a),
            forall|h: PublicKeyHash| #[trigger] final(self).spec_known(h) == (old(self).spec_known(h) || securified_owner_keys(securified).contains(h)),
    {
        self.set_securified_entity(securified, AddressOfAccountOrPersona::Account(*owner))
    }

    /// Records the persona at `owner` as securified with `securified`.
    pub fn set_securified_persona(&mut self, securified: SecurifiedEntityControl, owner: &IdentityAddress) -> (r: Result<(), CommonError>)
        requires
            !old(self).spec_is_securified(AddressOfAccountOrPersona::Identity(*owner)),
        ensures
            r is Ok,
            final(self).spec_entity(AddressOfAccountOrPersona::Identity(*owner)) == Some((
                AddressOfAccountOrPersona::Identity(*owner),
                Some(securified.access_controller@),
                securified_owner_keys(securified),
            )),
            forall|a: AddressOfAccountOrPersona| a != AddressOfAccountOrPersona::Identity(*owner) ==> #[trigger] final(self).spec_entity(a)
                == old(self).spec_entity(a),
            forall|h: PublicKeyHash| #[trigger] final(self).spec_known(h) == (old(self).spec_known(h) || securified_owner_keys(securified).contains(h)),
    {
        self.set_securified_entity(securified, AddressOfAccountOrPersona::Identity(*owner))
    }
}

impl Default for TestGateway {
    fn default() -> (g: Self)
        ensures
            g.spec_online(),
            forall|a: AddressOfAccountOrPersona| #[trigger] g.spec_entity(a) is None,
            forall|h: PublicKeyHash| !(#[trigger] g.spec_known(h)),
    {
        TestGateway::new(true)
    }
}

/// Whether `v` holds `h`.
fn vec_contains_hash(v: &Vec<PublicKeyHash>, h: &PublicKeyHash) -> (b: bool)
    ensures
        b == v@.contains(*h),
{
    let mut i: usize = 0;
    while i < v.len()
        invariant
            i <= v@.len(),
            forall|j: int| 0 <= j < i ==> v@[j] != *h,
        decreases v@.len() - i,
    {
        if v[i] == *h {
            return true;
        }
        i = i + 1;
    }
    false
}

} // verus!
