//! What a gateway can tell about an entity on ledger.
use vstd::prelude::*;
use crate::types::entities::{AccessController, AccessControllerView, AddressOfAccountOrPersona};
use crate::types::keys::PublicKeyHash;

verus! {

/// A snapshot of what a gateway hands out about the address of an entity,
/// or about the entity found by a public key hash.
#[derive(Debug, PartialEq, Eq, Hash)]
pub struct OnChainEntityState {
    pub address: AddressOfAccountOrPersona,
    /// `None` if not securified, `Some` if securified.
    pub access_controller: Option<AccessController>,
    pub owner_keys: Vec<PublicKeyHash>,
}

/// The distinct elements of `s`, in order of first occurrence.
pub open spec fn distinct_in_order<T>(s: Seq<T>) -> Seq<T>
    decreases s.len(),
{
    if s.len() == 0 {
        Seq::empty()
    } else {
        let rest = distinct_in_order(s.drop_last());
        if rest.contains(s.last()) {
            rest
        } else {
            rest.push(s.last())
        }
    }
}

pub proof fn lemma_distinct_in_order<T>(s: Seq<T>)
    ensures
        distinct_in_order(s).no_duplicates(),
        distinct_in_order(s).to_set() == s.to_set(),
    decreases s.len(),
{
    if s.len() > 0 {
        lemma_distinct_in_order(s.drop_last());
        let rest = distinct_in_order(s.drop_last());
        assert(s =~= s.drop_last().push(s.last()));
        s.drop_last().lemma_push_to_set_commute(s.last());
        if !rest.contains(s.last()) {
            rest.lemma_push_to_set_commute(s.last());
        } else {
            assert(rest.to_set().contains(s.last()));
            assert(rest.to_set() =~= rest.to_set().insert(s.last()));
        }
    } else {
        assert(s.to_set() =~= Set::empty());
        assert(distinct_in_order(s).to_set() =~= Set::empty());
    }
}

/// An on-ledger entity state as values: its address, its access controller
/// if securified, and its owner key hashes.
pub type OnChainEntityStateView = (AddressOfAccountOrPersona, Option<AccessControllerView>, Seq<PublicKeyHash>);

impl View for OnChainEntityState {
    type V = OnChainEntityStateView;

    open spec fn view(&self) -> OnChainEntityStateView {
        (
            self.address,
            match self.access_controller {
                Some(c) => Some(c@),
                None => None,
            },
            self.owner_keys@,
        )
    }
}

impl Clone for OnChainEntityState {
    fn clone(&self) -> (r: Self)
        ensures
            r@ == self@,
    {
        let access_controller = match &self.access_controller {
            Some(c) => Some(c.clone()),
            None => None,
        };
        let owner_keys = self.owner_keys.clone();
        assert(owner_keys@ =~= self.owner_keys@);
        OnChainEntityState { address: self.address, access_controller, owner_keys }
    }
}

impl OnChainEntityState {
    pub fn new(
        address: AddressOfAccountOrPersona,
        access_controller: Option<AccessController>,
        owner_keys: Vec<PublicKeyHash>,
    ) -> (s: Self)
        ensures
            s.address == address,
            s.access_controller == access_controller,
            s.owner_keys@ == owner_keys@,
    {
        Self { address, access_controller, owner_keys }
    }

    /// The state of an unsecurified entity: no access controller, one owner key.
    pub fn unsecurified(owner: AddressOfAccountOrPersona, owner_key: PublicKeyHash) -> (s: Self)
        ensures
            s.address == owner,
            s.access_controller is None,
            s.owner_keys@ == seq![owner_key],
    {
        let keys = vec![owner_key];
        assert(keys@ =~= seq![owner_key]);
        Self::new(owner, None, keys)
    }

    /// The state of an entity securified with `access_controller`.
    pub fn securified(
        owner: AddressOfAccountOrPersona,
        access_controller: AccessController,
        owner_keys: Vec<PublicKeyHash>,
    ) -> (s: Self)
        ensures
            s.address == owner,
            s.access_controller == Some(access_controller),
            s.owner_keys@ == owner_keys@,
    {
        Self::new(owner, Some(access_controller), owner_keys)
    }

    pub fn address(&self) -> (a: AddressOfAccountOrPersona)
        ensures
            a == self.address,
    {
        self.address
    }

    /// The owner keys, each once, in order of first occurrence.
    pub fn owner_keys(&self) -> (keys: Vec<PublicKeyHash>)
        ensures
            keys@ == distinct_in_order(self.owner_keys@),
            keys@.no_duplicates(),
            keys@.to_set() == self.owner_keys@.to_set(),
    {
        let mut keys: Vec<PublicKeyHash> = Vec::new();
        let mut i: usize = 0;
        while i < self.owner_keys.len()
            invariant
                i <= self.owner_keys.len(),
                keys@ == distinct_in_order(self.owner_keys@.take(i as int)),
            decreases self.owner_keys.len() - i,
        {
            proof {
                assert(self.owner_keys@.take(i + 1).drop_last() =~= self.owner_keys@.take(i as int));
            }
            let k = self.owner_keys[i];
            let mut found = false;
            let mut j: usize = 0;
            while j < keys.len()
                invariant
                    j <= keys.len(),
                    found <==> exists|l: int| 0 <= l < j && keys@[l] == k,
                decreases keys.len() - j,
            {
                if keys[j] == k {
                    found = true;
                }
                j = j + 1;
            }
            if !found {
                keys.push(k);
            }
            i = i + 1;
        }
        assert(self.owner_keys@.take(i as int) =~= self.owner_keys@);
        proof {
            lemma_distinct_in_order(self.owner_keys@);
        }
        keys
    }

    pub fn is_securified(&self) -> (b: bool)
        ensures
            b == self.access_controller is Some,
    {
        self.access_controller.is_some()
    }

    /// A securified sample state with two owner keys.
    pub fn sample() -> (s: Self)
        ensures
            s.address == AddressOfAccountOrPersona::sample_spec(),
            s.access_controller == Some(
                AccessController { controlled_entity: AddressOfAccountOrPersona::sample_spec(), metadata: None },
            ),
            s.owner_keys@ == seq![PublicKeyHash::sample_spec(), PublicKeyHash::sample_other_spec()],
    {
        let keys = vec![PublicKeyHash::sample(), PublicKeyHash::sample_other()];
        assert(keys@ =~= seq![PublicKeyHash::sample_spec(), PublicKeyHash::sample_other_spec()]);
        Self::securified(AddressOfAccountOrPersona::sample(), AccessController::sample(), keys)
    }

    /// An unsecurified sample state.
    pub fn sample_other() -> (s: Self)
        ensures
            s.address == AddressOfAccountOrPersona::sample_spec(),
            s.access_controller is None,
            s.owner_keys@ == seq![PublicKeyHash::sample_other_spec()],
    {
        Self::unsecurified(AddressOfAccountOrPersona::sample(), PublicKeyHash::sample_other())
    }
}

} // verus!
