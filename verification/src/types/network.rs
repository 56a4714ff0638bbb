use vstd::prelude::*;

verus! {

/// The network an entity or a derivation path lives on.
#[derive(Clone, Copy, Debug, PartialEq, Eq, Hash, Structural)]
pub enum NetworkID {
    Mainnet,
    Stokenet,
}

impl NetworkID {
    /// Every known network, in a stable order.
    pub fn all() -> (networks: Vec<NetworkID>)
        ensures
            networks@ == seq![NetworkID::Mainnet, NetworkID::Stokenet],
    {
        vec![NetworkID::Mainnet, NetworkID::Stokenet]
    }

    /// A small integer discriminating the network.
    pub fn discriminant(&self) -> (d: u8)
        ensures
            d == network_discriminant(*self),
    {
        match self {
            NetworkID::Mainnet => 1,
            NetworkID::Stokenet => 2,
        }
    }
}

pub open spec fn network_discriminant(n: NetworkID) -> u8 {
    match n {
        NetworkID::Mainnet => 1u8,
        NetworkID::Stokenet => 2u8,
    }
}

} // verus!

verus! {

impl crate::types::ordered_map::MapKey for NetworkID {
    fn same(&self, other: &Self) -> (b: bool) {
        *self == *other
    }
}

} // verus!
