//! Text renderings of addresses: the kind of entity, the network, and the
//! public key hash in hexadecimal.
use vstd::prelude::*;
use crate::types::entities::{AccountAddress, AddressOfAccountOrPersona, IdentityAddress};
use crate::types::keys::PublicKeyHash;
use crate::types::network::NetworkID;

verus! {

/// The lower-case hexadecimal digit of `d`, for `d` below 16.
pub open spec fn hex_digit(d: nat) -> Seq<char> {
    if d == 0 { "0"@ }
    else if d == 1 { "1"@ }
    else if d == 2 { "2"@ }
    else if d == 3 { "3"@ }
    else if d == 4 { "4"@ }
    else if d == 5 { "5"@ }
    else if d == 6 { "6"@ }
    else if d == 7 { "7"@ }
    else if d == 8 { "8"@ }
    else if d == 9 { "9"@ }
    else if d == 10 { "a"@ }
    else if d == 11 { "b"@ }
    else if d == 12 { "c"@ }
    else if d == 13 { "d"@ }
    else if d == 14 { "e"@ }
    else { "f"@ }
}

/// The last `n` hexadecimal digits of `w`, most significant first.
pub open spec fn hex_digits(w: nat, n: nat) -> Seq<char>
    decreases n,
{
    if n == 0 {
        Seq::empty()
    } else {
        hex_digits(w / 16, (n - 1) as nat) + hex_digit(w % 16)
    }
}

/// The name of a network.
pub open spec fn network_text(n: NetworkID) -> Seq<char> {
    match n {
        NetworkID::Mainnet => "mainnet"@,
        NetworkID::Stokenet => "stokenet"@,
    }
}

/// A public key hash as 64 hexadecimal digits, word after word.
pub open spec fn hash_text(h: PublicKeyHash) -> Seq<char> {
    hex_digits(h.w0 as nat, 16) + hex_digits(h.w1 as nat, 16) + hex_digits(h.w2 as nat, 16) + hex_digits(h.w3 as nat, 16)
}

/// An account address as text: `account_`, the network, `_`, the hash.
pub open spec fn account_address_text(a: AccountAddress) -> Seq<char> {
    "account_"@ + network_text(a.network_id) + "_"@ + hash_text(a.public_key_hash)
}

/// An identity address as text: `identity_`, the network, `_`, the hash.
pub open spec fn identity_address_text(a: IdentityAddress) -> Seq<char> {
    "identity_"@ + network_text(a.network_id) + "_"@ + hash_text(a.public_key_hash)
}

/// The text of the account or identity address that `a` holds.
pub open spec fn address_text(a: AddressOfAccountOrPersona) -> Seq<char> {
    match a {
        AddressOfAccountOrPersona::Account(x) => account_address_text(x),
        AddressOfAccountOrPersona::Identity(x) => identity_address_text(x),
    }
}

/// The digit of `d`.
fn hex_digit_str(d: u64) -> (s: &'static str)
    requires
        d < 16,
    ensures
        s@ == hex_digit(d as nat),
{
    match d {
        0 => "0",
        1 => "1",
        2 => "2",
        3 => "3",
        4 => "4",
        5 => "5",
        6 => "6",
        7 => "7",
        8 => "8",
        9 => "9",
        10 => "a",
        11 => "b",
        12 => "c",
        13 => "d",
        14 => "e",
        _ => "f",
    }
}

/// Appends the last `n` hexadecimal digits of `w`.
fn append_hex(s: &mut String, w: u64, n: u32)
    ensures
        final(s)@ == old(s)@ + hex_digits(w as nat, n as nat),
    decreases n,
{
    if n > 0 {
        append_hex(s, w / 16, n - 1);
        let d = hex_digit_str(w % 16);
        s.append(d);
        assert(final(s)@ =~= old(s)@ + hex_digits(w as nat, n as nat)) by {
            assert((w / 16) as nat == (w as nat) / 16);
        }
    }
}

/// Appends the name of `n`.
fn append_network(s: &mut String, n: NetworkID)
    ensures
        final(s)@ == old(s)@ + network_text(n),
{
    match n {
        NetworkID::Mainnet => s.append("mainnet"),
        NetworkID::Stokenet => s.append("stokenet"),
    }
}

/// Appends the text of `h`.
fn append_hash(s: &mut String, h: &PublicKeyHash)
    ensures
        final(s)@ == old(s)@ + hash_text(*h),
{
    let ghost s0 = s@;
    append_hex(s, h.w0, 16);
    append_hex(s, h.w1, 16);
    append_hex(s, h.w2, 16);
    append_hex(s, h.w3, 16);
    assert(s@ =~= s0 + hash_text(*h));
}

/// The text of the account or identity address that `address` holds.
pub fn render_address(address: &AddressOfAccountOrPersona) -> (r: String)
    ensures
        r@ == address_text(*address),
{
    match address {
        AddressOfAccountOrPersona::Account(a) => {
            let mut s = String::from_str("account_");
            append_network(&mut s, a.network_id);
            s.append("_");
            append_hash(&mut s, &a.public_key_hash);
            assert(s@ =~= account_address_text(*a));
            s
        },
        AddressOfAccountOrPersona::Identity(a) => {
            let mut s = String::from_str("identity_");
            append_network(&mut s, a.network_id);
            s.append("_");
            append_hash(&mut s, &a.public_key_hash);
            assert(s@ =~= identity_address_text(*a));
            s
        },
    }
}

} // verus!
