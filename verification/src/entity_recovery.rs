//! What recovering entities decides once keys were derived at the recovery
//! paths and a gateway has answered: which entities are recovered, how each
//! is controlled, and which securified ones could not be.
use vstd::prelude::*;
use crate::gateway::{distinct_in_order, lemma_distinct_in_order, OnChainEntityState};
use crate::recovery::{
    found_instances, group_by_address, instances_reported_for, securified_security_state, unsecurified_security_state,
    EntityRecoveryOutcome, MatrixOfKeyHashes, UncoveredEntity,
};
use crate::types::derivation::CAP26EntityKind;
use crate::types::entities::{AccessControllerView, AddressOfAccountOrPersona, EntitySecurityState, IsEntity, ScryptoAccessRuleView};
use crate::types::error::CommonError;
use crate::types::factor_instances::{append_new, lemma_append_new, FactorInstances};
use crate::types::keys::{HierarchicalDeterministicFactorInstance, PublicKeyHash};
use crate::types::ordered_map::OrderedMap;
use crate::types::rendering::{address_text, render_address};

verus! {

/// The name a recovered unsecurified entity at `address` gets:
/// "Recovered Unsecurified: " and the text of its address.
pub open spec fn unsecurified_name(address: AddressOfAccountOrPersona) -> Seq<char> {
    "Recovered Unsecurified: "@ + address_text(address)
}

/// The name a recovered securified entity at `address` gets:
/// "Recovered Securified: " and the text of its address.
pub open spec fn securified_name(address: AddressOfAccountOrPersona) -> Seq<char> {
    "Recovered Securified: "@ + address_text(address)
}

/// The name of a recovered unsecurified entity at `address`.
fn recovered_unsecurified_name(address: &AddressOfAccountOrPersona) -> (name: String)
    ensures
        name@ == unsecurified_name(*address),
{
    let mut name = String::from_str("Recovered Unsecurified: ");
    let text = render_address(address);
    name.append(text.as_str());
    name
}

/// The name of a recovered securified entity at `address`.
fn recovered_securified_name(address: &AddressOfAccountOrPersona) -> (name: String)
    ensures
        name@ == securified_name(*address),
{
    let mut name = String::from_str("Recovered Securified: ");
    let text = render_address(address);
    name.append(text.as_str());
    name
}

/// A gateway's answer: for each public key hash, the addresses of the
/// entities whose owner keys hold it.
pub type AddressesPerHash = Seq<(PublicKeyHash, Vec<AddressOfAccountOrPersona>)>;

/// Each hash with the single address reported for it.
pub open spec fn reported_pairs(aph: AddressesPerHash) -> Seq<(PublicKeyHash, AddressOfAccountOrPersona)> {
    aph.map_values(|e: (PublicKeyHash, Vec<AddressOfAccountOrPersona>)| (e.0, e.1@[0]))
}

/// The addresses reported, each once, in order of first report.
pub open spec fn reported_addresses(aph: AddressesPerHash) -> Seq<AddressOfAccountOrPersona> {
    distinct_in_order(reported_pairs(aph).map_values(|e: (PublicKeyHash, AddressOfAccountOrPersona)| e.1))
}

/// Every address reported is of kind `kind`.
pub open spec fn all_of_kind(aph: AddressesPerHash, kind: CAP26EntityKind) -> bool {
    forall|i: int, j: int| 0 <= i < aph.len() && 0 <= j < aph[i].1@.len() ==> (#[trigger] aph[i].1@[j]).spec_entity_kind() == kind
}

/// The instances derived here whose hashes were reported for `a`, each once.
pub open spec fn matched_instances(
    aph: AddressesPerHash,
    m: OrderedMap<PublicKeyHash, HierarchicalDeterministicFactorInstance>,
    a: AddressOfAccountOrPersona,
) -> Seq<HierarchicalDeterministicFactorInstance> {
    append_new(Seq::<HierarchicalDeterministicFactorInstance>::empty(), instances_reported_for(reported_pairs(aph), m, a))
}

/// The ledger knows the entity at `a` and it is securified.
pub open spec fn securified_on_chain(on_chain: OrderedMap<AddressOfAccountOrPersona, OnChainEntityState>, a: AddressOfAccountOrPersona) -> bool {
    on_chain.spec_get(a) matches Some(s) && s.access_controller is Some
}

/// The access controller of the entity at `a`, if securified.
pub open spec fn controller_on_chain(on_chain: OrderedMap<AddressOfAccountOrPersona, OnChainEntityState>, a: AddressOfAccountOrPersona) -> Option<
    AccessControllerView,
> {
    match on_chain.spec_get(a) {
        Some(s) => s@.1,
        None => None,
    }
}

/// The rules the access controller of the entity at `a` enforces, if known.
pub open spec fn rules_on_chain(on_chain: OrderedMap<AddressOfAccountOrPersona, OnChainEntityState>, a: AddressOfAccountOrPersona) -> Option<
    ScryptoAccessRuleView,
> {
    match controller_on_chain(on_chain, a) {
        Some(c) => c.1,
        None => None,
    }
}

/// The instances derived here under the hashes of `hashes`, each once, in order.
pub open spec fn derived_under(hashes: Seq<PublicKeyHash>, m: OrderedMap<PublicKeyHash, HierarchicalDeterministicFactorInstance>) -> Seq<
    HierarchicalDeterministicFactorInstance,
> {
    append_new(Seq::<HierarchicalDeterministicFactorInstance>::empty(), found_instances(hashes, m))
}

/// How recovery treats the entity at an address.
pub enum RecoveryClass {
    /// Not securified: recovered as controlled by its matched instance.
    Unsecurified,
    /// Securified, with known rules and enough threshold factors derived.
    RecoveredSecurified,
    /// Securified, but its rules are not known or too few of its threshold
    /// factors were derived.
    UnrecoveredSecurified,
}

/// How recovery treats the entity at `a`.
pub open spec fn class_of(
    on_chain: OrderedMap<AddressOfAccountOrPersona, OnChainEntityState>,
    m: OrderedMap<PublicKeyHash, HierarchicalDeterministicFactorInstance>,
    a: AddressOfAccountOrPersona,
) -> RecoveryClass {
    if !securified_on_chain(on_chain, a) {
        RecoveryClass::Unsecurified
    } else if rules_on_chain(on_chain, a) matches Some(r) && derived_under(r.0, m).len() >= r.1 {
        RecoveryClass::RecoveredSecurified
    } else {
        RecoveryClass::UnrecoveredSecurified
    }
}

/// The addresses of `addrs` that recovery treats as `class`, in order.
pub open spec fn addresses_of_class(
    addrs: Seq<AddressOfAccountOrPersona>,
    on_chain: OrderedMap<AddressOfAccountOrPersona, OnChainEntityState>,
    m: OrderedMap<PublicKeyHash, HierarchicalDeterministicFactorInstance>,
    class: RecoveryClass,
) -> Seq<AddressOfAccountOrPersona>
    decreases addrs.len(),
{
    if addrs.len() == 0 {
        Seq::empty()
    } else {
        let rest = addresses_of_class(addrs.drop_last(), on_chain, m, class);
        if class_of(on_chain, m, addrs.last()) == class {
            rest.push(addrs.last())
        } else {
            rest
        }
    }
}

/// `st` is how recovery controls a securified entity whose controller is
/// `ac` with rules `r`: by the instances derived under the hashes of each
/// role, the threshold of `r`, and that controller.
pub open spec fn recovered_securified_state(
    st: EntitySecurityState,
    r: ScryptoAccessRuleView,
    m: OrderedMap<PublicKeyHash, HierarchicalDeterministicFactorInstance>,
    ac: AccessControllerView,
) -> bool {
    st matches EntitySecurityState::Securified(c) && c.matrix.threshold_factors@ == derived_under(r.0, m) && c.matrix.threshold == r.1
        && c.matrix.override_factors@ == derived_under(r.2, m) && c.access_controller@ == ac && c.veci is None
}

/// Every entity of `es` was recovered as unsecurified at the address of `addrs`
/// at its position, controlled by its one matched instance.
pub open spec fn unsecurified_ok<E: IsEntity>(
    es: Seq<E>,
    addrs: Seq<AddressOfAccountOrPersona>,
    aph: AddressesPerHash,
    m: OrderedMap<PublicKeyHash, HierarchicalDeterministicFactorInstance>,
) -> bool {
    &&& es.len() == addrs.len()
    &&& forall|j: int| 0 <= j < es.len() ==> {
        &&& (#[trigger] es[j]).spec_address() == addrs[j]
        &&& es[j].spec_security_state() == EntitySecurityState::Unsecured(matched_instances(aph, m, addrs[j])[0])
        &&& es[j].spec_name() == unsecurified_name(addrs[j])
    }
}

/// Every entity of `es` was recovered as securified at the address of
/// `addrs` at its position, controlled by the matrix its rules name.
pub open spec fn securified_ok<E: IsEntity>(
    es: Seq<E>,
    addrs: Seq<AddressOfAccountOrPersona>,
    on_chain: OrderedMap<AddressOfAccountOrPersona, OnChainEntityState>,
    m: OrderedMap<PublicKeyHash, HierarchicalDeterministicFactorInstance>,
) -> bool {
    &&& es.len() == addrs.len()
    &&& forall|j: int| 0 <= j < es.len() ==> {
        &&& (#[trigger] es[j]).spec_address() == addrs[j]
        &&& recovered_securified_state(
            es[j].spec_security_state(),
            rules_on_chain(on_chain, addrs[j]).unwrap(),
            m,
            controller_on_chain(on_chain, addrs[j]).unwrap(),
        )
        &&& es[j].spec_name() == securified_name(addrs[j])
    }
}

/// Every entity of `us` is the one at the address of `addrs` at its
/// position, as the ledger knows it, with no instance matched.
pub open spec fn unrecovered_ok(
    us: Seq<UncoveredEntity>,
    addrs: Seq<AddressOfAccountOrPersona>,
    on_chain: OrderedMap<AddressOfAccountOrPersona, OnChainEntityState>,
) -> bool {
    &&& us.len() == addrs.len()
    &&& forall|j: int| 0 <= j < us.len() ==> {
        &&& (#[trigger] us[j]).on_chain@ == on_chain.spec_get(addrs[j]).unwrap()@
        &&& us[j].key_hash_to_factor_instances@.len() == 0
    }
}

/// Whether every address reported is of kind `kind`.
fn reports_of_kind(aph: &OrderedMap<PublicKeyHash, Vec<AddressOfAccountOrPersona>>, kind: CAP26EntityKind) -> (b: bool)
    ensures
        b == all_of_kind(aph@, kind),
{
    let ghost s = aph@;
    let mut i: usize = 0;
    while i < aph.len()
        invariant
            i <= s.len(),
            s == aph@,
            forall|k: int, j: int| 0 <= k < i && 0 <= j < s[k].1@.len() ==> (#[trigger] s[k].1@[j]).spec_entity_kind() == kind,
        decreases s.len() - i,
    {
        let e = aph.get_index(i);
        let mut j: usize = 0;
        while j < e.1.len()
            invariant
                j <= e.1@.len(),
                i < s.len(),
                s == aph@,
                *e == s[i as int],
                forall|l: int| 0 <= l < j ==> (#[trigger] e.1@[l]).spec_entity_kind() == kind,
            decreases e.1@.len() - j,
        {
            if e.1[j].entity_kind() != kind {
                assert(!all_of_kind(s, kind)) by {
                    assert(s[i as int].1@[j as int].spec_entity_kind() != kind);
                }
                return false;
            }
            j = j + 1;
        }
        i = i + 1;
    }
    true
}

/// Each hash of `aph` with the single address reported for it.
fn single_reports(aph: &OrderedMap<PublicKeyHash, Vec<AddressOfAccountOrPersona>>) -> (v: Vec<(PublicKeyHash, AddressOfAccountOrPersona)>)
    requires
        forall|i: int| 0 <= i < aph@.len() ==> (#[trigger] aph@[i]).1@.len() == 1,
    ensures
        v@ == reported_pairs(aph@),
{
    let ghost s = aph@;
    let mut v: Vec<(PublicKeyHash, AddressOfAccountOrPersona)> = Vec::new();
    let mut i: usize = 0;
    while i < aph.len()
        invariant
            i <= s.len(),
            s == aph@,
            forall|k: int| 0 <= k < s.len() ==> (#[trigger] s[k]).1@.len() == 1,
            v@ == reported_pairs(s.take(i as int)),
        decreases s.len() - i,
    {
        let e = aph.get_index(i);
        assert(e.1@.len() == 1);
        v.push((e.0, e.1[0]));
        i = i + 1;
        assert(v@ =~= reported_pairs(s.take(i as int)));
    }
    assert(s.take(i as int) =~= s);
    v
}

/// The addresses of `pairs`, each once, in order of first occurrence.
fn distinct_addresses(pairs: &Vec<(PublicKeyHash, AddressOfAccountOrPersona)>) -> (v: Vec<AddressOfAccountOrPersona>)
    ensures
        v@ == distinct_in_order(pairs@.map_values(|e: (PublicKeyHash, AddressOfAccountOrPersona)| e.1)),
{
    let ghost all = pairs@.map_values(|e: (PublicKeyHash, AddressOfAccountOrPersona)| e.1);
    let mut v: Vec<AddressOfAccountOrPersona> = Vec::new();
    let mut i: usize = 0;
    while i < pairs.len()
        invariant
            i <= pairs@.len(),
            all == pairs@.map_values(|e: (PublicKeyHash, AddressOfAccountOrPersona)| e.1),
            v@ == distinct_in_order(all.take(i as int)),
        decreases pairs@.len() - i,
    {
        let a = pairs[i].1;
        proof {
            assert(all.take(i + 1).drop_last() =~= all.take(i as int));
            assert(all.take(i + 1).last() == a);
        }
        let mut found = false;
        let mut j: usize = 0;
        while j < v.len()
            invariant
                j <= v@.len(),
                found <==> exists|l: int| 0 <= l < j && v@[l] == a,
            decreases v@.len() - j,
        {
            if v[j] == a {
                found = true;
            }
            j = j + 1;
        }
        if !found {
            v.push(a);
        }
        i = i + 1;
    }
    assert(all.take(i as int) =~= all);
    v
}

/// A reported address is among the addresses of the reports, which are all
/// of kind `kind` when the reports are.
proof fn lemma_reported_kind(aph: AddressesPerHash, kind: CAP26EntityKind, a: AddressOfAccountOrPersona)
    requires
        forall|i: int| 0 <= i < aph.len() ==> (#[trigger] aph[i]).1@.len() == 1,
        all_of_kind(aph, kind),
        reported_addresses(aph).contains(a),
    ensures
        a.spec_entity_kind() == kind,
{
    let all = reported_pairs(aph).map_values(|e: (PublicKeyHash, AddressOfAccountOrPersona)| e.1);
    lemma_distinct_in_order(all);
    assert(distinct_in_order(all).to_set().contains(a));
    assert(all.to_set().contains(a));
    let k = choose|k: int| 0 <= k < all.len() && all[k] == a;
    assert(aph[k].1@.len() == 1);
    assert(aph[k].1@[0] == a);
}

/// Whether `recover_entities` can decide on these answers: each hash was
/// reported for exactly one address, each hash was derived here, and each
/// entity the ledger does not know as securified matches exactly one
/// instance (recovery panics otherwise).
pub fn answers_fit(
    map_hash_to_factor: &OrderedMap<PublicKeyHash, HierarchicalDeterministicFactorInstance>,
    addresses_per_hash: &OrderedMap<PublicKeyHash, Vec<AddressOfAccountOrPersona>>,
    on_chain: &OrderedMap<AddressOfAccountOrPersona, OnChainEntityState>,
) -> (b: bool)
    ensures
        b == ({
            &&& forall|i: int| 0 <= i < addresses_per_hash@.len() ==> (#[trigger] addresses_per_hash@[i]).1@.len() == 1
            &&& forall|i: int| 0 <= i < addresses_per_hash@.len() ==> (#[trigger] map_hash_to_factor.spec_get(addresses_per_hash@[i].0)) is Some
            &&& forall|a: AddressOfAccountOrPersona| reported_addresses(addresses_per_hash@).contains(a) && !securified_on_chain(*on_chain, a)
                ==> #[trigger] matched_instances(addresses_per_hash@, *map_hash_to_factor, a).len() == 1
        }),
{
    let ghost aph = addresses_per_hash@;
    let mut i: usize = 0;
    while i < addresses_per_hash.len()
        invariant
            i <= aph.len(),
            aph == addresses_per_hash@,
            forall|k: int| 0 <= k < i ==> (#[trigger] aph[k]).1@.len() == 1,
            forall|k: int| 0 <= k < i ==> (#[trigger] map_hash_to_factor.spec_get(aph[k].0)) is Some,
        decreases aph.len() - i,
    {
        let e = addresses_per_hash.get_index(i);
        if e.1.len() != 1 {
            assert(aph[i as int].1@.len() != 1);
            return false;
        }
        if !map_hash_to_factor.contains_key(&e.0) {
            assert(map_hash_to_factor.spec_get(aph[i as int].0) is None);
            return false;
        }
        i = i + 1;
    }
    let pairs = single_reports(addresses_per_hash);
    proof {
        assert forall|k: int| 0 <= k < pairs@.len() implies (#[trigger] map_hash_to_factor.spec_get(pairs@[k].0)) is Some by {
            assert(pairs@[k].0 == aph[k].0);
        }
    }
    let grouped = group_by_address(map_hash_to_factor, &pairs);
    let addrs = distinct_addresses(&pairs);
    let ghost m = *map_hash_to_factor;
    let ghost oc = *on_chain;
    let mut j: usize = 0;
    while j < addrs.len()
        invariant
            j <= addrs@.len(),
            addrs@ == reported_addresses(aph),
            aph == addresses_per_hash@,
            m == *map_hash_to_factor,
            oc == *on_chain,
            pairs@ == reported_pairs(aph),
            forall|a: AddressOfAccountOrPersona| #[trigger] grouped.spec_get(a) matches Some(fi) ==> fi@ == append_new(
                Seq::<HierarchicalDeterministicFactorInstance>::empty(),
                instances_reported_for(pairs@, m, a),
            ),
            forall|a: AddressOfAccountOrPersona| #[trigger] grouped.spec_has(a) == (instances_reported_for(pairs@, m, a).len() > 0),
            forall|l: int| 0 <= l < j && !securified_on_chain(oc, #[trigger] addrs@[l]) ==> matched_instances(aph, m, addrs@[l]).len() == 1,
        decreases addrs@.len() - j,
    {
        let a = addrs[j];
        let securified = match on_chain.get(&a) {
            Some(s) => s.is_securified(),
            None => false,
        };
        if !securified {
            let ok = match grouped.get(&a) {
                Some(fi) => fi.len() == 1,
                None => false,
            };
            if !ok {
                proof {
                    assert(addrs@.contains(a)) by {
                        assert(addrs@[j as int] == a);
                    }
                    assert(!securified_on_chain(oc, a));
                    if !grouped.spec_has(a) {
                        assert(instances_reported_for(pairs@, m, a).len() == 0);
                        assert(instances_reported_for(pairs@, m, a) =~= Seq::<HierarchicalDeterministicFactorInstance>::empty());
                    }
                    assert(matched_instances(aph, m, a).len() != 1);
                }
                return false;
            }
        }
        j = j + 1;
    }
    proof {
        assert forall|a: AddressOfAccountOrPersona| reported_addresses(aph).contains(a) && !securified_on_chain(oc, a)
            implies #[trigger] matched_instances(aph, m, a).len() == 1 by {
            let l = choose|l: int| 0 <= l < addrs@.len() && addrs@[l] == a;
        }
    }
    true
}

/// What recovery decides, given the instances derived here by the hash of
/// their public key, a gateway's `addresses_per_hash` for those hashes, and
/// the gateway's state of each address reported. An entity the ledger does
/// not know as securified is recovered as unsecurified, controlled by its
/// one matched instance. A securified one is recovered with the matrix of
/// the instances derived under the hashes its rules name, or reported as not
/// recovered when its rules are unknown or too few threshold factors were
/// derived. The entities come in order of first report. An address of
/// another kind than `E` is an error.
///
/// Each hash is reported for one address, each hash was derived here, and an
/// entity not securified on ledger matches exactly one instance.
pub fn recover_entities<E: IsEntity>(
    map_hash_to_factor: &OrderedMap<PublicKeyHash, HierarchicalDeterministicFactorInstance>,
    addresses_per_hash: &OrderedMap<PublicKeyHash, Vec<AddressOfAccountOrPersona>>,
    on_chain: &OrderedMap<AddressOfAccountOrPersona, OnChainEntityState>,
) -> (r: Result<EntityRecoveryOutcome<E>, CommonError>)
    requires
        forall|i: int| 0 <= i < addresses_per_hash@.len() ==> (#[trigger] addresses_per_hash@[i]).1@.len() == 1,
        forall|i: int| 0 <= i < addresses_per_hash@.len() ==> (#[trigger] map_hash_to_factor.spec_get(addresses_per_hash@[i].0)) is Some,
        forall|a: AddressOfAccountOrPersona| reported_addresses(addresses_per_hash@).contains(a) && !securified_on_chain(*on_chain, a)
            ==> #[trigger] matched_instances(addresses_per_hash@, *map_hash_to_factor, a).len() == 1,
    ensures
        r is Err <==> !all_of_kind(addresses_per_hash@, E::spec_kind()),
        r is Err ==> r == Err::<EntityRecoveryOutcome<E>, CommonError>(CommonError::AddressConversionError),
        r matches Ok(out) ==> {
            let addrs = reported_addresses(addresses_per_hash@);
            &&& unsecurified_ok(
                out.recovered_unsecurified@,
                addresses_of_class(addrs, *on_chain, *map_hash_to_factor, RecoveryClass::Unsecurified),
                addresses_per_hash@,
                *map_hash_to_factor,
            )
            &&& securified_ok(
                out.recovered_securified@,
                addresses_of_class(addrs, *on_chain, *map_hash_to_factor, RecoveryClass::RecoveredSecurified),
                *on_chain,
                *map_hash_to_factor,
            )
            &&& unrecovered_ok(
                out.unrecovered@,
                addresses_of_class(addrs, *on_chain, *map_hash_to_factor, RecoveryClass::UnrecoveredSecurified),
                *on_chain,
            )
        },
{
    let kind = E::kind();
    if !reports_of_kind(addresses_per_hash, kind) {
        return Err(CommonError::AddressConversionError);
    }
    let pairs = single_reports(addresses_per_hash);
    proof {
        assert forall|i: int| 0 <= i < pairs@.len() implies (#[trigger] map_hash_to_factor.spec_get(pairs@[i].0)) is Some by {
            assert(pairs@[i].0 == addresses_per_hash@[i].0);
        }
    }
    let grouped = group_by_address(map_hash_to_factor, &pairs);
    let addrs = distinct_addresses(&pairs);
    let ghost aph = addresses_per_hash@;
    let ghost m = *map_hash_to_factor;
    let ghost oc = *on_chain;
    let ghost all_addrs = addrs@;
    let mut unsecurified: Vec<E> = Vec::new();
    let mut securified: Vec<E> = Vec::new();
    let mut unrecovered: Vec<UncoveredEntity> = Vec::new();
    let mut i: usize = 0;
    while i < addrs.len()
        invariant
            i <= all_addrs.len(),
            all_addrs == addrs@,
            all_addrs == reported_addresses(aph),
            aph == addresses_per_hash@,
            m == *map_hash_to_factor,
            oc == *on_chain,
            pairs@ == reported_pairs(aph),
            all_of_kind(aph, E::spec_kind()),
            forall|k: int| 0 <= k < aph.len() ==> (#[trigger] aph[k]).1@.len() == 1,
            forall|a: AddressOfAccountOrPersona| reported_addresses(aph).contains(a) && !securified_on_chain(oc, a)
                ==> #[trigger] matched_instances(aph, m, a).len() == 1,
            forall|a: AddressOfAccountOrPersona| #[trigger] grouped.spec_get(a) matches Some(fi) ==> fi@ == append_new(
                Seq::<HierarchicalDeterministicFactorInstance>::empty(),
                instances_reported_for(pairs@, m, a),
            ),
            forall|a: AddressOfAccountOrPersona| #[trigger] grouped.spec_has(a) == (instances_reported_for(pairs@, m, a).len() > 0),
            unsecurified_ok(unsecurified@, addresses_of_class(all_addrs.take(i as int), oc, m, RecoveryClass::Unsecurified), aph, m),
            securified_ok(securified@, addresses_of_class(all_addrs.take(i as int), oc, m, RecoveryClass::RecoveredSecurified), oc, m),
            unrecovered_ok(unrecovered@, addresses_of_class(all_addrs.take(i as int), oc, m, RecoveryClass::UnrecoveredSecurified), oc),
        decreases all_addrs.len() - i,
    {
        let a = addrs[i];
        proof {
            assert(all_addrs.take(i + 1).drop_last() =~= all_addrs.take(i as int));
            assert(all_addrs.take(i + 1).last() == a);
            assert(all_addrs.contains(a));
            lemma_reported_kind(aph, E::spec_kind(), a);
        }
        let ghost u0 = addresses_of_class(all_addrs.take(i as int), oc, m, RecoveryClass::Unsecurified);
        let ghost s0 = addresses_of_class(all_addrs.take(i as int), oc, m, RecoveryClass::RecoveredSecurified);
        let ghost n0 = addresses_of_class(all_addrs.take(i as int), oc, m, RecoveryClass::UnrecoveredSecurified);
        let state = on_chain.get(&a);
        let securified_state: Option<&OnChainEntityState> = match state {
            Some(s) => if s.is_securified() {
                Some(s)
            } else {
                None
            },
            None => None,
        };
        match securified_state {
            None => {
                assert(!securified_on_chain(oc, a));
                assert(matched_instances(aph, m, a).len() == 1);
                assert(instances_reported_for(pairs@, m, a).len() > 0) by {
                    lemma_append_new(Seq::<HierarchicalDeterministicFactorInstance>::empty(), instances_reported_for(pairs@, m, a));
                }
                assert(grouped.spec_has(a));
                let fi = match grouped.get(&a) {
                    Some(fi) => fi,
                    None => {
                        proof {
                            assert(false);
                        }
                        return Err(CommonError::AddressConversionError);
                    },
                };
                let st = unsecurified_security_state(fi);
                let name = recovered_unsecurified_name(&a);
                let e = E::new(name, a, st);
                unsecurified.push(e);
                proof {
                    assert(addresses_of_class(all_addrs.take(i + 1), oc, m, RecoveryClass::Unsecurified) == u0.push(a));
                    assert(addresses_of_class(all_addrs.take(i + 1), oc, m, RecoveryClass::RecoveredSecurified) == s0);
                    assert(addresses_of_class(all_addrs.take(i + 1), oc, m, RecoveryClass::UnrecoveredSecurified) == n0);
                    let us = unsecurified@;
                    let ua = u0.push(a);
                    assert forall|j: int| 0 <= j < us.len() implies {
                        &&& (#[trigger] us[j]).spec_address() == ua[j]
                        &&& us[j].spec_security_state() == EntitySecurityState::Unsecured(matched_instances(aph, m, ua[j])[0])
                        &&& us[j].spec_name() == unsecurified_name(ua[j])
                    } by {
                        if j < us.len() - 1 {
                            assert(us[j] == unsecurified@.drop_last()[j]);
                        }
                    }
                }
            },
            Some(s) => {
                let ghost sv = s@;
                assert(oc.spec_get(a) == Some(*s));
                assert(securified_on_chain(oc, a));
                let ac = match &s.access_controller {
                    Some(ac) => ac,
                    None => {
                        proof {
                            assert(false);
                        }
                        return Err(CommonError::AddressConversionError);
                    },
                };
                assert(controller_on_chain(oc, a) == Some(ac@));
                let recovered = match MatrixOfKeyHashes::from_access_controller(ac) {
                    Some(matrix_of_hashes) => securified_security_state(&matrix_of_hashes, map_hash_to_factor, ac.clone()),
                    None => None,
                };
                match recovered {
                    Some(st) => {
                        assert(class_of(oc, m, a) == RecoveryClass::RecoveredSecurified);
                        let name = recovered_securified_name(&a);
                        let e = E::new(name, a, st);
                        securified.push(e);
                        proof {
                            assert(addresses_of_class(all_addrs.take(i + 1), oc, m, RecoveryClass::Unsecurified) == u0);
                            assert(addresses_of_class(all_addrs.take(i + 1), oc, m, RecoveryClass::RecoveredSecurified) == s0.push(a));
                            assert(addresses_of_class(all_addrs.take(i + 1), oc, m, RecoveryClass::UnrecoveredSecurified) == n0);
                            let ss = securified@;
                            let sa = s0.push(a);
                            assert forall|j: int| 0 <= j < ss.len() implies {
                                &&& (#[trigger] ss[j]).spec_address() == sa[j]
                                &&& recovered_securified_state(
                                    ss[j].spec_security_state(),
                                    rules_on_chain(oc, sa[j]).unwrap(),
                                    m,
                                    controller_on_chain(oc, sa[j]).unwrap(),
                                )
                                &&& ss[j].spec_name() == securified_name(sa[j])
                            } by {
                                if j < ss.len() - 1 {
                                    assert(ss[j] == securified@.drop_last()[j]);
                                }
                            }
                        }
                    },
                    None => {
                        assert(class_of(oc, m, a) == RecoveryClass::UnrecoveredSecurified);
                        let uncovered = UncoveredEntity::new(s.clone(), OrderedMap::new());
                        unrecovered.push(uncovered);
                        proof {
                            assert(addresses_of_class(all_addrs.take(i + 1), oc, m, RecoveryClass::Unsecurified) == u0);
                            assert(addresses_of_class(all_addrs.take(i + 1), oc, m, RecoveryClass::RecoveredSecurified) == s0);
                            assert(addresses_of_class(all_addrs.take(i + 1), oc, m, RecoveryClass::UnrecoveredSecurified) == n0.push(a));
                            let ns = unrecovered@;
                            let na = n0.push(a);
                            assert forall|j: int| 0 <= j < ns.len() implies {
                                &&& (#[trigger] ns[j]).on_chain@ == oc.spec_get(na[j]).unwrap()@
                                &&& ns[j].key_hash_to_factor_instances@.len() == 0
                            } by {
                                if j < ns.len() - 1 {
                                    assert(ns[j] == unrecovered@.drop_last()[j]);
                                }
                            }
                        }
                    },
                }
            },
        }
        i = i + 1;
    }
    assert(all_addrs.take(i as int) =~= all_addrs);
    Ok(EntityRecoveryOutcome::new(unsecurified, securified, unrecovered))
}

} // verus!
