use vstd::prelude::*;
use crate::factor_instances_provider::next_index_assigner::assigner::instances_of;
use crate::factor_instances_provider::provider::outcome::all_of_factor;
use crate::types::appendable::OrderedSet;
use crate::types::derivation::{CAP26EntityKind, CAP26KeyKind, DerivationPath, HDPathComponent, KeySpace};
use crate::types::error::CommonError;
use crate::types::factor_instances::{append_new, lemma_append_new, lemma_append_new_disjoint, FactorInstances};
use crate::types::keys::{FactorSourceIDFromHash, HierarchicalDeterministicFactorInstance};
use crate::types::network::NetworkID;
use crate::types::ordered_map::{entries_keys, lemma_entries_get_at, MapKey, OrderedMap};

verus! {

/// The number of instances of each template a full cache holds for a factor
/// source.
pub const CACHE_SIZE: usize = 30;

/// What a factor instance is for: entity kind and key space, always for
/// transaction signing.
#[derive(Clone, Copy, Debug, PartialEq, Eq, Hash, Structural)]
pub enum DerivationTemplate {
    /// Account, unsecurified: virtual entity creating instances.
    AccountVeci,
    /// Account, securified.
    AccountMfa,
    /// Identity, unsecurified: virtual entity creating instances.
    IdentityVeci,
    /// Identity, securified.
    IdentityMfa,
}

pub open spec fn template_entity_kind(t: DerivationTemplate) -> CAP26EntityKind {
    match t {
        DerivationTemplate::AccountVeci | DerivationTemplate::AccountMfa => CAP26EntityKind::Account,
        DerivationTemplate::IdentityVeci | DerivationTemplate::IdentityMfa => CAP26EntityKind::Identity,
    }
}

pub open spec fn template_key_space(t: DerivationTemplate) -> KeySpace {
    match t {
        DerivationTemplate::AccountVeci | DerivationTemplate::IdentityVeci => KeySpace::Unsecurified,
        DerivationTemplate::AccountMfa | DerivationTemplate::IdentityMfa => KeySpace::Securified,
    }
}

/// The error for an instance at `p` that is not of entity kind `ek` in key
/// space `ks` for transaction signing, the entity kind checked first, then
/// the key space, then the key kind; none if it is.
pub open spec fn kind_error(p: DerivationPath, ek: CAP26EntityKind, ks: KeySpace) -> Option<CommonError> {
    if p.entity_kind != ek {
        Some(CommonError::EntityKindDiscrepancy)
    } else if p.index.spec_key_space() != ks {
        Some(CommonError::KeySpaceDiscrepancy)
    } else if p.key_kind != CAP26KeyKind::TransactionSigning {
        Some(CommonError::KeyKindDiscrepancy)
    } else {
        None
    }
}

/// `p` is a path of template `t`.
pub open spec fn is_of_template(p: DerivationPath, t: DerivationTemplate) -> bool {
    kind_error(p, template_entity_kind(t), template_key_space(t)) is None
}

impl DerivationTemplate {
    /// Every template.
    pub fn all() -> (v: Vec<DerivationTemplate>)
        ensures
            v@ == seq![
                DerivationTemplate::AccountVeci,
                DerivationTemplate::AccountMfa,
                DerivationTemplate::IdentityVeci,
                DerivationTemplate::IdentityMfa,
            ],
    {
        let v = vec![
            DerivationTemplate::AccountVeci,
            DerivationTemplate::AccountMfa,
            DerivationTemplate::IdentityVeci,
            DerivationTemplate::IdentityMfa,
        ];
        assert(v@ =~= seq![
            DerivationTemplate::AccountVeci,
            DerivationTemplate::AccountMfa,
            DerivationTemplate::IdentityVeci,
            DerivationTemplate::IdentityMfa,
        ]);
        v
    }

    pub fn entity_kind(&self) -> (k: CAP26EntityKind)
        ensures
            k == template_entity_kind(*self),
    {
        match self {
            DerivationTemplate::AccountVeci | DerivationTemplate::AccountMfa => CAP26EntityKind::Account,
            DerivationTemplate::IdentityVeci | DerivationTemplate::IdentityMfa => CAP26EntityKind::Identity,
        }
    }

    pub fn key_space(&self) -> (k: KeySpace)
        ensures
            k == template_key_space(*self),
    {
        match self {
            DerivationTemplate::AccountVeci | DerivationTemplate::IdentityVeci => KeySpace::Unsecurified,
            DerivationTemplate::AccountMfa | DerivationTemplate::IdentityMfa => KeySpace::Securified,
        }
    }

    /// Always transaction signing.
    pub fn key_kind(&self) -> (k: CAP26KeyKind)
        ensures
            k == CAP26KeyKind::TransactionSigning,
    {
        CAP26KeyKind::TransactionSigning
    }
}

impl MapKey for DerivationTemplate {
    fn same(&self, other: &Self) -> (b: bool) {
        *self == *other
    }
}

impl MapKey for DerivationPath {
    fn same(&self, other: &Self) -> (b: bool) {
        *self == *other
    }
}

/// Checks that `instance` is of entity kind `ek` in key space `ks` for
/// transaction signing.
fn check_kind(instance: &HierarchicalDeterministicFactorInstance, ek: CAP26EntityKind, ks: KeySpace) -> (r:
    Result<(), CommonError>)
    ensures
        match kind_error(instance.spec_path(), ek, ks) {
            Some(e) => r == Err::<(), CommonError>(e),
            None => r is Ok,
        },
{
    let p = instance.derivation_path();
    if p.entity_kind != ek {
        return Err(CommonError::EntityKindDiscrepancy);
    }
    if p.key_space() != ks {
        return Err(CommonError::KeySpaceDiscrepancy);
    }
    if p.key_kind != CAP26KeyKind::TransactionSigning {
        return Err(CommonError::KeyKindDiscrepancy);
    }
    Ok(())
}

/// A factor instance, read through the parts of its derivation path.
pub trait IsHDFactorInstance {
    spec fn spec_instance(&self) -> HierarchicalDeterministicFactorInstance;

    fn instance(&self) -> (i: HierarchicalDeterministicFactorInstance)
        ensures
            i == self.spec_instance(),
    ;

    fn derivation_path(&self) -> (p: DerivationPath)
        ensures
            p == self.spec_instance().spec_path(),
    {
        self.instance().derivation_path()
    }

    fn derivation_entity_index(&self) -> (i: HDPathComponent)
        ensures
            i == self.spec_instance().spec_path().index,
    {
        self.derivation_path().index
    }

    fn network_id(&self) -> (n: NetworkID)
        ensures
            n == self.spec_instance().spec_path().network_id,
    {
        self.derivation_path().network_id
    }

    fn factor_source_id(&self) -> (f: FactorSourceIDFromHash)
        ensures
            f == self.spec_instance().factor_source_id,
    {
        self.instance().factor_source_id()
    }
}

/// An instance for an unsecurified account: account, unsecurified,
/// transaction signing.
#[derive(Clone, Copy, Debug, PartialEq, Eq, Hash)]
pub struct AccountVeci {
    instance: HierarchicalDeterministicFactorInstance,
}

impl AccountVeci {
    #[verifier::type_invariant]
    spec fn of_template(self) -> bool {
        is_of_template(self.instance.spec_path(), DerivationTemplate::AccountVeci)
    }

    /// The instance, or the first discrepancy of its path.
    pub fn new(instance: HierarchicalDeterministicFactorInstance) -> (r: Result<Self, CommonError>)
        ensures
            match kind_error(instance.spec_path(), CAP26EntityKind::Account, KeySpace::Unsecurified) {
                Some(e) => r == Err::<Self, CommonError>(e),
                None => r matches Ok(v) && v.spec_instance() == instance,
            },
    {
        match check_kind(&instance, CAP26EntityKind::Account, KeySpace::Unsecurified) {
            Ok(()) => Ok(Self { instance }),
            Err(e) => Err(e),
        }
    }
}

impl IsHDFactorInstance for AccountVeci {
    closed spec fn spec_instance(&self) -> HierarchicalDeterministicFactorInstance {
        self.instance
    }

    fn instance(&self) -> (i: HierarchicalDeterministicFactorInstance) {
        self.instance
    }
}

/// An instance for an unsecurified persona: identity, unsecurified,
/// transaction signing.
#[derive(Clone, Copy, Debug, PartialEq, Eq, Hash)]
pub struct IdentityVeci {
    instance: HierarchicalDeterministicFactorInstance,
}

impl IdentityVeci {
    #[verifier::type_invariant]
    spec fn of_template(self) -> bool {
        is_of_template(self.instance.spec_path(), DerivationTemplate::IdentityVeci)
    }

    /// The instance, or the first discrepancy of its path.
    pub fn new(instance: HierarchicalDeterministicFactorInstance) -> (r: Result<Self, CommonError>)
        ensures
            match kind_error(instance.spec_path(), CAP26EntityKind::Identity, KeySpace::Unsecurified) {
                Some(e) => r == Err::<Self, CommonError>(e),
                None => r matches Ok(v) && v.spec_instance() == instance,
            },
    {
        match check_kind(&instance, CAP26EntityKind::Identity, KeySpace::Unsecurified) {
            Ok(()) => Ok(Self { instance }),
            Err(e) => Err(e),
        }
    }
}

impl IsHDFactorInstance for IdentityVeci {
    closed spec fn spec_instance(&self) -> HierarchicalDeterministicFactorInstance {
        self.instance
    }

    fn instance(&self) -> (i: HierarchicalDeterministicFactorInstance) {
        self.instance
    }
}

/// An instance for a securified account: account, securified, transaction
/// signing.
#[derive(Clone, Copy, Debug, PartialEq, Eq, Hash)]
pub struct AccountMfaFactorInstance {
    instance: HierarchicalDeterministicFactorInstance,
}

impl AccountMfaFactorInstance {
    #[verifier::type_invariant]
    spec fn of_template(self) -> bool {
        is_of_template(self.instance.spec_path(), DerivationTemplate::AccountMfa)
    }

    /// The instance, or the first discrepancy of its path.
    pub fn new(instance: HierarchicalDeterministicFactorInstance) -> (r: Result<Self, CommonError>)
        ensures
            match kind_error(instance.spec_path(), CAP26EntityKind::Account, KeySpace::Securified) {
                Some(e) => r == Err::<Self, CommonError>(e),
                None => r matches Ok(v) && v.spec_instance() == instance,
            },
    {
        match check_kind(&instance, CAP26EntityKind::Account, KeySpace::Securified) {
            Ok(()) => Ok(Self { instance }),
            Err(e) => Err(e),
        }
    }
}

impl IsHDFactorInstance for AccountMfaFactorInstance {
    closed spec fn spec_instance(&self) -> HierarchicalDeterministicFactorInstance {
        self.instance
    }

    fn instance(&self) -> (i: HierarchicalDeterministicFactorInstance) {
        self.instance
    }
}

/// An instance for a securified persona: identity, securified, transaction
/// signing.
#[derive(Clone, Copy, Debug, PartialEq, Eq, Hash)]
pub struct IdentityMfaFactorInstance {
    instance: HierarchicalDeterministicFactorInstance,
}

impl IdentityMfaFactorInstance {
    #[verifier::type_invariant]
    spec fn of_template(self) -> bool {
        is_of_template(self.instance.spec_path(), DerivationTemplate::IdentityMfa)
    }

    /// The instance, or the first discrepancy of its path.
    pub fn new(instance: HierarchicalDeterministicFactorInstance) -> (r: Result<Self, CommonError>)
        ensures
            match kind_error(instance.spec_path(), CAP26EntityKind::Identity, KeySpace::Securified) {
                Some(e) => r == Err::<Self, CommonError>(e),
                None => r matches Ok(v) && v.spec_instance() == instance,
            },
    {
        match check_kind(&instance, CAP26EntityKind::Identity, KeySpace::Securified) {
            Ok(()) => Ok(Self { instance }),
            Err(e) => Err(e),
        }
    }
}

impl IsHDFactorInstance for IdentityMfaFactorInstance {
    closed spec fn spec_instance(&self) -> HierarchicalDeterministicFactorInstance {
        self.instance
    }

    fn instance(&self) -> (i: HierarchicalDeterministicFactorInstance) {
        self.instance
    }
}

/// Every instance of `s` is on network `n`.
pub open spec fn all_on_network(s: Seq<HierarchicalDeterministicFactorInstance>, n: NetworkID) -> bool {
    forall|x: HierarchicalDeterministicFactorInstance| #[trigger] s.contains(x) ==> x.spec_path().network_id == n
}

/// Every instance of `s` has a path of template `t`.
pub open spec fn all_of_template(s: Seq<HierarchicalDeterministicFactorInstance>, t: DerivationTemplate) -> bool {
    forall|x: HierarchicalDeterministicFactorInstance| #[trigger] s.contains(x) ==> is_of_template(x.spec_path(), t)
}

/// The instances of `s` of template `t`, in order.
pub open spec fn of_template(s: Seq<HierarchicalDeterministicFactorInstance>, t: DerivationTemplate) -> Seq<
    HierarchicalDeterministicFactorInstance,
>
    decreases s.len(),
{
    if s.len() == 0 {
        Seq::empty()
    } else {
        let rest = of_template(s.drop_last(), t);
        if is_of_template(s.last().spec_path(), t) {
            rest.push(s.last())
        } else {
            rest
        }
    }
}

/// The index of the first instance of `b` comes after the index of the last
/// instance of `a`, where both have some.
pub open spec fn continues_after(a: Seq<HierarchicalDeterministicFactorInstance>, b: Seq<HierarchicalDeterministicFactorInstance>) -> bool {
    a.len() > 0 && b.len() > 0 ==> b[0].spec_path().index.spec_value() > a.last().spec_path().index.spec_value()
}

/// `a` and `b` share no instance.
pub open spec fn disjoint(a: Seq<HierarchicalDeterministicFactorInstance>, b: Seq<HierarchicalDeterministicFactorInstance>) -> bool {
    forall|x: HierarchicalDeterministicFactorInstance| #[trigger] b.contains(x) ==> !a.contains(x)
}

/// The collections of instances of one factor source on one network, one
/// per template.
#[derive(Debug, PartialEq, Eq)]
pub struct CollectionsOfFactorInstances {
    pub network: NetworkID,
    pub factor_source_id: FactorSourceIDFromHash,
    pub account_veci: FactorInstances,
    pub account_mfa: FactorInstances,
    pub identity_veci: FactorInstances,
    pub identity_mfa: FactorInstances,
}

/// Network, factor source and the four collections.
pub type CollectionsView = (
    NetworkID,
    FactorSourceIDFromHash,
    Seq<HierarchicalDeterministicFactorInstance>,
    Seq<HierarchicalDeterministicFactorInstance>,
    Seq<HierarchicalDeterministicFactorInstance>,
    Seq<HierarchicalDeterministicFactorInstance>,
);

impl View for CollectionsOfFactorInstances {
    type V = CollectionsView;

    open spec fn view(&self) -> CollectionsView {
        (self.network, self.factor_source_id, self.account_veci@, self.account_mfa@, self.identity_veci@, self.identity_mfa@)
    }
}

impl Clone for CollectionsOfFactorInstances {
    fn clone(&self) -> (c: Self)
        ensures
            c@ == self@,
    {
        Self {
            network: self.network,
            factor_source_id: self.factor_source_id,
            account_veci: self.account_veci.clone(),
            account_mfa: self.account_mfa.clone(),
            identity_veci: self.identity_veci.clone(),
            identity_mfa: self.identity_mfa.clone(),
        }
    }
}

impl CollectionsOfFactorInstances {
    /// The first account veci, taken out; the others keep their order, so
    /// that the next one comes next.
    pub fn take_first_account_veci(&mut self) -> (r: Option<AccountVeci>)
        requires
            old(self).well_formed(),
        ensures
            final(self).network == old(self).network,
            final(self).factor_source_id == old(self).factor_source_id,
            final(self).account_mfa@ == old(self).account_mfa@,
            final(self).identity_veci@ == old(self).identity_veci@,
            final(self).identity_mfa@ == old(self).identity_mfa@,
            old(self).account_veci@.len() == 0 ==> r is None && final(self).account_veci@ == old(self).account_veci@,
            old(self).account_veci@.len() > 0 ==> (r matches Some(v) && v.spec_instance() == old(self).account_veci@[0]
                && final(self).account_veci@ == old(self).account_veci@.drop_first()),
            final(self).well_formed(),
    {
        let ghost s0 = *self;
        if self.account_veci.len() == 0 {
            return None;
        }
        let first = self.account_veci.remove_index(0);
        proof {
            assert(s0.account_veci@.contains(first));
            assert(all_of_template(s0.collection(DerivationTemplate::AccountVeci), DerivationTemplate::AccountVeci));
            assert forall|t: DerivationTemplate| {
                &&& all_of_template(#[trigger] self.collection(t), t)
                &&& all_on_network(self.collection(t), self.network)
                &&& all_of_factor(self.collection(t), self.factor_source_id)
            } by {
                assert(all_of_template(s0.collection(t), t));
                assert(all_on_network(s0.collection(t), s0.network));
                assert(all_of_factor(s0.collection(t), s0.factor_source_id));
                if t == DerivationTemplate::AccountVeci {
                    let a = s0.account_veci@;
                    assert forall|x: HierarchicalDeterministicFactorInstance| #[trigger] self.collection(t).contains(x) implies a.contains(x) by {
                        let k = choose|k: int| 0 <= k < self.collection(t).len() && self.collection(t)[k] == x;
                        assert(a[k + 1] == x);
                    }
                }
            }
        }
        match AccountVeci::new(first) {
            Ok(v) => Some(v),
            Err(_) => None,
        }
    }

    /// The collection of template `t`.
    pub open spec fn collection(&self, t: DerivationTemplate) -> Seq<HierarchicalDeterministicFactorInstance> {
        match t {
            DerivationTemplate::AccountVeci => self.account_veci@,
            DerivationTemplate::AccountMfa => self.account_mfa@,
            DerivationTemplate::IdentityVeci => self.identity_veci@,
            DerivationTemplate::IdentityMfa => self.identity_mfa@,
        }
    }

    /// Every collection holds instances of its template, network and factor
    /// source only.
    pub open spec fn well_formed(&self) -> bool {
        forall|t: DerivationTemplate| {
            &&& all_of_template(#[trigger] self.collection(t), t)
            &&& all_on_network(self.collection(t), self.network)
            &&& all_of_factor(self.collection(t), self.factor_source_id)
        }
    }

    /// The collections, provided every instance is on `network` (else
    /// `NetworkDiscrepancy`) and of `factor_source_id` (else
    /// `FactorSourceDiscrepancy`); each collection must hold instances of its
    /// template.
    pub fn new(
        network: NetworkID,
        factor_source_id: FactorSourceIDFromHash,
        account_veci: FactorInstances,
        account_mfa: FactorInstances,
        identity_veci: FactorInstances,
        identity_mfa: FactorInstances,
    ) -> (r: Result<Self, CommonError>)
        requires
            all_of_template(account_veci@, DerivationTemplate::AccountVeci),
            all_of_template(account_mfa@, DerivationTemplate::AccountMfa),
            all_of_template(identity_veci@, DerivationTemplate::IdentityVeci),
            all_of_template(identity_mfa@, DerivationTemplate::IdentityMfa),
        ensures
            !(all_on_network(account_veci@, network) && all_on_network(account_mfa@, network)
                && all_on_network(identity_veci@, network) && all_on_network(identity_mfa@, network))
                ==> r == Err::<Self, CommonError>(CommonError::NetworkDiscrepancy),
            (all_on_network(account_veci@, network) && all_on_network(account_mfa@, network)
                && all_on_network(identity_veci@, network) && all_on_network(identity_mfa@, network))
                ==> if all_of_factor(account_veci@, factor_source_id) && all_of_factor(account_mfa@, factor_source_id)
                && all_of_factor(identity_veci@, factor_source_id) && all_of_factor(identity_mfa@, factor_source_id) {
                r matches Ok(c) && c.well_formed() && c.network == network && c.factor_source_id == factor_source_id
                    && c.account_veci@ == account_veci@ && c.account_mfa@ == account_mfa@
                    && c.identity_veci@ == identity_veci@ && c.identity_mfa@ == identity_mfa@
            } else {
                r == Err::<Self, CommonError>(CommonError::FactorSourceDiscrepancy)
            },
    {
        if !(on_network(&account_veci, network) && on_network(&account_mfa, network)
            && on_network(&identity_veci, network) && on_network(&identity_mfa, network)) {
            return Err(CommonError::NetworkDiscrepancy);
        }
        if !(of_factor(&account_veci, factor_source_id) && of_factor(&account_mfa, factor_source_id)
            && of_factor(&identity_veci, factor_source_id) && of_factor(&identity_mfa, factor_source_id)) {
            return Err(CommonError::FactorSourceDiscrepancy);
        }
        Ok(Self { network, factor_source_id, account_veci, account_mfa, identity_veci, identity_mfa })
    }

    /// Empty collections.
    pub fn empty(network: NetworkID, factor_source_id: FactorSourceIDFromHash) -> (c: Self)
        ensures
            c.network == network,
            c.factor_source_id == factor_source_id,
            forall|t: DerivationTemplate| #[trigger] c.collection(t) == Seq::<HierarchicalDeterministicFactorInstance>::empty(),
            c.well_formed(),
    {
        Self {
            network,
            factor_source_id,
            account_veci: FactorInstances::empty(),
            account_mfa: FactorInstances::empty(),
            identity_veci: FactorInstances::empty(),
            identity_mfa: FactorInstances::empty(),
        }
    }

    /// Every collection holds `CACHE_SIZE` instances.
    pub fn is_full(&self) -> (b: bool)
        ensures
            b == forall|t: DerivationTemplate| #[trigger] self.collection(t).len() == CACHE_SIZE,
    {
        let b = self.account_veci.len() == CACHE_SIZE && self.account_mfa.len() == CACHE_SIZE
            && self.identity_veci.len() == CACHE_SIZE && self.identity_mfa.len() == CACHE_SIZE;
        proof {
            if !b {
                if self.account_veci@.len() != CACHE_SIZE {
                    assert(self.collection(DerivationTemplate::AccountVeci).len() != CACHE_SIZE);
                } else if self.account_mfa@.len() != CACHE_SIZE {
                    assert(self.collection(DerivationTemplate::AccountMfa).len() != CACHE_SIZE);
                } else if self.identity_veci@.len() != CACHE_SIZE {
                    assert(self.collection(DerivationTemplate::IdentityVeci).len() != CACHE_SIZE);
                } else {
                    assert(self.collection(DerivationTemplate::IdentityMfa).len() != CACHE_SIZE);
                }
            }
        }
        b
    }

    /// The number of instances of template `derivation_template`.
    pub fn quantity_for_template(&self, derivation_template: DerivationTemplate) -> (n: usize)
        ensures
            n == self.collection(derivation_template).len(),
    {
        match derivation_template {
            DerivationTemplate::AccountVeci => self.account_veci.len(),
            DerivationTemplate::AccountMfa => self.account_mfa.len(),
            DerivationTemplate::IdentityVeci => self.identity_veci.len(),
            DerivationTemplate::IdentityMfa => self.identity_mfa.len(),
        }
    }

    /// Appends the collections of `other`, template by template. `other` must
    /// be for the same network and factor source, share no instance with
    /// these collections, and start each collection after the last index of
    /// the collection it is appended to.
    pub fn append(&mut self, other: Self)
        requires
            other.network == old(self).network,
            other.factor_source_id == old(self).factor_source_id,
            forall|t: DerivationTemplate| #[trigger] disjoint(old(self).collection(t), other.collection(t)),
            forall|t: DerivationTemplate| #[trigger] continues_after(old(self).collection(t), other.collection(t)),
        ensures
            final(self).network == old(self).network,
            final(self).factor_source_id == old(self).factor_source_id,
            forall|t: DerivationTemplate| #[trigger] final(self).collection(t) == old(self).collection(t) + other.collection(t),
            old(self).well_formed() && other.well_formed() ==> final(self).well_formed(),
    {
        let ghost s0 = *self;
        proof {
            assert(disjoint(s0.collection(DerivationTemplate::AccountVeci), other.collection(DerivationTemplate::AccountVeci)));
            assert(disjoint(s0.collection(DerivationTemplate::AccountMfa), other.collection(DerivationTemplate::AccountMfa)));
            assert(disjoint(s0.collection(DerivationTemplate::IdentityVeci), other.collection(DerivationTemplate::IdentityVeci)));
            assert(disjoint(s0.collection(DerivationTemplate::IdentityMfa), other.collection(DerivationTemplate::IdentityMfa)));
        }
        append_disjoint(&mut self.account_veci, &other.account_veci);
        append_disjoint(&mut self.account_mfa, &other.account_mfa);
        append_disjoint(&mut self.identity_veci, &other.identity_veci);
        append_disjoint(&mut self.identity_mfa, &other.identity_mfa);
        proof {
            assert forall|t: DerivationTemplate| #[trigger] self.collection(t) == s0.collection(t) + other.collection(t) by {}
            if s0.well_formed() && other.well_formed() {
                assert forall|t: DerivationTemplate| {
                    &&& all_of_template(#[trigger] self.collection(t), t)
                    &&& all_on_network(self.collection(t), self.network)
                    &&& all_of_factor(self.collection(t), self.factor_source_id)
                } by {
                    assert(all_of_template(s0.collection(t), t));
                    assert(all_of_template(other.collection(t), t));
                    assert forall|x: HierarchicalDeterministicFactorInstance| #[trigger] self.collection(t).contains(x)
                        implies s0.collection(t).contains(x) || other.collection(t).contains(x) by {
                        let i = choose|i: int| 0 <= i < self.collection(t).len() && self.collection(t)[i] == x;
                        if i < s0.collection(t).len() {
                            assert(s0.collection(t)[i] == x);
                        } else {
                            assert(other.collection(t)[i - s0.collection(t).len()] == x);
                        }
                    }
                }
            }
        }
    }
}

/// Appends `b` to `a`, which share no instance.
fn append_disjoint(a: &mut FactorInstances, b: &FactorInstances)
    requires
        disjoint(old(a)@, b@),
    ensures
        final(a)@ == old(a)@ + b@,
{
    let v = b.factor_instances();
    proof {
        lemma_append_new_disjoint(old(a)@, v@);
    }
    a.extend_from_vec(&v);
}

fn on_network(fi: &FactorInstances, network: NetworkID) -> (b: bool)
    ensures
        b == all_on_network(fi@, network),
{
    let v = fi.factor_instances();
    let mut i: usize = 0;
    while i < v.len()
        invariant
            i <= v@.len(),
            v@ == fi@,
            forall|j: int| 0 <= j < i ==> (#[trigger] v@[j]).spec_path().network_id == network,
        decreases v@.len() - i,
    {
        if v[i].derivation_path().network_id != network {
            assert(fi@.contains(v@[i as int]));
            return false;
        }
        i = i + 1;
    }
    true
}

fn of_factor(fi: &FactorInstances, fsid: FactorSourceIDFromHash) -> (b: bool)
    ensures
        b == all_of_factor(fi@, fsid),
{
    let v = fi.factor_instances();
    let mut i: usize = 0;
    while i < v.len()
        invariant
            i <= v@.len(),
            v@ == fi@,
            forall|j: int| 0 <= j < i ==> (#[trigger] v@[j]).factor_source_id == fsid,
        decreases v@.len() - i,
    {
        if v[i].factor_source_id != fsid {
            assert(fi@.contains(v@[i as int]));
            return false;
        }
        i = i + 1;
    }
    true
}

/// Instances for the caller to use directly.
#[derive(Debug, PartialEq, Eq)]
pub struct InstancesToUseDirectly(pub FactorInstances);

impl InstancesToUseDirectly {
    pub fn new(factor_instances: FactorInstances) -> (s: Self)
        ensures
            s.0@ == factor_instances@,
    {
        Self(factor_instances)
    }

    pub fn just(factor_instance: HierarchicalDeterministicFactorInstance) -> (s: Self)
        ensures
            s.0@ == seq![factor_instance],
    {
        Self::new(FactorInstances::just(factor_instance))
    }

    /// The single instance, as an account veci; there must be exactly one.
    pub fn account_veci(self) -> (r: Result<AccountVeci, CommonError>)
        requires
            self.0@.len() == 1,
        ensures
            match kind_error(self.0@[0].spec_path(), CAP26EntityKind::Account, KeySpace::Unsecurified) {
                Some(e) => r == Err::<AccountVeci, CommonError>(e),
                None => r matches Ok(v) && v.spec_instance() == self.0@[0],
            },
    {
        let first = self.0.first();
        match first {
            Some(f) => AccountVeci::new(f),
            None => Err(CommonError::KeySpaceDiscrepancy),
        }
    }
}

/// The paths of each template of each factor source, flattened.
pub open spec fn flattened_paths(per_template: Seq<(DerivationTemplate, OrderedSet<DerivationPath>)>) -> Seq<DerivationPath>
    decreases per_template.len(),
{
    if per_template.len() == 0 {
        Seq::empty()
    } else {
        flattened_paths(per_template.drop_last()) + per_template.last().1@
    }
}

/// Derivation paths per template per factor source.
#[derive(Debug, PartialEq, Eq)]
pub struct DerivationPathPerFactorSource {
    pub paths_per_template_per_factor: OrderedMap<
        FactorSourceIDFromHash,
        OrderedMap<DerivationTemplate, OrderedSet<DerivationPath>>,
    >,
}

impl DerivationPathPerFactorSource {
    /// The paths of each factor source across its templates, each once, in
    /// order; factor sources in their order.
    pub fn flatten(&self) -> (r: OrderedMap<FactorSourceIDFromHash, OrderedSet<DerivationPath>>)
        ensures
            entries_keys(r@) == entries_keys(self.paths_per_template_per_factor@),
            r@.len() == self.paths_per_template_per_factor@.len(),
            forall|i: int| 0 <= i < r@.len() ==> (#[trigger] r@[i]).1@ == append_new(
                Seq::<DerivationPath>::empty(),
                flattened_paths(self.paths_per_template_per_factor@[i].1@),
            ),
    {
        let ghost s = self.paths_per_template_per_factor@;
        let _ = self.paths_per_template_per_factor.has_unique_keys();
        let mut v: Vec<(FactorSourceIDFromHash, OrderedSet<DerivationPath>)> = Vec::new();
        let n = self.paths_per_template_per_factor.len();
        let mut i: usize = 0;
        while i < n
            invariant
                i <= n,
                n == s.len(),
                s == self.paths_per_template_per_factor@,
                v@.len() == i,
                forall|j: int| 0 <= j < i ==> (#[trigger] v@[j]).0 == s[j].0 && v@[j].1@ == append_new(
                    Seq::<DerivationPath>::empty(),
                    flattened_paths(s[j].1@),
                ),
            decreases n - i,
        {
            let e = self.paths_per_template_per_factor.get_index(i);
            let ghost t = e.1@;
            let mut paths = OrderedSet::<DerivationPath>::new();
            let m = e.1.len();
            let mut j: usize = 0;
            while j < m
                invariant
                    j <= m,
                    m == t.len(),
                    t == e.1@,
                    paths@ == append_new(Seq::<DerivationPath>::empty(), flattened_paths(t.take(j as int))),
                decreases m - j,
            {
                let pe = e.1.get_index(j);
                let more = pe.1.elements();
                proof {
                    assert(t.take(j + 1).drop_last() =~= t.take(j as int));
                    lemma_append_new_concat(Seq::<DerivationPath>::empty(), flattened_paths(t.take(j as int)), more@);
                }
                paths.extend_from_vec(&more);
                j = j + 1;
            }
            assert(t.take(m as int) =~= t);
            v.push((e.0, paths));
            i = i + 1;
        }
        proof {
            assert(entries_keys(v@) =~= entries_keys(s));
            assert(crate::types::ordered_map::unique_keys(v@)) by {
                assert forall|a: int, b: int| 0 <= a < v@.len() && 0 <= b < v@.len() && a != b implies v@[a].0 != v@[b].0 by {
                    assert(v@[a].0 == s[a].0);
                    assert(v@[b].0 == s[b].0);
                }
            }
        }
        OrderedMap::from_entries(v)
    }
}

/// Appending the elements of `b` then those of `c` is appending those of
/// `b + c`.
pub proof fn lemma_append_new_concat<T>(a: Seq<T>, b: Seq<T>, c: Seq<T>)
    ensures
        append_new(append_new(a, b), c) == append_new(a, b + c),
    decreases c.len(),
{
    if c.len() == 0 {
        assert(b + c =~= b);
    } else {
        lemma_append_new_concat(a, b, c.drop_last());
        assert((b + c).drop_last() =~= b + c.drop_last());
        assert((b + c).last() == c.last());
    }
}

/// Instances to put into the cache, as collections per factor source.
#[derive(Debug, PartialEq, Eq)]
pub struct InstancesToCache(pub OrderedMap<FactorSourceIDFromHash, CollectionsOfFactorInstances>);

/// The instances of `s` of some template.
pub open spec fn of_some_template(x: HierarchicalDeterministicFactorInstance) -> bool {
    exists|t: DerivationTemplate| is_of_template(x.spec_path(), t)
}

/// The instances of template `t` of `fi`.
fn filter_template(fi: &FactorInstances, t: DerivationTemplate) -> (r: FactorInstances)
    ensures
        r@ == of_template(fi@, t),
        all_of_template(r@, t),
        forall|x: HierarchicalDeterministicFactorInstance| #[trigger] r@.contains(x) ==> fi@.contains(x),
{
    let v = fi.factor_instances();
    let mut out: Vec<HierarchicalDeterministicFactorInstance> = Vec::new();
    let mut i: usize = 0;
    while i < v.len()
        invariant
            i <= v@.len(),
            v@ == fi@,
            v@.no_duplicates(),
            out@ == of_template(v@.take(i as int), t),
            out@.no_duplicates(),
            forall|x: HierarchicalDeterministicFactorInstance| #[trigger] out@.contains(x) ==> v@.take(i as int).contains(x) && is_of_template(x.spec_path(), t),
        decreases v@.len() - i,
    {
        proof {
            assert(v@.take(i + 1).drop_last() =~= v@.take(i as int));
            assert forall|x: HierarchicalDeterministicFactorInstance| v@.take(i as int).contains(x) implies v@.take(i + 1).contains(x) by {
                let k = choose|k: int| 0 <= k < i && v@.take(i as int)[k] == x;
                assert(v@.take(i + 1)[k] == x);
            }
            assert(v@.take(i + 1)[i as int] == v@[i as int]);
        }
        let f = v[i];
        let ek = t.entity_kind();
        let ks = t.key_space();
        let ghost out0 = out@;
        if check_kind(&f, ek, ks).is_ok() {
            proof {
                assert(!out@.contains(f)) by {
                    if out@.contains(f) {
                        let k = choose|k: int| 0 <= k < i && v@.take(i as int)[k] == f;
                        assert(v@[k] == v@[i as int]);
                    }
                }
            }
            out.push(f);
        }
        proof {
            assert forall|x: HierarchicalDeterministicFactorInstance| #[trigger] out@.contains(x) implies v@.take(i + 1).contains(x) && is_of_template(x.spec_path(), t) by {
                let k = choose|k: int| 0 <= k < out@.len() && out@[k] == x;
                if k < out0.len() {
                    assert(out0[k] == x);
                    assert(out0.contains(x));
                } else {
                    assert(x == f);
                }
            }
        }
        i = i + 1;
    }
    assert(v@.take(i as int) =~= v@);
    FactorInstances::from_unique(out)
}

impl InstancesToCache {
    /// Sorts the instances of each factor source of `factors_by_source` into
    /// collections by template, dropping instances of no template. Every
    /// instance of some template must be on `network_id` and of the factor
    /// source it is listed under.
    pub fn from(value: (NetworkID, OrderedMap<FactorSourceIDFromHash, FactorInstances>)) -> (r: Self)
        requires
            forall|k: FactorSourceIDFromHash, x: HierarchicalDeterministicFactorInstance|
                #[trigger] instances_of(value.1, k).contains(x) && of_some_template(x) ==> x.spec_path().network_id
                    == value.0 && x.factor_source_id == k,
        ensures
            entries_keys(r.0@) == entries_keys(value.1@),
            forall|i: int| 0 <= i < r.0@.len() ==> {
                let c = #[trigger] r.0@[i].1;
                &&& c.network == value.0
                &&& c.factor_source_id == r.0@[i].0
                &&& c.well_formed()
                &&& forall|t: DerivationTemplate| #[trigger] c.collection(t) == of_template(value.1@[i].1@, t)
            },
    {
        let (network_id, factors_by_source) = value;
        let ghost s = factors_by_source@;
        let _ = factors_by_source.has_unique_keys();
        let mut v: Vec<(FactorSourceIDFromHash, CollectionsOfFactorInstances)> = Vec::new();
        let n = factors_by_source.len();
        let mut i: usize = 0;
        while i < n
            invariant
                i <= n,
                n == s.len(),
                s == factors_by_source@,
                crate::types::ordered_map::unique_keys(s),
                forall|k: FactorSourceIDFromHash, x: HierarchicalDeterministicFactorInstance|
                    #[trigger] instances_of(factors_by_source, k).contains(x) && of_some_template(x) ==> x.spec_path().network_id
                        == network_id && x.factor_source_id == k,
                v@.len() == i,
                forall|j: int| 0 <= j < i ==> (#[trigger] v@[j]).0 == s[j].0,
                forall|j: int| 0 <= j < i ==> {
                    let c = #[trigger] v@[j].1;
                    &&& c.network == network_id
                    &&& c.factor_source_id == s[j].0
                    &&& c.well_formed()
                    &&& forall|t: DerivationTemplate| #[trigger] c.collection(t) == of_template(s[j].1@, t)
                },
            decreases n - i,
        {
            let e = factors_by_source.get_index(i);
            let k = e.0;
            proof {
                lemma_entries_get_at(s, i as int);
                assert(instances_of(factors_by_source, k) == e.1@);
            }
            let av = filter_template(&e.1, DerivationTemplate::AccountVeci);
            let am = filter_template(&e.1, DerivationTemplate::AccountMfa);
            let iv = filter_template(&e.1, DerivationTemplate::IdentityVeci);
            let im = filter_template(&e.1, DerivationTemplate::IdentityMfa);
            proof {
                assert forall|x: HierarchicalDeterministicFactorInstance| #[trigger] av@.contains(x) implies x.spec_path().network_id == network_id && x.factor_source_id == k by {
                    assert(is_of_template(x.spec_path(), DerivationTemplate::AccountVeci));
                    assert(instances_of(factors_by_source, k).contains(x));
                }
                assert forall|x: HierarchicalDeterministicFactorInstance| #[trigger] am@.contains(x) implies x.spec_path().network_id == network_id && x.factor_source_id == k by {
                    assert(is_of_template(x.spec_path(), DerivationTemplate::AccountMfa));
                    assert(instances_of(factors_by_source, k).contains(x));
                }
                assert forall|x: HierarchicalDeterministicFactorInstance| #[trigger] iv@.contains(x) implies x.spec_path().network_id == network_id && x.factor_source_id == k by {
                    assert(is_of_template(x.spec_path(), DerivationTemplate::IdentityVeci));
                    assert(instances_of(factors_by_source, k).contains(x));
                }
                assert forall|x: HierarchicalDeterministicFactorInstance| #[trigger] im@.contains(x) implies x.spec_path().network_id == network_id && x.factor_source_id == k by {
                    assert(is_of_template(x.spec_path(), DerivationTemplate::IdentityMfa));
                    assert(instances_of(factors_by_source, k).contains(x));
                }
            }
            let c = match CollectionsOfFactorInstances::new(network_id, k, av, am, iv, im) {
                Ok(c) => c,
                Err(_) => {
                    proof {
                        assert(false);
                    }
                    CollectionsOfFactorInstances::empty(network_id, k)
                },
            };
            proof {
                assert forall|t: DerivationTemplate| #[trigger] c.collection(t) == of_template(s[i as int].1@, t) by {}
            }
            v.push((k, c));
            i = i + 1;
        }
        proof {
            assert(entries_keys(v@) =~= entries_keys(s));
            assert(crate::types::ordered_map::unique_keys(v@)) by {
                assert forall|a: int, b: int| 0 <= a < v@.len() && 0 <= b < v@.len() && a != b implies v@[a].0 != v@[b].0 by {
                    assert(v@[a].0 == s[a].0);
                    assert(v@[b].0 == s[b].0);
                }
            }
        }
        InstancesToCache(OrderedMap::from_entries(v))
    }
}

} // verus!
