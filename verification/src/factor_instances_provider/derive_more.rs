//! Requests to derive more instances: a range of base indices for one
//! request, what a request was missing from the cache, and the purposes
//! instances are asked for.
use vstd::prelude::*;
use crate::factor_instances_provider::agnostic_paths::CACHE_FILLING_QUANTITY;
use crate::pre_derived_keys_cache::requests::{QuantifiedUnindexDerivationRequest, UnquantifiedUnindexDerivationRequest};
use crate::types::derivation::{BIP32_SECURIFIED_HALF, CAP26EntityKind, CAP26KeyKind, DerivationPath, HDPathComponent, HDPathValue, KeySpace};
use crate::types::entities::{Account, EntitySecurityState, MatrixOfFactorSources};
use crate::types::keys::{FactorSourceIDFromHash, HDFactorSource};
use crate::types::network::NetworkID;

verus! {

/// A request with a range of base indices: `quantity` indices from
/// `start_base_index` on, in its key space.
#[derive(Clone, Copy, Debug, PartialEq, Eq, Hash, Structural)]
pub struct DerivationRequestWithRange {
    pub factor_source_id: FactorSourceIDFromHash,
    pub network_id: NetworkID,
    pub entity_kind: CAP26EntityKind,
    pub key_kind: CAP26KeyKind,
    pub key_space: KeySpace,
    pub quantity: usize,
    pub start_base_index: HDPathValue,
}

/// The request of a range, without its indices.
pub open spec fn range_request(r: DerivationRequestWithRange) -> UnquantifiedUnindexDerivationRequest {
    UnquantifiedUnindexDerivationRequest {
        factor_source_id: r.factor_source_id,
        network_id: r.network_id,
        entity_kind: r.entity_kind,
        key_kind: r.key_kind,
        key_space: r.key_space,
    }
}

/// `p` is the path of the range `r` at its `i`-th index.
pub open spec fn is_range_path(p: DerivationPath, r: DerivationRequestWithRange, i: int) -> bool {
    &&& p.network_id == r.network_id
    &&& p.entity_kind == r.entity_kind
    &&& p.key_kind == r.key_kind
    &&& p.index.spec_key_space() == r.key_space
    &&& p.index.spec_base_index() == r.start_base_index + i
}

/// `v` holds the paths of the range `r`, in order of index.
pub open spec fn range_paths(v: Seq<DerivationPath>, r: DerivationRequestWithRange) -> bool {
    &&& v.len() == r.quantity
    &&& forall|i: int| 0 <= i < v.len() ==> is_range_path(#[trigger] v[i], r, i)
}

/// The path of the range `r` at its `i`-th index.
pub open spec fn range_path_at(r: DerivationRequestWithRange, i: int) -> DerivationPath {
    choose|p: DerivationPath| is_range_path(p, r, i)
}

/// The paths of the range `r`, in order of index.
pub open spec fn range_path_seq(r: DerivationRequestWithRange) -> Seq<DerivationPath> {
    Seq::new(r.quantity as nat, |i: int| range_path_at(r, i))
}

/// A range path is the one `range_path_at` names.
pub proof fn lemma_range_path_unique(p: DerivationPath, r: DerivationRequestWithRange, i: int)
    requires
        is_range_path(p, r, i),
    ensures
        range_path_at(r, i) == p,
{
    let q = range_path_at(r, i);
    assert(is_range_path(q, r, i));
    HDPathComponent::lemma_eq_by_fields(p.index, q.index);
}

impl DerivationRequestWithRange {
    pub fn new(
        factor_source_id: FactorSourceIDFromHash,
        network_id: NetworkID,
        entity_kind: CAP26EntityKind,
        key_kind: CAP26KeyKind,
        key_space: KeySpace,
        quantity: usize,
        start_base_index: HDPathValue,
    ) -> (r: Self)
        ensures
            r == (DerivationRequestWithRange {
                factor_source_id,
                network_id,
                entity_kind,
                key_kind,
                key_space,
                quantity,
                start_base_index,
            }),
    {
        DerivationRequestWithRange { factor_source_id, network_id, entity_kind, key_kind, key_space, quantity, start_base_index }
    }

    /// The range of `request` that starts right after `last_index`, for as
    /// many indices as it requests.
    pub fn from_request_and_last_index(request: &QuantifiedUnindexDerivationRequest, last_index: HDPathValue) -> (r: Self)
        requires
            last_index < BIP32_SECURIFIED_HALF,
        ensures
            r == (DerivationRequestWithRange {
                factor_source_id: request.factor_source_id,
                network_id: request.network_id,
                entity_kind: request.entity_kind,
                key_kind: request.key_kind,
                key_space: request.key_space,
                quantity: request.requested_quantity,
                start_base_index: (last_index + 1) as u32,
            }),
    {
        Self::new(
            request.factor_source_id,
            request.network_id,
            request.entity_kind,
            request.key_kind,
            request.key_space,
            request.requested_quantity,
            last_index + 1,
        )
    }

    /// The request, without its indices.
    pub fn unquantified(&self) -> (r: UnquantifiedUnindexDerivationRequest)
        ensures
            r == range_request(*self),
    {
        UnquantifiedUnindexDerivationRequest::new(
            self.factor_source_id,
            self.network_id,
            self.entity_kind,
            self.key_kind,
            self.key_space,
        )
    }

    /// The base index right after the range.
    pub fn end_base_index(&self) -> (e: HDPathValue)
        requires
            self.start_base_index + self.quantity <= u32::MAX,
        ensures
            e == self.start_base_index + self.quantity,
    {
        self.start_base_index + self.quantity as u32
    }

    /// The paths of the range, in order of index.
    pub fn derivation_paths(&self) -> (v: Vec<DerivationPath>)
        requires
            self.start_base_index + self.quantity <= BIP32_SECURIFIED_HALF,
        ensures
            range_paths(v@, *self),
            v@ == range_path_seq(*self),
    {
        let mut v: Vec<DerivationPath> = Vec::new();
        let mut i: usize = 0;
        while i < self.quantity
            invariant
                i <= self.quantity,
                self.start_base_index + self.quantity <= BIP32_SECURIFIED_HALF,
                v@.len() == i,
                forall|j: int| 0 <= j < i ==> is_range_path(#[trigger] v@[j], *self, j),
            decreases self.quantity - i,
        {
            let index = HDPathComponent::new_with_key_space_and_base_index(self.key_space, self.start_base_index + i as u32);
            v.push(DerivationPath::new(self.network_id, self.entity_kind, self.key_kind, index));
            i = i + 1;
        }
        proof {
            assert forall|j: int| 0 <= j < v@.len() implies v@[j] == range_path_seq(*self)[j] by {
                lemma_range_path_unique(v@[j], *self, j);
            }
            assert(v@ =~= range_path_seq(*self));
        }
        v
    }
}

/// More instances to derive for a request the cache could not satisfy.
#[derive(Clone, Copy, Debug, PartialEq, Eq, Hash, Structural)]
pub enum DeriveMore {
    /// The cache held some instances: derivation continues after the last.
    WithKnownStartIndex {
        with_start_index: DerivationRequestWithRange,
        number_of_instances_needed_to_fully_satisfy_request: Option<usize>,
    },
    /// The cache held none: where derivation starts is to be found.
    WithoutKnownLastIndex { request: QuantifiedUnindexDerivationRequest, number_of_instances_needed_to_fully_satisfy_request: usize },
}

/// The request a derive-more request is for, without indices or quantity.
pub open spec fn derive_more_request(d: DeriveMore) -> UnquantifiedUnindexDerivationRequest {
    match d {
        DeriveMore::WithKnownStartIndex { with_start_index, .. } => range_request(with_start_index),
        DeriveMore::WithoutKnownLastIndex { request, .. } => crate::pre_derived_keys_cache::requests::unquantified(request),
    }
}

/// Every account of `accounts` is on `network_id`.
pub open spec fn all_on_network(accounts: Seq<Account>, network_id: NetworkID) -> bool {
    forall|i: int| 0 <= i < accounts.len() ==> (#[trigger] accounts[i]).address.network_id == network_id
}

/// Every account of `accounts` is securified (`true`) or unsecurified
/// (`false`), as `securified` asks; any for `None`.
pub open spec fn all_of_state(accounts: Seq<Account>, securified: Option<bool>) -> bool {
    match securified {
        None => true,
        Some(b) => forall|i: int| 0 <= i < accounts.len() ==> ((#[trigger] accounts[i]).security_state is Securified) == b,
    }
}

/// `accounts` is not empty, all on `network_id`, all in the state `securified` asks.
pub open spec fn accounts_fit(accounts: Seq<Account>, network_id: NetworkID, securified: Option<bool>) -> bool {
    &&& accounts.len() > 0
    &&& all_on_network(accounts, network_id)
    &&& all_of_state(accounts, securified)
}

/// Whether `accounts` fits `network_id` and `securified`.
fn check_accounts(accounts: &Vec<Account>, network_id: NetworkID, securified: Option<bool>) -> (b: bool)
    ensures
        b == accounts_fit(accounts@, network_id, securified),
{
    if accounts.len() == 0 {
        return false;
    }
    let mut i: usize = 0;
    while i < accounts.len()
        invariant
            i <= accounts@.len(),
            forall|j: int| 0 <= j < i ==> (#[trigger] accounts@[j]).address.network_id == network_id,
            forall|j: int| 0 <= j < i ==> match securified {
                None => true,
                Some(b) => ((#[trigger] accounts@[j]).security_state is Securified) == b,
            },
        decreases accounts@.len() - i,
    {
        if accounts[i].address.network_id != network_id {
            return false;
        }
        let is_securified = match &accounts[i].security_state {
            EntitySecurityState::Securified(_) => true,
            EntitySecurityState::Unsecured(_) => false,
        };
        match securified {
            Some(b) => {
                if is_securified != b {
                    return false;
                }
            },
            None => {},
        }
        i = i + 1;
    }
    true
}

/// A non-empty collection of accounts, all on the same network, securified
/// or not.
#[derive(Clone, Debug, PartialEq, Eq)]
pub struct Accounts {
    pub network_id: NetworkID,
    accounts: Vec<Account>,
}

impl Accounts {
    /// The network of the accounts.
    pub closed spec fn spec_network(&self) -> NetworkID {
        self.network_id
    }

    /// The accounts, in order.
    pub closed spec fn spec_accounts(&self) -> Seq<Account> {
        self.accounts@
    }

    /// The number of accounts.
    pub closed spec fn spec_len(&self) -> nat {
        self.accounts@.len()
    }

    /// `accounts` on `network_id`; `None` unless there is some account and
    /// all are on `network_id`.
    pub fn new(network_id: NetworkID, accounts: Vec<Account>) -> (a: Option<Self>)
        ensures
            a is Some <==> accounts_fit(accounts@, network_id, None),
            a matches Some(x) ==> x.spec_network() == network_id && x.spec_len() == accounts@.len() && x.spec_accounts()
                == accounts@,
    {
        if check_accounts(&accounts, network_id, None) {
            Some(Accounts { network_id, accounts })
        } else {
            None
        }
    }

    pub fn len(&self) -> (n: usize)
        ensures
            n == self.spec_len(),
    {
        self.accounts.len()
    }

    pub fn network_id(&self) -> (n: NetworkID)
        ensures
            n == self.spec_network(),
    {
        self.network_id
    }
}

/// A non-empty collection of unsecurified accounts, all on the same network.
#[derive(Clone, Debug, PartialEq, Eq)]
pub struct UnsecurifiedAccounts {
    pub network_id: NetworkID,
    accounts: Vec<Account>,
}

impl UnsecurifiedAccounts {
    /// The network of the accounts.
    pub closed spec fn spec_network(&self) -> NetworkID {
        self.network_id
    }

    /// The number of accounts.
    pub closed spec fn spec_len(&self) -> nat {
        self.accounts@.len()
    }

    /// `accounts` on `network_id`; `None` unless there is some account and
    /// all are unsecurified and on `network_id`.
    pub fn new(network_id: NetworkID, accounts: Vec<Account>) -> (a: Option<Self>)
        ensures
            a is Some <==> accounts_fit(accounts@, network_id, Some(false)),
            a matches Some(x) ==> x.spec_network() == network_id && x.spec_len() == accounts@.len(),
    {
        if check_accounts(&accounts, network_id, Some(false)) {
            Some(UnsecurifiedAccounts { network_id, accounts })
        } else {
            None
        }
    }

    pub fn len(&self) -> (n: usize)
        ensures
            n == self.spec_len(),
    {
        self.accounts.len()
    }

    pub fn network_id(&self) -> (n: NetworkID)
        ensures
            n == self.spec_network(),
    {
        self.network_id
    }
}

/// A non-empty collection of securified accounts, all on the same network.
#[derive(Clone, Debug, PartialEq, Eq)]
pub struct SecurifiedAccounts {
    network_id: NetworkID,
    accounts: Vec<Account>,
}

impl SecurifiedAccounts {
    /// The network of the accounts.
    pub closed spec fn spec_network(&self) -> NetworkID {
        self.network_id
    }

    /// The number of accounts.
    pub closed spec fn spec_len(&self) -> nat {
        self.accounts@.len()
    }

    /// `accounts` on `network_id`; `None` unless there is some account and
    /// all are securified and on `network_id`.
    pub fn new(network_id: NetworkID, accounts: Vec<Account>) -> (a: Option<Self>)
        ensures
            a is Some <==> accounts_fit(accounts@, network_id, Some(true)),
            a matches Some(x) ==> x.spec_network() == network_id && x.spec_len() == accounts@.len(),
    {
        if check_accounts(&accounts, network_id, Some(true)) {
            Some(SecurifiedAccounts { network_id, accounts })
        } else {
            None
        }
    }

    pub fn network_id(&self) -> (n: NetworkID)
        ensures
            n == self.spec_network(),
    {
        self.network_id
    }

    pub fn len(&self) -> (n: usize)
        ensures
            n == self.spec_len(),
    {
        self.accounts.len()
    }
}

/// Why factor instances are asked for.
pub enum FactorInstancesRequestPurpose {
    /// Onboarding account recovery scan, on mainnet.
    OARS { factor_sources: Vec<HDFactorSource> },
    /// Manual account recovery scan, with one factor source.
    MARS { factor_source: HDFactorSource, network_id: NetworkID },
    /// Instances pre-derived for a new factor source.
    PreDeriveInstancesForNewFactorSource { factor_source: HDFactorSource },
    /// A new virtual unsecurified account.
    NewVirtualUnsecurifiedAccount { network_id: NetworkID, factor_source: HDFactorSource },
    /// A security shield set on, or updated for, accounts.
    UpdateOrSetSecurityShieldForAccounts { accounts: Accounts, matrix_of_factor_sources: MatrixOfFactorSources },
}

/// The factor sources a purpose uses, in order.
pub open spec fn purpose_factor_sources(p: FactorInstancesRequestPurpose) -> Seq<HDFactorSource> {
    match p {
        FactorInstancesRequestPurpose::OARS { factor_sources } => factor_sources@,
        FactorInstancesRequestPurpose::MARS { factor_source, .. } => seq![factor_source],
        FactorInstancesRequestPurpose::PreDeriveInstancesForNewFactorSource { factor_source } => seq![factor_source],
        FactorInstancesRequestPurpose::NewVirtualUnsecurifiedAccount { factor_source, .. } => seq![factor_source],
        FactorInstancesRequestPurpose::UpdateOrSetSecurityShieldForAccounts { matrix_of_factor_sources, .. } => matrix_of_factor_sources.spec_all_factors(),
    }
}

/// How many of the instances derived for `d` are used directly under
/// purpose `p`; the rest is cached.
pub open spec fn spec_use_directly(d: DeriveMore, p: FactorInstancesRequestPurpose) -> int {
    match p {
        FactorInstancesRequestPurpose::MARS { .. } => CACHE_FILLING_QUANTITY as int,
        FactorInstancesRequestPurpose::OARS { .. } => CACHE_FILLING_QUANTITY as int,
        FactorInstancesRequestPurpose::UpdateOrSetSecurityShieldForAccounts { accounts, .. } => match d {
            DeriveMore::WithKnownStartIndex { number_of_instances_needed_to_fully_satisfy_request, .. } => match number_of_instances_needed_to_fully_satisfy_request {
                Some(n) => n as int,
                None => accounts.spec_len() as int,
            },
            DeriveMore::WithoutKnownLastIndex { number_of_instances_needed_to_fully_satisfy_request, .. } => number_of_instances_needed_to_fully_satisfy_request as int,
        },
        FactorInstancesRequestPurpose::PreDeriveInstancesForNewFactorSource { .. } => 0,
        FactorInstancesRequestPurpose::NewVirtualUnsecurifiedAccount { .. } => 1,
    }
}

impl DeriveMore {
    /// How many of the instances derived for this request are used directly
    /// under `original_purpose`: a cache's worth for the recovery scans, what
    /// was missing (or one per account) for shields, none for a new factor
    /// source, one for a new account.
    pub fn number_of_instances_to_use_directly(&self, original_purpose: &FactorInstancesRequestPurpose) -> (n: usize)
        ensures
            n == spec_use_directly(*self, *original_purpose),
    {
        match original_purpose {
            FactorInstancesRequestPurpose::MARS { .. } => CACHE_FILLING_QUANTITY,
            FactorInstancesRequestPurpose::OARS { .. } => CACHE_FILLING_QUANTITY,
            FactorInstancesRequestPurpose::UpdateOrSetSecurityShieldForAccounts { accounts, .. } => match self {
                DeriveMore::WithKnownStartIndex { number_of_instances_needed_to_fully_satisfy_request, .. } => match number_of_instances_needed_to_fully_satisfy_request {
                    Some(n) => *n,
                    None => accounts.len(),
                },
                DeriveMore::WithoutKnownLastIndex { number_of_instances_needed_to_fully_satisfy_request, .. } => *number_of_instances_needed_to_fully_satisfy_request,
            },
            FactorInstancesRequestPurpose::PreDeriveInstancesForNewFactorSource { .. } => 0,
            FactorInstancesRequestPurpose::NewVirtualUnsecurifiedAccount { .. } => 1,
        }
    }

    /// The request this is for, without indices or quantity.
    pub fn unquantified(&self) -> (r: UnquantifiedUnindexDerivationRequest)
        ensures
            r == derive_more_request(*self),
    {
        match self {
            DeriveMore::WithKnownStartIndex { with_start_index, .. } => with_start_index.unquantified(),
            DeriveMore::WithoutKnownLastIndex { request, .. } => request.unquantified(),
        }
    }
}

impl FactorInstancesRequestPurpose {
    /// The factor sources this purpose uses, in order.
    pub fn factor_sources(&self) -> (v: Vec<HDFactorSource>)
        ensures
            v@ == purpose_factor_sources(*self),
    {
        match self {
            FactorInstancesRequestPurpose::OARS { factor_sources } => {
                let mut v: Vec<HDFactorSource> = Vec::new();
                let mut i: usize = 0;
                while i < factor_sources.len()
                    invariant
                        i <= factor_sources@.len(),
                        v@ == factor_sources@.take(i as int),
                    decreases factor_sources@.len() - i,
                {
                    v.push(factor_sources[i]);
                    assert(factor_sources@.take(i + 1) =~= factor_sources@.take(i as int).push(factor_sources@[i as int]));
                    i = i + 1;
                }
                assert(factor_sources@.take(i as int) =~= factor_sources@);
                v
            },
            FactorInstancesRequestPurpose::MARS { factor_source, .. } => vec![*factor_source],
            FactorInstancesRequestPurpose::PreDeriveInstancesForNewFactorSource { factor_source } => vec![*factor_source],
            FactorInstancesRequestPurpose::NewVirtualUnsecurifiedAccount { factor_source, .. } => vec![*factor_source],
            FactorInstancesRequestPurpose::UpdateOrSetSecurityShieldForAccounts { matrix_of_factor_sources, .. } => matrix_of_factor_sources.all_factors(),
        }
    }
}

/// A request for instances of any factor source: network, entity kind, key
/// space and key kind.
#[derive(Clone, Copy, Debug, PartialEq, Eq, Hash, Structural)]
pub struct AnyFactorDerivationRequest {
    pub network_id: NetworkID,
    pub entity_kind: CAP26EntityKind,
    pub key_space: KeySpace,
    pub key_kind: CAP26KeyKind,
}

impl AnyFactorDerivationRequest {
    pub fn new(network_id: NetworkID, entity_kind: CAP26EntityKind, key_space: KeySpace, key_kind: CAP26KeyKind) -> (r: Self)
        ensures
            r == (AnyFactorDerivationRequest { network_id, entity_kind, key_space, key_kind }),
    {
        AnyFactorDerivationRequest { network_id, entity_kind, key_space, key_kind }
    }
}

/// Requests for instances of any factor source, each once, in order.
#[derive(Clone, Debug, PartialEq, Eq)]
pub struct AnyFactorDerivationRequests {
    requests: Vec<AnyFactorDerivationRequest>,
}

impl View for AnyFactorDerivationRequests {
    type V = Seq<AnyFactorDerivationRequest>;

    closed spec fn view(&self) -> Seq<AnyFactorDerivationRequest> {
        self.requests@
    }
}

/// The request of `network_id`, `entity_kind`, `key_space` and `key_kind`.
pub open spec fn any_request(
    network_id: NetworkID,
    entity_kind: CAP26EntityKind,
    key_space: KeySpace,
    key_kind: CAP26KeyKind,
) -> AnyFactorDerivationRequest {
    AnyFactorDerivationRequest { network_id, entity_kind, key_space, key_kind }
}

/// The requests a purpose asks for, each once: transaction signing of
/// accounts in both key spaces for the recovery scans, in the unsecurified
/// key space for a new account, in the securified key space for shields;
/// for a new factor source, what fills its cache on mainnet.
pub open spec fn purpose_requests(p: FactorInstancesRequestPurpose) -> Seq<AnyFactorDerivationRequest> {
    let tx = CAP26KeyKind::TransactionSigning;
    let auth = CAP26KeyKind::AuthenticationSigning;
    let a = CAP26EntityKind::Account;
    let i = CAP26EntityKind::Identity;
    let u = KeySpace::Unsecurified;
    let s = KeySpace::Securified;
    match p {
        FactorInstancesRequestPurpose::OARS { .. } => seq![
            any_request(NetworkID::Mainnet, a, u, tx),
            any_request(NetworkID::Mainnet, a, s, tx),
        ],
        FactorInstancesRequestPurpose::MARS { network_id, .. } => seq![any_request(network_id, a, u, tx), any_request(network_id, a, s, tx)],
        FactorInstancesRequestPurpose::NewVirtualUnsecurifiedAccount { network_id, .. } => seq![any_request(network_id, a, u, tx)],
        FactorInstancesRequestPurpose::PreDeriveInstancesForNewFactorSource { .. } => seq![
            any_request(NetworkID::Mainnet, a, u, tx),
            any_request(NetworkID::Mainnet, a, s, tx),
            any_request(NetworkID::Mainnet, i, u, tx),
            any_request(NetworkID::Mainnet, i, s, tx),
            any_request(NetworkID::Mainnet, a, u, auth),
            any_request(NetworkID::Mainnet, a, s, auth),
        ],
        FactorInstancesRequestPurpose::UpdateOrSetSecurityShieldForAccounts { accounts, .. } => seq![
            any_request(accounts.spec_network(), a, s, tx),
        ],
    }
}

impl AnyFactorDerivationRequests {
    /// The requests, in order.
    pub fn requests(&self) -> (v: Vec<AnyFactorDerivationRequest>)
        ensures
            v@ == self@,
    {
        self.requests.clone()
    }

    pub fn len(&self) -> (n: usize)
        ensures
            n == self@.len(),
    {
        self.requests.len()
    }
}

impl FactorInstancesRequestPurpose {
    /// The requests this purpose asks for; a new factor source asks for
    /// everything that fills its cache.
    pub fn requests(&self) -> (r: AnyFactorDerivationRequests)
        ensures
            r@ == purpose_requests(*self),
    {
        let tx = CAP26KeyKind::TransactionSigning;
        let auth = CAP26KeyKind::AuthenticationSigning;
        let a = CAP26EntityKind::Account;
        let i = CAP26EntityKind::Identity;
        let u = KeySpace::Unsecurified;
        let s = KeySpace::Securified;
        let v = match self {
            FactorInstancesRequestPurpose::OARS { .. } => vec![
                AnyFactorDerivationRequest::new(NetworkID::Mainnet, a, u, tx),
                AnyFactorDerivationRequest::new(NetworkID::Mainnet, a, s, tx),
            ],
            FactorInstancesRequestPurpose::MARS { network_id, .. } => vec![
                AnyFactorDerivationRequest::new(*network_id, a, u, tx),
                AnyFactorDerivationRequest::new(*network_id, a, s, tx),
            ],
            FactorInstancesRequestPurpose::NewVirtualUnsecurifiedAccount { network_id, .. } => vec![
                AnyFactorDerivationRequest::new(*network_id, a, u, tx),
            ],
            FactorInstancesRequestPurpose::PreDeriveInstancesForNewFactorSource { .. } => vec![
                AnyFactorDerivationRequest::new(NetworkID::Mainnet, a, u, tx),
                AnyFactorDerivationRequest::new(NetworkID::Mainnet, a, s, tx),
                AnyFactorDerivationRequest::new(NetworkID::Mainnet, i, u, tx),
                AnyFactorDerivationRequest::new(NetworkID::Mainnet, i, s, tx),
                AnyFactorDerivationRequest::new(NetworkID::Mainnet, a, u, auth),
                AnyFactorDerivationRequest::new(NetworkID::Mainnet, a, s, auth),
            ],
            FactorInstancesRequestPurpose::UpdateOrSetSecurityShieldForAccounts { accounts, .. } => vec![
                AnyFactorDerivationRequest::new(accounts.network_id(), a, s, tx),
            ],
        };
        assert(v@ =~= purpose_requests(*self));
        AnyFactorDerivationRequests { requests: v }
    }
}

/// The mainnet requests that fill the cache of a factor source, each once:
/// transaction signing of accounts and of identities, and authentication
/// signing of accounts, in both key spaces, a cache's worth each.
pub open spec fn fill_cache_requests(f: FactorSourceIDFromHash) -> Seq<QuantifiedUnindexDerivationRequest> {
    let q = |ek: CAP26EntityKind, kk: CAP26KeyKind, ks: KeySpace| QuantifiedUnindexDerivationRequest {
        factor_source_id: f,
        network_id: NetworkID::Mainnet,
        entity_kind: ek,
        key_kind: kk,
        key_space: ks,
        requested_quantity: CACHE_FILLING_QUANTITY,
    };
    seq![
        q(CAP26EntityKind::Account, CAP26KeyKind::TransactionSigning, KeySpace::Unsecurified),
        q(CAP26EntityKind::Account, CAP26KeyKind::TransactionSigning, KeySpace::Securified),
        q(CAP26EntityKind::Identity, CAP26KeyKind::TransactionSigning, KeySpace::Unsecurified),
        q(CAP26EntityKind::Identity, CAP26KeyKind::TransactionSigning, KeySpace::Securified),
        q(CAP26EntityKind::Account, CAP26KeyKind::AuthenticationSigning, KeySpace::Unsecurified),
        q(CAP26EntityKind::Account, CAP26KeyKind::AuthenticationSigning, KeySpace::Securified),
    ]
}

/// The requests that fill the cache of `f`.
pub fn fill_cache_requests_for(f: FactorSourceIDFromHash) -> (v: Vec<QuantifiedUnindexDerivationRequest>)
    ensures
        v@ == fill_cache_requests(f),
{
    let n = NetworkID::Mainnet;
    let tx = CAP26KeyKind::TransactionSigning;
    let auth = CAP26KeyKind::AuthenticationSigning;
    let a = CAP26EntityKind::Account;
    let i = CAP26EntityKind::Identity;
    let u = KeySpace::Unsecurified;
    let s = KeySpace::Securified;
    let q = CACHE_FILLING_QUANTITY;
    let v = vec![
        QuantifiedUnindexDerivationRequest::new(f, n, a, tx, u, q),
        QuantifiedUnindexDerivationRequest::new(f, n, a, tx, s, q),
        QuantifiedUnindexDerivationRequest::new(f, n, i, tx, u, q),
        QuantifiedUnindexDerivationRequest::new(f, n, i, tx, s, q),
        QuantifiedUnindexDerivationRequest::new(f, n, a, auth, u, q),
        QuantifiedUnindexDerivationRequest::new(f, n, a, auth, s, q),
    ];
    assert(v@ =~= fill_cache_requests(f));
    v
}

/// A new factor source asks for exactly the requests that fill its
/// cache, without the factor source and the quantity.
pub proof fn law_new_factor_source_asks_to_fill_its_cache(factor_source: HDFactorSource)
    ensures
        purpose_requests(FactorInstancesRequestPurpose::PreDeriveInstancesForNewFactorSource { factor_source }) == fill_cache_requests(
            factor_source.factor_source_id,
        ).map_values(|q: QuantifiedUnindexDerivationRequest| any_request(q.network_id, q.entity_kind, q.key_space, q.key_kind)),
{
    assert(purpose_requests(FactorInstancesRequestPurpose::PreDeriveInstancesForNewFactorSource { factor_source }) =~= fill_cache_requests(
        factor_source.factor_source_id,
    ).map_values(|q: QuantifiedUnindexDerivationRequest| any_request(q.network_id, q.entity_kind, q.key_space, q.key_kind)));
}

} // verus!
