//! Requests for factor instances that name neither a derivation index nor,
//! for the unquantified kind, a quantity.
use vstd::prelude::*;
use crate::types::derivation::{CAP26EntityKind, CAP26KeyKind, DerivationPath, KeySpace};
use crate::types::keys::{FactorSourceIDFromHash, HierarchicalDeterministicFactorInstance};
use crate::types::network::NetworkID;
use crate::types::ordered_map::MapKey;

verus! {

/// Factor instances of one factor source on one network, for one entity
/// kind, one key kind and one key space, whatever their derivation index.
#[derive(Clone, Copy, Debug, PartialEq, Eq, Hash, Structural)]
pub struct UnquantifiedUnindexDerivationRequest {
    pub factor_source_id: FactorSourceIDFromHash,
    pub network_id: NetworkID,
    pub entity_kind: CAP26EntityKind,
    pub key_kind: CAP26KeyKind,
    pub key_space: KeySpace,
}

/// The request an instance answers: its factor source and its derivation
/// path without the index.
pub open spec fn request_of(f: HierarchicalDeterministicFactorInstance) -> UnquantifiedUnindexDerivationRequest {
    UnquantifiedUnindexDerivationRequest {
        factor_source_id: f.factor_source_id,
        network_id: f.spec_path().network_id,
        entity_kind: f.spec_path().entity_kind,
        key_kind: f.spec_path().key_kind,
        key_space: f.spec_path().index.spec_key_space(),
    }
}

/// A derivation path answers `r` when its network, entity kind, key kind and
/// key space are those of `r`.
pub open spec fn path_satisfies(p: DerivationPath, r: UnquantifiedUnindexDerivationRequest) -> bool {
    &&& r.entity_kind == p.entity_kind
    &&& r.network_id == p.network_id
    &&& r.key_kind == p.key_kind
    &&& r.key_space == p.index.spec_key_space()
}

/// An instance answers `r` when its path does and it is of `r`'s factor source.
pub open spec fn instance_satisfies(f: HierarchicalDeterministicFactorInstance, r: UnquantifiedUnindexDerivationRequest) -> bool {
    path_satisfies(f.spec_path(), r) && r.factor_source_id == f.factor_source_id
}

/// Every instance of `s` answers `r`.
pub open spec fn all_satisfy(s: Seq<HierarchicalDeterministicFactorInstance>, r: UnquantifiedUnindexDerivationRequest) -> bool {
    forall|i: int| 0 <= i < s.len() ==> instance_satisfies(#[trigger] s[i], r)
}

/// An instance answers exactly the request it is grouped under.
pub proof fn lemma_satisfies_own_request(f: HierarchicalDeterministicFactorInstance, r: UnquantifiedUnindexDerivationRequest)
    ensures
        instance_satisfies(f, r) <==> request_of(f) == r,
{
}

impl UnquantifiedUnindexDerivationRequest {
    pub fn new(
        factor_source_id: FactorSourceIDFromHash,
        network_id: NetworkID,
        entity_kind: CAP26EntityKind,
        key_kind: CAP26KeyKind,
        key_space: KeySpace,
    ) -> (r: Self)
        ensures
            r == (UnquantifiedUnindexDerivationRequest { factor_source_id, network_id, entity_kind, key_kind, key_space }),
    {
        UnquantifiedUnindexDerivationRequest { factor_source_id, network_id, entity_kind, key_kind, key_space }
    }

    /// The request `instance` answers.
    pub fn from_instance(instance: &HierarchicalDeterministicFactorInstance) -> (r: Self)
        ensures
            r == request_of(*instance),
    {
        let path = instance.derivation_path();
        Self::new(instance.factor_source_id(), path.network_id, path.entity_kind, path.key_kind, path.key_space())
    }
}

impl MapKey for UnquantifiedUnindexDerivationRequest {
    fn same(&self, other: &Self) -> (b: bool) {
        *self == *other
    }
}

impl DerivationPath {
    /// Whether this path answers `request`.
    fn satisfies(&self, request: UnquantifiedUnindexDerivationRequest) -> (b: bool)
        ensures
            b == path_satisfies(*self, request),
    {
        request.entity_kind == self.entity_kind && request.network_id == self.network_id && request.entity_kind
            == self.entity_kind && request.key_kind == self.key_kind && request.key_space == self.index.key_space()
    }
}

impl HierarchicalDeterministicFactorInstance {
    /// Whether this instance answers `request`: same factor source, network,
    /// entity kind, key kind and key space.
    pub fn satisfies(&self, request: UnquantifiedUnindexDerivationRequest) -> (b: bool)
        ensures
            b == instance_satisfies(*self, request),
    {
        self.derivation_path().satisfies(request) && request.factor_source_id == self.factor_source_id
    }
}

/// Whether every instance of `instances` answers `request`.
pub fn check_all_satisfy(instances: &Vec<HierarchicalDeterministicFactorInstance>, request: UnquantifiedUnindexDerivationRequest) -> (b:
    bool)
    ensures
        b == all_satisfy(instances@, request),
{
    let mut i: usize = 0;
    while i < instances.len()
        invariant
            i <= instances@.len(),
            forall|j: int| 0 <= j < i ==> instance_satisfies(#[trigger] instances@[j], request),
        decreases instances@.len() - i,
    {
        if !instances[i].satisfies(request) {
            return false;
        }
        i = i + 1;
    }
    true
}

/// A request for a quantity of factor instances of one factor source on one
/// network, for one entity kind, one key kind and one key space.
#[derive(Clone, Copy, Debug, PartialEq, Eq, Hash, Structural)]
pub struct QuantifiedUnindexDerivationRequest {
    pub factor_source_id: FactorSourceIDFromHash,
    pub network_id: NetworkID,
    pub entity_kind: CAP26EntityKind,
    pub key_kind: CAP26KeyKind,
    pub key_space: KeySpace,
    pub requested_quantity: usize,
}

/// The request without its quantity.
pub open spec fn unquantified(r: QuantifiedUnindexDerivationRequest) -> UnquantifiedUnindexDerivationRequest {
    UnquantifiedUnindexDerivationRequest {
        factor_source_id: r.factor_source_id,
        network_id: r.network_id,
        entity_kind: r.entity_kind,
        key_kind: r.key_kind,
        key_space: r.key_space,
    }
}

impl QuantifiedUnindexDerivationRequest {
    pub fn new(
        factor_source_id: FactorSourceIDFromHash,
        network_id: NetworkID,
        entity_kind: CAP26EntityKind,
        key_kind: CAP26KeyKind,
        key_space: KeySpace,
        requested_quantity: usize,
    ) -> (r: Self)
        ensures
            r == (QuantifiedUnindexDerivationRequest {
                factor_source_id,
                network_id,
                entity_kind,
                key_kind,
                key_space,
                requested_quantity,
            }),
    {
        QuantifiedUnindexDerivationRequest { factor_source_id, network_id, entity_kind, key_kind, key_space, requested_quantity }
    }

    pub fn requested_quantity(&self) -> (q: usize)
        ensures
            q == self.requested_quantity,
    {
        self.requested_quantity
    }

    /// The request without its quantity.
    pub fn unquantified(&self) -> (r: UnquantifiedUnindexDerivationRequest)
        ensures
            r == unquantified(*self),
    {
        UnquantifiedUnindexDerivationRequest::new(
            self.factor_source_id,
            self.network_id,
            self.entity_kind,
            self.key_kind,
            self.key_space,
        )
    }
}

/// Several quantified requests, in order.
#[derive(Clone, Debug, PartialEq, Eq)]
pub struct QuantifiedUnindexDerivationRequests {
    requests: Vec<QuantifiedUnindexDerivationRequest>,
}

impl View for QuantifiedUnindexDerivationRequests {
    type V = Seq<QuantifiedUnindexDerivationRequest>;

    closed spec fn view(&self) -> Seq<QuantifiedUnindexDerivationRequest> {
        self.requests@
    }
}

impl QuantifiedUnindexDerivationRequests {
    pub fn new(requests: Vec<QuantifiedUnindexDerivationRequest>) -> (r: Self)
        ensures
            r@ == requests@,
    {
        Self { requests }
    }

    /// The requests, in order.
    pub fn requests(&self) -> (v: Vec<QuantifiedUnindexDerivationRequest>)
        ensures
            v@ == self@,
    {
        let mut v: Vec<QuantifiedUnindexDerivationRequest> = Vec::new();
        let mut i: usize = 0;
        while i < self.requests.len()
            invariant
                i <= self.requests@.len(),
                v@ == self.requests@.take(i as int),
            decreases self.requests@.len() - i,
        {
            v.push(self.requests[i]);
            assert(self.requests@.take(i + 1) =~= self.requests@.take(i as int).push(self.requests@[i as int]));
            i = i + 1;
        }
        assert(self.requests@.take(self.requests@.len() as int) =~= self.requests@);
        v
    }
}

} // verus!
