//! The next derivation entity index for a request: after the largest index
//! the profile uses for it, moved on by an offset local to one run.
use vstd::prelude::*;
use crate::factor_instances_provider::next_index_assigner::profile_analyzing::{larger_opt, profile_instances};
use crate::pre_derived_keys_cache::requests::{instance_satisfies, UnquantifiedUnindexDerivationRequest};
use crate::factor_instances_provider::derive_more::{range_request, DerivationRequestWithRange};
use crate::types::derivation::{BIP32_SECURIFIED_HALF, CAP26EntityKind, HDPathComponent, KeySpace};
use crate::types::entities::{EntityFacet, Profile};
use crate::types::keys::HierarchicalDeterministicFactorInstance;
use crate::types::ordered_map::OrderedMap;
use crate::factor_instances_provider::next_index_assigner::offsets::occurrences;

verus! {

/// The instances of an entity the profile analysis reads for a key space:
/// the matrix of securified entities, the instance of unsecurified ones.
pub open spec fn request_facet(key_space: KeySpace) -> EntityFacet {
    match key_space {
        KeySpace::Securified => EntityFacet::SecurifiedMatrix,
        KeySpace::Unsecurified => EntityFacet::UnsecurifiedVeci,
    }
}

/// The largest derivation entity index among the instances of `s` that
/// answer `r`, if there is one.
pub open spec fn max_satisfying(s: Seq<HierarchicalDeterministicFactorInstance>, r: UnquantifiedUnindexDerivationRequest) -> Option<
    HDPathComponent,
>
    decreases s.len(),
{
    if s.len() == 0 {
        None
    } else {
        let rest = max_satisfying(s.drop_last(), r);
        if instance_satisfies(s.last(), r) {
            larger_opt(rest, Some(s.last().spec_path().index))
        } else {
            rest
        }
    }
}

/// The largest index answering `r` is in the key space of `r`.
pub proof fn lemma_max_satisfying_key_space(s: Seq<HierarchicalDeterministicFactorInstance>, r: UnquantifiedUnindexDerivationRequest)
    ensures
        max_satisfying(s, r) matches Some(c) ==> c.spec_key_space() == r.key_space,
    decreases s.len(),
{
    if s.len() > 0 {
        lemma_max_satisfying_key_space(s.drop_last(), r);
    }
}

/// The largest index `profile` uses for `r`: among the matrices of its
/// securified entities for the securified key space, among the instances of
/// its unsecurified entities otherwise; of the entity kind and network of `r`.
pub open spec fn profile_max_for_request(profile: Profile, r: UnquantifiedUnindexDerivationRequest) -> Option<HDPathComponent> {
    max_satisfying(profile_instances(Some(profile), r.entity_kind, request_facet(r.key_space), r.network_id), r)
}

/// The largest index among the instances of `s` answering `r`.
fn max_satisfying_of(s: &Vec<HierarchicalDeterministicFactorInstance>, r: UnquantifiedUnindexDerivationRequest) -> (m: Option<
    HDPathComponent,
>)
    ensures
        m == max_satisfying(s@, r),
{
    let mut m: Option<HDPathComponent> = None;
    let mut i: usize = 0;
    while i < s.len()
        invariant
            i <= s.len(),
            m == max_satisfying(s@.take(i as int), r),
        decreases s.len() - i,
    {
        proof {
            assert(s@.take(i + 1).drop_last() =~= s@.take(i as int));
        }
        let f = s[i];
        if f.satisfies(r) {
            let index = f.derivation_entity_index();
            m = match m {
                None => Some(index),
                Some(prev) => Some(HDPathComponent::max_of(prev, index)),
            };
        }
        i = i + 1;
    }
    assert(s@.take(i as int) =~= s@);
    m
}

/// Reads the next index for a request from a profile.
pub struct NextDerivationIndexFromProfile {
    profile_snapshot: Profile,
}

impl NextDerivationIndexFromProfile {
    pub closed spec fn spec_profile(&self) -> Profile {
        self.profile_snapshot
    }

    pub fn new(profile_snapshot: Profile) -> (r: Self)
        ensures
            r.spec_profile() == profile_snapshot,
    {
        Self { profile_snapshot }
    }

    /// The base index of the largest index the profile uses for
    /// `unindexed_request`, if it uses any.
    fn max_base_for(&self, unindexed_request: UnquantifiedUnindexDerivationRequest) -> (m: Option<u32>)
        ensures
            match profile_max_for_request(self.spec_profile(), unindexed_request) {
                None => m is None,
                Some(c) => m == Some(c.spec_base_index()),
            },
    {
        let facet = match unindexed_request.key_space {
            KeySpace::Securified => EntityFacet::SecurifiedMatrix,
            KeySpace::Unsecurified => EntityFacet::UnsecurifiedVeci,
        };
        let instances = match unindexed_request.entity_kind {
            CAP26EntityKind::Account => self.profile_snapshot.account_instances_on_network(facet, unindexed_request.network_id),
            CAP26EntityKind::Identity => self.profile_snapshot.persona_instances_on_network(facet, unindexed_request.network_id),
        };
        match max_satisfying_of(&instances, unindexed_request) {
            Some(c) => Some(c.base_index()),
            None => None,
        }
    }

    /// The index after the largest one the profile uses for
    /// `unindexed_request`, in its key space; none if it uses none.
    pub fn read_next(&self, unindexed_request: UnquantifiedUnindexDerivationRequest) -> (r: Option<HDPathComponent>)
        requires
            profile_max_for_request(self.spec_profile(), unindexed_request) matches Some(c) ==> c.spec_base_index() + 1
                < BIP32_SECURIFIED_HALF,
        ensures
            match profile_max_for_request(self.spec_profile(), unindexed_request) {
                None => r is None,
                Some(c) => r matches Some(n) && n.spec_key_space() == c.spec_key_space() && n.spec_base_index()
                    == c.spec_base_index() + 1,
            },
    {
        let facet = match unindexed_request.key_space {
            KeySpace::Securified => EntityFacet::SecurifiedMatrix,
            KeySpace::Unsecurified => EntityFacet::UnsecurifiedVeci,
        };
        let instances = match unindexed_request.entity_kind {
            CAP26EntityKind::Account => self.profile_snapshot.account_instances_on_network(facet, unindexed_request.network_id),
            CAP26EntityKind::Identity => self.profile_snapshot.persona_instances_on_network(facet, unindexed_request.network_id),
        };
        let max_or_none = max_satisfying_of(&instances, unindexed_request);
        proof {
            lemma_max_satisfying_key_space(instances@, unindexed_request);
        }
        match max_or_none {
            Some(i) => match i.add_one() {
                Ok(n) => Some(n),
                Err(_) => None,
            },
            None => None,
        }
    }
}

/// Offsets per request, local to one run: how many indices were handed out.
pub struct EphemeralLocalIndexOffsets {
    local_offsets: OrderedMap<UnquantifiedUnindexDerivationRequest, usize>,
}

impl EphemeralLocalIndexOffsets {
    /// The offset of `request`: zero until an index was handed out for it.
    pub closed spec fn spec_offset(&self, request: UnquantifiedUnindexDerivationRequest) -> usize {
        match self.local_offsets.spec_get(request) {
            Some(n) => n,
            None => 0,
        }
    }

    /// The offset of `request` is returned and moves on by one; the others
    /// stay.
    pub fn write_next(&mut self, request: UnquantifiedUnindexDerivationRequest) -> (next: usize)
        requires
            old(self).spec_offset(request) < usize::MAX,
        ensures
            next == old(self).spec_offset(request),
            final(self).spec_offset(request) == next + 1,
            forall|k: UnquantifiedUnindexDerivationRequest| k != request ==> #[trigger] final(self).spec_offset(k) == old(
                self,
            ).spec_offset(k),
    {
        let next = match self.local_offsets.get(&request) {
            Some(n) => *n,
            None => 0,
        };
        self.local_offsets.insert(request, next + 1);
        next
    }
}

impl EphemeralLocalIndexOffsets {
    /// The offset of `request`.
    fn offset(&self, request: UnquantifiedUnindexDerivationRequest) -> (n: usize)
        ensures
            n == self.spec_offset(request),
    {
        match self.local_offsets.get(&request) {
            Some(n) => *n,
            None => 0,
        }
    }
}

impl EphemeralLocalIndexOffsets {
    /// The offset of the request of `with_range` becomes the base index
    /// right after the range; the others stay.
    fn increase_offset(&mut self, with_range: &DerivationRequestWithRange)
        requires
            with_range.start_base_index + with_range.quantity <= u32::MAX,
        ensures
            final(self).spec_offset(range_request(*with_range)) == with_range.start_base_index + with_range.quantity,
            forall|k: UnquantifiedUnindexDerivationRequest| k != range_request(*with_range) ==> #[trigger] final(self).spec_offset(k)
                == old(self).spec_offset(k),
    {
        let key = with_range.unquantified();
        let offset = with_range.end_base_index() as usize;
        self.local_offsets.insert(key, offset);
    }
}

impl Default for EphemeralLocalIndexOffsets {
    /// No index handed out yet.
    fn default() -> (r: Self)
        ensures
            forall|k: UnquantifiedUnindexDerivationRequest| #[trigger] r.spec_offset(k) == 0,
    {
        Self { local_offsets: OrderedMap::new() }
    }
}

/// The base index assignment for `r` starts from: the one after the largest
/// index `profile` uses for `r`, else zero.
pub open spec fn start_index_value(profile: Option<Profile>, r: UnquantifiedUnindexDerivationRequest) -> int {
    match profile {
        Some(p) => match profile_max_for_request(p, r) {
            Some(c) => c.spec_base_index() + 1,
            None => 0,
        },
        None => 0,
    }
}

/// Assigns indices to requests: after the largest index the profile uses,
/// moved on by how many were already assigned in this run.
pub struct NextIndexAssignerWithEphemeralLocalOffsets {
    ephemeral_local_offsets: EphemeralLocalIndexOffsets,
    profile_offsets: Option<NextDerivationIndexFromProfile>,
}

impl NextIndexAssignerWithEphemeralLocalOffsets {
    /// The profile read, if any.
    pub closed spec fn spec_profile(&self) -> Option<Profile> {
        match self.profile_offsets {
            Some(p) => Some(p.profile_snapshot),
            None => None,
        }
    }

    /// How many indices were assigned to `request` in this run.
    pub closed spec fn spec_offset(&self, request: UnquantifiedUnindexDerivationRequest) -> usize {
        self.ephemeral_local_offsets.spec_offset(request)
    }

    /// An assigner reading `profile_snapshot`, if any, with no index
    /// assigned yet.
    pub fn new(profile_snapshot: Option<Profile>) -> (r: Self)
        ensures
            r.spec_profile() == profile_snapshot,
            forall|k: UnquantifiedUnindexDerivationRequest| #[trigger] r.spec_offset(k) == 0,
    {
        let profile_offsets = match profile_snapshot {
            Some(p) => Some(NextDerivationIndexFromProfile::new(p)),
            None => None,
        };
        Self { profile_offsets, ephemeral_local_offsets: EphemeralLocalIndexOffsets::default() }
    }

    /// How many indices were assigned to `request` in this run.
    pub fn offset(&self, request: UnquantifiedUnindexDerivationRequest) -> (n: usize)
        ensures
            n == self.spec_offset(request),
    {
        self.ephemeral_local_offsets.offset(request)
    }

    /// The base index assignment for `request` starts from: the one after
    /// the largest the profile uses for it, else zero.
    pub fn start_value(&self, request: UnquantifiedUnindexDerivationRequest) -> (v: u64)
        ensures
            v == start_index_value(self.spec_profile(), request),
    {
        match &self.profile_offsets {
            Some(p) => match p.max_base_for(request) {
                Some(b) => b as u64 + 1,
                None => 0,
            },
            None => 0,
        }
    }

    /// The local offset of the request of `with_range` becomes the base
    /// index right after the range; the others stay.
    pub fn increase_local_offset(&mut self, with_range: &DerivationRequestWithRange)
        requires
            with_range.start_base_index + with_range.quantity <= u32::MAX,
        ensures
            final(self).spec_profile() == old(self).spec_profile(),
            final(self).spec_offset(range_request(*with_range)) == with_range.start_base_index + with_range.quantity,
            forall|k: UnquantifiedUnindexDerivationRequest| k != range_request(*with_range) ==> #[trigger] final(self).spec_offset(k)
                == old(self).spec_offset(k),
    {
        self.ephemeral_local_offsets.increase_offset(with_range)
    }

    /// The next index for `unindexed_request`, in its key space: the base
    /// index after the largest the profile uses (zero if none), plus the
    /// number of indices already assigned to the request in this run.
    pub fn next(&mut self, unindexed_request: UnquantifiedUnindexDerivationRequest) -> (n: HDPathComponent)
        requires
            old(self).spec_offset(unindexed_request) < usize::MAX,
            start_index_value(old(self).spec_profile(), unindexed_request) + (old(self).spec_offset(unindexed_request) as u32)
                < BIP32_SECURIFIED_HALF,
        ensures
            n.spec_key_space() == unindexed_request.key_space,
            n.spec_base_index() == start_index_value(old(self).spec_profile(), unindexed_request) + (old(self).spec_offset(
                unindexed_request,
            ) as u32),
            final(self).spec_profile() == old(self).spec_profile(),
            final(self).spec_offset(unindexed_request) == old(self).spec_offset(unindexed_request) + 1,
            forall|k: UnquantifiedUnindexDerivationRequest| k != unindexed_request ==> #[trigger] final(self).spec_offset(k)
                == old(self).spec_offset(k),
            is_next_assignment(*old(self), *final(self), unindexed_request, n),
    {
        let default = match unindexed_request.key_space {
            KeySpace::Securified => HDPathComponent::securifying_base_index(0),
            KeySpace::Unsecurified => HDPathComponent::unsecurified_hardening_base_index(0),
        };
        let from_profile = match &self.profile_offsets {
            Some(p) => match p.read_next(unindexed_request) {
                Some(n) => n,
                None => default,
            },
            None => default,
        };
        proof {
            if self.spec_profile() is Some {
                lemma_max_satisfying_key_space(
                    profile_instances(self.spec_profile(), unindexed_request.entity_kind, request_facet(unindexed_request.key_space), unindexed_request.network_id),
                    unindexed_request,
                );
            }
        }
        let from_local = self.ephemeral_local_offsets.write_next(unindexed_request);
        match from_profile.add_n(from_local as u32) {
            Ok(next) => next,
            Err(_) => default,
        }
    }
}

/// `after` and `n` are what asking `before` for the next index of `k` gives.
pub open spec fn is_next_assignment(
    before: NextIndexAssignerWithEphemeralLocalOffsets,
    after: NextIndexAssignerWithEphemeralLocalOffsets,
    k: UnquantifiedUnindexDerivationRequest,
    n: HDPathComponent,
) -> bool {
    &&& n.spec_key_space() == k.key_space
    &&& n.spec_base_index() == start_index_value(before.spec_profile(), k) + (before.spec_offset(k) as u32)
    &&& after.spec_profile() == before.spec_profile()
    &&& after.spec_offset(k) == before.spec_offset(k) + 1
    &&& forall|q: UnquantifiedUnindexDerivationRequest| q != k ==> #[trigger] after.spec_offset(q) == before.spec_offset(q)
}

/// Over successive calls of `next`, each for `keys[i]` taking the assigner
/// from `states[i]` to `states[i + 1]` and giving `indices[i]`: every call
/// gives the index after the largest the profile uses for its request, moved
/// on by the starting offset plus the number of earlier calls for the same
/// request; so calls for one request give consecutive base indices, and
/// calls for other requests do not move them.
pub proof fn law_next_counts_calls_per_request(
    states: Seq<NextIndexAssignerWithEphemeralLocalOffsets>,
    keys: Seq<UnquantifiedUnindexDerivationRequest>,
    indices: Seq<HDPathComponent>,
)
    requires
        states.len() == keys.len() + 1,
        indices.len() == keys.len(),
        forall|i: int| 0 <= i < keys.len() ==> is_next_assignment(states[i], #[trigger] states[i + 1], keys[i], indices[i]),
    ensures
        forall|i: int| 0 <= i <= keys.len() ==> (#[trigger] states[i]).spec_profile() == states[0].spec_profile(),
        forall|i: int, q: UnquantifiedUnindexDerivationRequest| 0 <= i <= keys.len() ==> #[trigger] states[i].spec_offset(q)
            == states[0].spec_offset(q) + occurrences(keys.take(i), q),
        forall|i: int| 0 <= i < keys.len() ==> (#[trigger] indices[i]).spec_key_space() == keys[i].key_space && indices[i].spec_base_index()
            == start_index_value(states[0].spec_profile(), keys[i]) + ((states[0].spec_offset(keys[i]) + occurrences(
            keys.take(i),
            keys[i],
        )) as u32),
{
    lemma_next_states(states, keys, indices, keys.len() as int);
    assert forall|i: int| 0 <= i < keys.len() implies (#[trigger] indices[i]).spec_key_space() == keys[i].key_space
        && indices[i].spec_base_index() == start_index_value(states[0].spec_profile(), keys[i]) + ((states[0].spec_offset(keys[i])
        + occurrences(keys.take(i), keys[i])) as u32) by {
        assert(is_next_assignment(states[i], states[i + 1], keys[i], indices[i]));
        assert(states[i].spec_offset(keys[i]) == states[0].spec_offset(keys[i]) + occurrences(keys.take(i), keys[i]));
    }
}

/// The assigner after the first `n` calls.
proof fn lemma_next_states(
    states: Seq<NextIndexAssignerWithEphemeralLocalOffsets>,
    keys: Seq<UnquantifiedUnindexDerivationRequest>,
    indices: Seq<HDPathComponent>,
    n: int,
)
    requires
        states.len() == keys.len() + 1,
        indices.len() == keys.len(),
        forall|i: int| 0 <= i < keys.len() ==> is_next_assignment(states[i], #[trigger] states[i + 1], keys[i], indices[i]),
        0 <= n <= keys.len(),
    ensures
        forall|i: int| 0 <= i <= n ==> (#[trigger] states[i]).spec_profile() == states[0].spec_profile(),
        forall|i: int, q: UnquantifiedUnindexDerivationRequest| 0 <= i <= n ==> #[trigger] states[i].spec_offset(q)
            == states[0].spec_offset(q) + occurrences(keys.take(i), q),
    decreases n,
{
    if n == 0 {
        assert(keys.take(0).len() == 0);
    } else {
        lemma_next_states(states, keys, indices, n - 1);
        let j = n - 1;
        assert(is_next_assignment(states[j], states[j + 1], keys[j], indices[j]));
        assert(j + 1 == n);
        assert(keys.take(n).drop_last() =~= keys.take(j));
        assert(keys.take(n).last() == keys[j]);
        assert forall|i: int, q: UnquantifiedUnindexDerivationRequest| 0 <= i <= n implies #[trigger] states[i].spec_offset(q)
            == states[0].spec_offset(q) + occurrences(keys.take(i), q) by {
            if i == n {
                assert(states[j].spec_offset(q) == states[0].spec_offset(q) + occurrences(keys.take(j), q));
            }
        }
        assert forall|i: int| 0 <= i <= n implies (#[trigger] states[i]).spec_profile() == states[0].spec_profile() by {
            if i == n {
                assert(states[j].spec_profile() == states[0].spec_profile());
            }
        }
    }
}

} // verus!
