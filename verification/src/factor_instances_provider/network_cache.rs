use vstd::prelude::*;
use crate::factor_instances_provider::mixed::{
    continues_after, disjoint, CollectionsOfFactorInstances, CollectionsView, DerivationTemplate,
    IsHDFactorInstance,
};
use crate::types::error::CommonError;
use crate::types::factor_instances::{append_new, lemma_append_new_one};
use crate::types::keys::{FactorSourceIDFromHash, HierarchicalDeterministicFactorInstance};
use crate::types::network::NetworkID;
use crate::types::ordered_map::{
    entries_get, entries_keys, lemma_entries_get_at, lemma_entries_get_take, lemma_entries_keys_contains,
    unique_keys, OrderedMap,
};

verus! {

/// An instance taken from a cache, and whether it was the last of its kind
/// there, in which case more should be derived.
#[derive(Clone, Copy, Debug, PartialEq, Eq, Hash, Structural)]
pub struct FactorInstanceFromCache {
    pub instance: HierarchicalDeterministicFactorInstance,
    pub was_last_used: bool,
}

impl FactorInstanceFromCache {
    pub fn new(instance: HierarchicalDeterministicFactorInstance, was_last_used: bool) -> (f: Self)
        ensures
            f.instance == instance,
            f.was_last_used == was_last_used,
    {
        Self { instance, was_last_used }
    }
}

/// `c` can be appended to `e`: same network and factor source, nothing in
/// common, and each collection of `c` starts after the last index of the one
/// of `e`.
pub open spec fn appendable(e: CollectionsOfFactorInstances, c: CollectionsOfFactorInstances) -> bool {
    &&& c.network == e.network
    &&& c.factor_source_id == e.factor_source_id
    &&& forall|t: DerivationTemplate| #[trigger] disjoint(e.collection(t), c.collection(t))
    &&& forall|t: DerivationTemplate| #[trigger] continues_after(e.collection(t), c.collection(t))
}

/// The view of `c` appended to `e`.
pub open spec fn appended(e: CollectionsView, c: CollectionsView) -> CollectionsView {
    (e.0, e.1, e.2 + c.2, e.3 + c.3, e.4 + c.4, e.5 + c.5)
}

/// The view of the collections under `k`, if any.
pub open spec fn view_under(m: OrderedMap<FactorSourceIDFromHash, CollectionsOfFactorInstances>, k: FactorSourceIDFromHash) -> Option<
    CollectionsView,
> {
    match m.spec_get(k) {
        Some(c) => Some(c@),
        None => None,
    }
}

/// A cache of instances on one network, as collections per factor source.
pub struct FactorInstancesForSpecificNetworkCache {
    network_id: NetworkID,
    per_factor_source: OrderedMap<FactorSourceIDFromHash, CollectionsOfFactorInstances>,
}

impl FactorInstancesForSpecificNetworkCache {
    #[verifier::type_invariant]
    spec fn collections_fit(self) -> bool {
        forall|k: FactorSourceIDFromHash| #[trigger] self.per_factor_source.spec_get(k) matches Some(c) ==> c.well_formed()
            && c.network == self.network_id && c.factor_source_id == k
    }

    pub closed spec fn spec_network_id(&self) -> NetworkID {
        self.network_id
    }

    /// The collections per factor source.
    pub closed spec fn spec_per_factor(&self) -> OrderedMap<FactorSourceIDFromHash, CollectionsOfFactorInstances> {
        self.per_factor_source
    }

    pub fn network_id(&self) -> (n: NetworkID)
        ensures
            n == self.spec_network_id(),
    {
        self.network_id
    }

    /// An empty cache on `network`.
    pub fn empty(network: NetworkID) -> (s: Self)
        ensures
            s.spec_network_id() == network,
            s.spec_per_factor()@ == Seq::<(FactorSourceIDFromHash, CollectionsOfFactorInstances)>::empty(),
            forall|k: FactorSourceIDFromHash| #[trigger] view_under(s.spec_per_factor(), k) is None,
    {
        Self { network_id: network, per_factor_source: OrderedMap::new() }
    }

    /// A copy, with the same collections in the same order.
    pub fn cloned_snapshot(&self) -> (s: Self)
        ensures
            s.spec_network_id() == self.spec_network_id(),
            entries_keys(s.spec_per_factor()@) == entries_keys(self.spec_per_factor()@),
            forall|k: FactorSourceIDFromHash| #[trigger] view_under(s.spec_per_factor(), k) == view_under(
                self.spec_per_factor(),
                k,
            ),
    {
        proof {
            use_type_invariant(self);
        }
        let ghost s = self.per_factor_source@;
        let _ = self.per_factor_source.has_unique_keys();
        let mut v: Vec<(FactorSourceIDFromHash, CollectionsOfFactorInstances)> = Vec::new();
        let n = self.per_factor_source.len();
        let mut i: usize = 0;
        while i < n
            invariant
                i <= n,
                n == s.len(),
                s == self.per_factor_source@,
                v@.len() == i,
                forall|j: int| 0 <= j < i ==> (#[trigger] v@[j]).0 == s[j].0 && v@[j].1@ == s[j].1@,
            decreases n - i,
        {
            let e = self.per_factor_source.get_index(i);
            v.push((e.0, e.1.clone()));
            i = i + 1;
        }
        proof {
            assert(entries_keys(v@) =~= entries_keys(s));
            assert(unique_keys(v@)) by {
                assert forall|a: int, b: int| 0 <= a < v@.len() && 0 <= b < v@.len() && a != b implies v@[a].0 != v@[b].0 by {
                    assert(v@[a].0 == s[a].0);
                    assert(v@[b].0 == s[b].0);
                }
            }
        }
        let m = OrderedMap::from_entries(v);
        proof {
            assert forall|k: FactorSourceIDFromHash| #[trigger] m.spec_get(k) is Some implies ({
                let c = m.spec_get(k).unwrap();
                c.well_formed() && c.network == self.network_id && c.factor_source_id == k
            }) by {
                let j = choose|j: int| 0 <= j < m@.len() && m@[j].0 == k;
                lemma_entries_get_at(m@, j);
                lemma_entries_get_at(s, j);
                assert(self.per_factor_source.spec_get(k) == Some(s[j].1));
                let c = m@[j].1;
                assert forall|t: DerivationTemplate| #[trigger] c.collection(t) == s[j].1.collection(t) by {}
            }
            assert forall|k: FactorSourceIDFromHash| #[trigger] view_under(m, k) == view_under(self.per_factor_source, k) by {
                if !crate::types::ordered_map::entries_have_key(m@, k) {
                    assert(!crate::types::ordered_map::entries_have_key(s, k)) by {
                        if crate::types::ordered_map::entries_have_key(s, k) {
                            let j = choose|j: int| 0 <= j < s.len() && s[j].0 == k;
                            assert(m@[j].0 == k);
                        }
                    }
                }
            }
        }
        Self { network_id: self.network_id, per_factor_source: m }
    }

    /// Appends `instances` to the collections of `factor_source_id`, or adds
    /// them if there are none yet. They must be for this network and that
    /// factor source, and appendable to what is there.
    pub fn append_for_factor(&mut self, factor_source_id: FactorSourceIDFromHash, instances: CollectionsOfFactorInstances) -> (r:
        Result<(), CommonError>)
        requires
            instances.network == old(self).spec_network_id(),
            instances.factor_source_id == factor_source_id,
            instances.well_formed(),
            old(self).spec_per_factor().spec_get(factor_source_id) matches Some(e) ==> appendable(e, instances),
        ensures
            r is Ok,
            final(self).spec_network_id() == old(self).spec_network_id(),
            view_under(final(self).spec_per_factor(), factor_source_id) == Some(
                match view_under(old(self).spec_per_factor(), factor_source_id) {
                    Some(e) => appended(e, instances@),
                    None => instances@,
                },
            ),
            forall|k: FactorSourceIDFromHash| k != factor_source_id ==> #[trigger] final(self).spec_per_factor().spec_get(k)
                == old(self).spec_per_factor().spec_get(k),
            entries_keys(final(self).spec_per_factor()@) == append_new(
                entries_keys(old(self).spec_per_factor()@),
                seq![factor_source_id],
            ),
    {
        proof {
            use_type_invariant(&*self);
        }
        let network_id = self.network_id;
        let mut m = self.take_map();
        let ghost m0 = m;
        match m.index_of(&factor_source_id) {
            Some(i) => {
                let mut existing = m.replace_at(i, CollectionsOfFactorInstances::empty(network_id, factor_source_id));
                let ghost e0 = existing;
                existing.append(instances);
                proof {
                    assert forall|t: DerivationTemplate| #[trigger] existing.collection(t) == e0.collection(t) + instances.collection(t) by {}
                    assert(existing.account_veci@ == existing.collection(DerivationTemplate::AccountVeci));
                    assert(existing.account_mfa@ == existing.collection(DerivationTemplate::AccountMfa));
                    assert(existing.identity_veci@ == existing.collection(DerivationTemplate::IdentityVeci));
                    assert(existing.identity_mfa@ == existing.collection(DerivationTemplate::IdentityMfa));
                    assert(existing@ == appended(e0@, instances@));
                    assert(m0.spec_get(factor_source_id) == Some(e0));
                }
                m.replace_at(i, existing);
                proof {
                    assert(entries_keys(m@) =~= entries_keys(m0@));
                    lemma_entries_keys_contains(m0@, factor_source_id);
                    assert(entries_keys(m0@).contains(factor_source_id));
                    lemma_append_new_one(entries_keys(m0@), factor_source_id);
                }
            },
            None => {
                m.insert(factor_source_id, instances);
                proof {
                    assert(entries_keys(m@) =~= entries_keys(m0@).push(factor_source_id));
                    lemma_entries_keys_contains(m0@, factor_source_id);
                    lemma_append_new_one(entries_keys(m0@), factor_source_id);
                }
            },
        }
        self.per_factor_source = m;
        Ok(())
    }

    /// Takes the map out, leaving none.
    fn take_map(&mut self) -> (m: OrderedMap<FactorSourceIDFromHash, CollectionsOfFactorInstances>)
        ensures
            m == old(self).spec_per_factor(),
            final(self).spec_network_id() == old(self).spec_network_id(),
            final(self).spec_per_factor()@ == Seq::<(FactorSourceIDFromHash, CollectionsOfFactorInstances)>::empty(),
    {
        let mut tmp = Self::empty(self.network_id);
        std::mem::swap(self, &mut tmp);
        tmp.per_factor_source
    }

    /// Appends the collections of `other`, factor source by factor source, in
    /// its order.
    pub fn merge(&mut self, other: Self)
        requires
            other.spec_network_id() == old(self).spec_network_id(),
            forall|k: FactorSourceIDFromHash| #[trigger] old(self).spec_per_factor().spec_get(k) matches Some(e) ==> (
            other.spec_per_factor().spec_get(k) matches Some(c) ==> appendable(e, c)),
        ensures
            final(self).spec_network_id() == old(self).spec_network_id(),
            entries_keys(final(self).spec_per_factor()@) == append_new(
                entries_keys(old(self).spec_per_factor()@),
                entries_keys(other.spec_per_factor()@),
            ),
            forall|k: FactorSourceIDFromHash| #[trigger] view_under(final(self).spec_per_factor(), k) == match (
                view_under(old(self).spec_per_factor(), k),
                view_under(other.spec_per_factor(), k),
            ) {
                (Some(e), Some(c)) => Some(appended(e, c)),
                (None, Some(c)) => Some(c),
                (e, None) => e,
            },
    {
        proof {
            use_type_invariant(&other);
        }
        let ghost s0 = *self;
        let ghost o = other.per_factor_source;
        let _ = other.per_factor_source.has_unique_keys();
        let ghost s = other.per_factor_source@;
        let mut rest = other.per_factor_source.into_entries();
        let ghost n = s.len();
        let total = rest.len();
        assert(total == n);
        let mut i: usize = 0;
        while rest.len() > 0
            invariant
                i <= n,
                n == s.len(),
                s == o@,
                unique_keys(s),
                rest@ == s.skip(i as int),
                rest@.len() == n - i,
                total == n,
                self.spec_network_id() == s0.spec_network_id(),
                forall|k: FactorSourceIDFromHash| #[trigger] o.spec_get(k) matches Some(c) ==> c.well_formed()
                    && c.network == s0.spec_network_id() && c.factor_source_id == k,
                forall|k: FactorSourceIDFromHash| #[trigger] s0.spec_per_factor().spec_get(k) matches Some(e) ==> (
                o.spec_get(k) matches Some(c) ==> appendable(e, c)),
                entries_keys(self.spec_per_factor()@) == append_new(
                    entries_keys(s0.spec_per_factor()@),
                    entries_keys(s.take(i as int)),
                ),
                forall|k: FactorSourceIDFromHash| #[trigger] view_under(self.spec_per_factor(), k) == match (
                    view_under(s0.spec_per_factor(), k),
                    entries_get(s.take(i as int), k),
                ) {
                    (Some(e), Some(c)) => Some(appended(e, c@)),
                    (None, Some(c)) => Some(c@),
                    (e, None) => e,
                },
                forall|k: FactorSourceIDFromHash| #[trigger] self.spec_per_factor().spec_get(k) is Some ==> (
                !crate::types::ordered_map::entries_have_key(s.take(i as int), k) ==> self.spec_per_factor().spec_get(k)
                    == s0.spec_per_factor().spec_get(k)),
            decreases rest@.len(),
        {
            proof {
                assert(rest@[0] == s[i as int]);
            }
            let e = rest.remove(0);
            let k = e.0;
            let ghost before = *self;
            proof {
                lemma_entries_get_at(s, i as int);
                assert(o.spec_get(k) == Some(e.1));
                lemma_entries_get_take(s, i as int, k);
                assert(!crate::types::ordered_map::entries_have_key(s.take(i as int), k));
                if before.spec_per_factor().spec_get(k) is Some {
                    assert(before.spec_per_factor().spec_get(k) == s0.spec_per_factor().spec_get(k));
                }
            }
            let _ = self.append_for_factor(k, e.1);
            proof {
                assert forall|k2: FactorSourceIDFromHash| #[trigger] entries_get(s.take(i + 1), k2) == if k2 == k {
                    Some(e.1)
                } else {
                    entries_get(s.take(i as int), k2)
                } by {
                    lemma_entries_get_take(s, i as int, k2);
                }
                let t = s.take(i + 1);
                let u = s.take(i as int);
                assert(entries_keys(t) == entries_keys(u).push(k));
                assert(entries_keys(t).drop_last() =~= entries_keys(u));
                assert(entries_keys(t).last() == k);
                let a = entries_keys(s0.spec_per_factor()@);
                assert(append_new(a, entries_keys(t)) == (if append_new(a, entries_keys(u)).contains(k) {
                    append_new(a, entries_keys(u))
                } else {
                    append_new(a, entries_keys(u)).push(k)
                }));
                lemma_append_new_one(entries_keys(before.spec_per_factor()@), k);
                assert forall|k2: FactorSourceIDFromHash| #[trigger] view_under(self.spec_per_factor(), k2) == match (
                    view_under(s0.spec_per_factor(), k2),
                    entries_get(t, k2),
                ) {
                    (Some(e), Some(c)) => Some(appended(e, c@)),
                    (None, Some(c)) => Some(c@),
                    (e, None) => e,
                } by {
                    assert(view_under(before.spec_per_factor(), k2) == match (
                        view_under(s0.spec_per_factor(), k2),
                        entries_get(u, k2),
                    ) {
                        (Some(e), Some(c)) => Some(appended(e, c@)),
                        (None, Some(c)) => Some(c@),
                        (e, None) => e,
                    });
                    if k2 != k {
                        assert(self.spec_per_factor().spec_get(k2) == before.spec_per_factor().spec_get(k2));
                    }
                }
                assert(rest@ =~= s.skip(i + 1));
            }
            i = i + 1;
        }
        proof {
            assert(s.take(n as int) =~= s);
            assert(i == n);
        }
    }

    /// Takes the first account veci of `factor_source_id`, if any; the others
    /// keep their order. Tells whether none is left after it.
    pub fn consume_account_veci(&mut self, factor_source_id: FactorSourceIDFromHash) -> (r: Option<
        FactorInstanceFromCache,
    >)
        ensures
            final(self).spec_network_id() == old(self).spec_network_id(),
            forall|k: FactorSourceIDFromHash| k != factor_source_id ==> #[trigger] view_under(final(self).spec_per_factor(), k)
                == view_under(old(self).spec_per_factor(), k),
            match view_under(old(self).spec_per_factor(), factor_source_id) {
                None => r is None && view_under(final(self).spec_per_factor(), factor_source_id) is None,
                Some(c) => if c.2.len() == 0 {
                    r is None && view_under(final(self).spec_per_factor(), factor_source_id) == Some(c)
                } else {
                    let left = c.2.drop_first();
                    &&& r == Some(FactorInstanceFromCache { instance: c.2[0], was_last_used: left.len() == 0 })
                    &&& view_under(final(self).spec_per_factor(), factor_source_id) == Some(
                        (c.0, c.1, left, c.3, c.4, c.5),
                    )
                },
            },
    {
        proof {
            use_type_invariant(&*self);
        }
        let network_id = self.network_id;
        let mut m = self.take_map();
        let ghost m0 = m;
        let r = match m.index_of(&factor_source_id) {
            Some(i) => {
                let mut collections = m.replace_at(i, CollectionsOfFactorInstances::empty(network_id, factor_source_id));
                let ghost c0 = collections;
                let first = collections.take_first_account_veci();
                let out = match first {
                    Some(f) => Some(FactorInstanceFromCache::new(f.instance(), collections.account_veci.is_empty())),
                    None => None,
                };
                m.replace_at(i, collections);
                out
            },
            None => None,
        };
        self.per_factor_source = m;
        r
    }

    /// A copy of the collections of `factor_source_id`, if any.
    pub fn peek_all_instances_of_factor_source(&self, factor_source_id: FactorSourceIDFromHash) -> (r: Option<
        CollectionsOfFactorInstances,
    >)
        ensures
            match r {
                Some(c) => view_under(self.spec_per_factor(), factor_source_id) == Some(c@) && c.well_formed(),
                None => view_under(self.spec_per_factor(), factor_source_id) is None,
            },
    {
        proof {
            use_type_invariant(self);
        }
        match self.per_factor_source.get(&factor_source_id) {
            Some(c) => {
                let d = c.clone();
                proof {
                    assert forall|t: DerivationTemplate| #[trigger] d.collection(t) == c.collection(t) by {}
                }
                Some(d)
            },
            None => None,
        }
    }

    /// Whether the collections of `factor_source_id` are all full.
    pub fn is_full(&self, factor_source_id: FactorSourceIDFromHash) -> (b: bool)
        ensures
            b == match view_under(self.spec_per_factor(), factor_source_id) {
                Some(c) => c.2.len() == 30 && c.3.len() == 30 && c.4.len() == 30 && c.5.len() == 30,
                None => false,
            },
    {
        match self.peek_all_instances_of_factor_source(factor_source_id) {
            Some(c) => {
                let b = c.is_full();
                proof {
                    if b {
                        assert(c.collection(DerivationTemplate::AccountVeci).len() == 30);
                        assert(c.collection(DerivationTemplate::AccountMfa).len() == 30);
                        assert(c.collection(DerivationTemplate::IdentityVeci).len() == 30);
                        assert(c.collection(DerivationTemplate::IdentityMfa).len() == 30);
                    }
                }
                b
            },
            None => false,
        }
    }
}

/// Caches of instances, one per network.
pub struct FactorInstancesForEachNetworkCache {
    networks: OrderedMap<NetworkID, FactorInstancesForSpecificNetworkCache>,
}

impl FactorInstancesForEachNetworkCache {
    #[verifier::type_invariant]
    spec fn networks_fit(self) -> bool {
        forall|n: NetworkID| #[trigger] self.networks.spec_get(n) matches Some(c) ==> c.spec_network_id() == n
    }

    /// The cache of network `n`, if any.
    pub closed spec fn spec_network(&self, n: NetworkID) -> Option<FactorInstancesForSpecificNetworkCache> {
        self.networks.spec_get(n)
    }

    /// A copy of the cache of `network_id`, if any.
    pub fn clone_for_network(&self, network_id: NetworkID) -> (r: Option<FactorInstancesForSpecificNetworkCache>)
        ensures
            match r {
                Some(c) => self.spec_network(network_id) matches Some(o) && c.spec_network_id() == network_id
                    && entries_keys(c.spec_per_factor()@) == entries_keys(o.spec_per_factor()@)
                    && forall|k: FactorSourceIDFromHash| #[trigger] view_under(c.spec_per_factor(), k) == view_under(
                    o.spec_per_factor(),
                    k,
                ),
                None => self.spec_network(network_id) is None,
            },
    {
        proof {
            use_type_invariant(self);
        }
        match self.networks.get(&network_id) {
            Some(c) => Some(c.cloned_snapshot()),
            None => None,
        }
    }

    /// A copy of the cache of `network_id`, or an empty cache on it.
    pub fn clone_for_network_or_empty(&self, network_id: NetworkID) -> (c: FactorInstancesForSpecificNetworkCache)
        ensures
            c.spec_network_id() == network_id,
            forall|k: FactorSourceIDFromHash| #[trigger] view_under(c.spec_per_factor(), k) == match self.spec_network(
                network_id,
            ) {
                Some(o) => view_under(o.spec_per_factor(), k),
                None => None,
            },
    {
        match self.clone_for_network(network_id) {
            Some(c) => c,
            None => FactorInstancesForSpecificNetworkCache::empty(network_id),
        }
    }

    /// Whether the collections of `factor_source_id` on `network_id` are all
    /// full; there must be a cache of that network.
    pub fn is_full(&self, network_id: NetworkID, factor_source_id: FactorSourceIDFromHash) -> (b: bool)
        requires
            self.spec_network(network_id) is Some,
        ensures
            b == match view_under(self.spec_network(network_id).unwrap().spec_per_factor(), factor_source_id) {
                Some(c) => c.2.len() == 30 && c.3.len() == 30 && c.4.len() == 30 && c.5.len() == 30,
                None => false,
            },
    {
        match self.clone_for_network(network_id) {
            Some(c) => c.is_full(factor_source_id),
            None => false,
        }
    }

    /// A copy of every cache.
    pub fn clone_snapshot(&self) -> (s: Self)
        ensures
            forall|n: NetworkID| #[trigger] s.spec_network(n) is Some == self.spec_network(n) is Some,
            forall|n: NetworkID| #[trigger] s.spec_network(n) matches Some(c) ==> forall|k: FactorSourceIDFromHash|
                #[trigger] view_under(c.spec_per_factor(), k) == view_under(self.spec_network(n).unwrap().spec_per_factor(), k),
    {
        proof {
            use_type_invariant(self);
        }
        let mut networks: OrderedMap<NetworkID, FactorInstancesForSpecificNetworkCache> = OrderedMap::new();
        let all = NetworkID::all();
        let mut i: usize = 0;
        while i < all.len()
            invariant
                i <= all@.len(),
                all@ == seq![NetworkID::Mainnet, NetworkID::Stokenet],
                forall|n: NetworkID| #[trigger] networks.spec_get(n) matches Some(c) ==> c.spec_network_id() == n,
                forall|n: NetworkID| #[trigger] networks.spec_has(n) == (all@.take(i as int).contains(n) && self.spec_network(n) is Some),
                forall|n: NetworkID| #[trigger] networks.spec_get(n) matches Some(c) ==> forall|k: FactorSourceIDFromHash|
                    #[trigger] view_under(c.spec_per_factor(), k) == view_under(self.spec_network(n).unwrap().spec_per_factor(), k),
            decreases all@.len() - i,
        {
            let n = all[i];
            proof {
                assert forall|m: NetworkID| #[trigger] all@.take(i + 1).contains(m) == (all@.take(i as int).contains(m) || m == n) by {
                    if all@.take(i + 1).contains(m) {
                        let k = choose|k: int| 0 <= k < i + 1 && #[trigger] all@.take(i + 1)[k] == m;
                        if k < i {
                            assert(all@.take(i as int)[k] == m);
                        }
                    }
                    if all@.take(i as int).contains(m) {
                        let k = choose|k: int| 0 <= k < i && #[trigger] all@.take(i as int)[k] == m;
                        assert(all@.take(i + 1)[k] == m);
                    }
                    if m == n {
                        assert(all@.take(i + 1)[i as int] == m);
                    }
                }
                assert(!all@.take(i as int).contains(n)) by {
                    if all@.take(i as int).contains(n) {
                        let k = choose|k: int| 0 <= k < i && #[trigger] all@.take(i as int)[k] == n;
                        assert(all@[k] == all@[i as int]);
                    }
                }
            }
            match self.clone_for_network(n) {
                Some(c) => {
                    networks.insert(n, c);
                },
                None => {},
            }
            i = i + 1;
        }
        proof {
            assert forall|n: NetworkID| #[trigger] all@.take(2).contains(n) by {
                match n {
                    NetworkID::Mainnet => assert(all@.take(2)[0] == n),
                    NetworkID::Stokenet => assert(all@.take(2)[1] == n),
                }
            }
            assert forall|n: NetworkID| #[trigger] networks.spec_get(n) is Some == self.spec_network(n) is Some by {
                assert(all@.take(2).contains(n));
                assert(networks.spec_has(n) == (networks.spec_get(n) is Some));
                assert(self.networks.spec_has(n) == (self.networks.spec_get(n) is Some));
            }
        }
        Self { networks }
    }

    /// Merges `on_network` into the cache of its network, or adds it as that
    /// cache.
    pub fn merge(&mut self, on_network: FactorInstancesForSpecificNetworkCache) -> (r: Result<(), CommonError>)
        requires
            old(self).spec_network(on_network.spec_network_id()) matches Some(existing) ==> forall|k: FactorSourceIDFromHash|
                #[trigger] existing.spec_per_factor().spec_get(k) matches Some(e) ==> (
                on_network.spec_per_factor().spec_get(k) matches Some(c) ==> appendable(e, c)),
        ensures
            r is Ok,
            forall|n: NetworkID| n != on_network.spec_network_id() ==> #[trigger] final(self).spec_network(n) == old(self).spec_network(n),
            final(self).spec_network(on_network.spec_network_id()) matches Some(c) && forall|k: FactorSourceIDFromHash|
                #[trigger] view_under(c.spec_per_factor(), k) == match old(self).spec_network(on_network.spec_network_id()) {
                None => view_under(on_network.spec_per_factor(), k),
                Some(existing) => match (view_under(existing.spec_per_factor(), k), view_under(on_network.spec_per_factor(), k)) {
                    (Some(e), Some(c)) => Some(appended(e, c)),
                    (None, Some(c)) => Some(c),
                    (e, None) => e,
                },
            },
    {
        proof {
            use_type_invariant(&*self);
        }
        let n = on_network.network_id();
        let mut tmp = Self::default();
        std::mem::swap(self, &mut tmp);
        let mut networks = tmp.networks;
        match networks.index_of(&n) {
            Some(i) => {
                let mut existing = networks.replace_at(i, FactorInstancesForSpecificNetworkCache::empty(n));
                existing.merge(on_network);
                networks.replace_at(i, existing);
            },
            None => {
                networks.insert(n, on_network);
            },
        }
        self.networks = networks;
        Ok(())
    }
}

impl Default for FactorInstancesForEachNetworkCache {
    /// No network cached yet.
    fn default() -> (s: Self)
        ensures
            forall|n: NetworkID| #[trigger] s.spec_network(n) is None,
    {
        Self { networks: OrderedMap::new() }
    }
}

} // verus!
