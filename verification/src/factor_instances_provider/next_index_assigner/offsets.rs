use vstd::prelude::*;
use crate::factor_instances_provider::agnostic_paths::IndexAgnosticPath;
use crate::types::derivation::HDPathValue;
use crate::types::keys::FactorSourceIDFromHash;
use crate::types::ordered_map::OrderedMap;

verus! {

/// The offset stored under `p` in `m`, or zero.
pub open spec fn offset_in(m: OrderedMap<IndexAgnosticPath, HDPathValue>, p: IndexAgnosticPath) -> HDPathValue {
    match m.spec_get(p) {
        Some(v) => v,
        None => 0,
    }
}

/// Takes the offset under `p` from `m` and stores its successor.
fn reserve_in(m: &mut OrderedMap<IndexAgnosticPath, HDPathValue>, p: IndexAgnosticPath) -> (free:
    HDPathValue)
    requires
        offset_in(*old(m), p) < u32::MAX,
    ensures
        free == offset_in(*old(m), p),
        offset_in(*final(m), p) == free + 1,
        forall|q: IndexAgnosticPath| q != p ==> #[trigger] offset_in(*final(m), q) == offset_in(*old(m), q),
{
    match m.index_of(&p) {
        Some(i) => {
            let free = m.get_index(i).1;
            m.replace_at(i, free + 1);
            free
        },
        None => {
            m.insert(p, 1);
            0
        },
    }
}

/// Ephemeral offsets of one factor source: a counter per index agnostic path,
/// added on top of the next index found by analysing a cache or a profile, so
/// that consecutive calls give consecutive indices.
pub struct NextDerivationEntityIndexWithEphemeralOffsetsForFactorSource {
    factor_source_id: FactorSourceIDFromHash,
    ephemeral_offsets: OrderedMap<IndexAgnosticPath, HDPathValue>,
}

impl NextDerivationEntityIndexWithEphemeralOffsetsForFactorSource {
    /// The factor source these offsets are for.
    pub closed spec fn spec_factor_source_id(&self) -> FactorSourceIDFromHash {
        self.factor_source_id
    }

    /// The offset that the next reservation under `p` hands out.
    pub closed spec fn spec_offset(&self, p: IndexAgnosticPath) -> HDPathValue {
        offset_in(self.ephemeral_offsets, p)
    }

    pub fn empty(factor_source_id: FactorSourceIDFromHash) -> (s: Self)
        ensures
            s.spec_factor_source_id() == factor_source_id,
            forall|p: IndexAgnosticPath| #[trigger] s.spec_offset(p) == 0,
    {
        Self { factor_source_id, ephemeral_offsets: OrderedMap::new() }
    }

    fn reserve_path(&mut self, agnostic_path: IndexAgnosticPath) -> (free: HDPathValue)
        requires
            old(self).spec_offset(agnostic_path) < u32::MAX,
        ensures
            free == old(self).spec_offset(agnostic_path),
            final(self).spec_offset(agnostic_path) == free + 1,
            forall|q: IndexAgnosticPath| q != agnostic_path ==> #[trigger] final(self).spec_offset(q)
                == old(self).spec_offset(q),
            final(self).spec_factor_source_id() == old(self).spec_factor_source_id(),
    {
        reserve_in(&mut self.ephemeral_offsets, agnostic_path)
    }

    /// Returns the next free offset for `agnostic_path` and increases it: the
    /// offsets handed out for one path are 0, 1, 2, ... in turn.
    pub fn reserve(&mut self, factor_source_id: FactorSourceIDFromHash, agnostic_path: IndexAgnosticPath) -> (free:
        HDPathValue)
        requires
            factor_source_id == old(self).spec_factor_source_id(),
            old(self).spec_offset(agnostic_path) < u32::MAX,
        ensures
            free == old(self).spec_offset(agnostic_path),
            final(self).spec_offset(agnostic_path) == free + 1,
            forall|q: IndexAgnosticPath| q != agnostic_path ==> #[trigger] final(self).spec_offset(q)
                == old(self).spec_offset(q),
            final(self).spec_factor_source_id() == old(self).spec_factor_source_id(),
    {
        self.reserve_path(agnostic_path)
    }
}

/// The ephemeral offsets of every factor source.
pub struct NextDerivationEntityIndexWithEphemeralOffsets {
    ephemeral_offsets_per_factor_source: OrderedMap<
        FactorSourceIDFromHash,
        NextDerivationEntityIndexWithEphemeralOffsetsForFactorSource,
    >,
}

impl NextDerivationEntityIndexWithEphemeralOffsets {
    /// The offset that the next reservation for `fsid` under `p` hands out.
    pub closed spec fn spec_offset(&self, fsid: FactorSourceIDFromHash, p: IndexAgnosticPath) -> HDPathValue {
        match self.ephemeral_offsets_per_factor_source.spec_get(fsid) {
            Some(f) => f.spec_offset(p),
            None => 0,
        }
    }

    /// Reserves the next ephemeral offset for `factor_source_id` and
    /// `agnostic_path`. Consecutive calls with the same factor source and path
    /// give `previous + 1`, starting at zero; every other pair keeps its offset.
    pub fn reserve(&mut self, factor_source_id: FactorSourceIDFromHash, agnostic_path: IndexAgnosticPath) -> (free:
        HDPathValue)
        requires
            old(self).spec_offset(factor_source_id, agnostic_path) < u32::MAX,
        ensures
            free == old(self).spec_offset(factor_source_id, agnostic_path),
            final(self).spec_offset(factor_source_id, agnostic_path) == free + 1,
            forall|f: FactorSourceIDFromHash, q: IndexAgnosticPath|
                (f != factor_source_id || q != agnostic_path) ==> #[trigger] final(self).spec_offset(f, q)
                    == old(self).spec_offset(f, q),
            is_reservation(*old(self), *final(self), (factor_source_id, agnostic_path), free),
    {
        match self.ephemeral_offsets_per_factor_source.index_of(&factor_source_id) {
            Some(i) => {
                let mut for_factor = self.ephemeral_offsets_per_factor_source.replace_at(
                    i,
                    NextDerivationEntityIndexWithEphemeralOffsetsForFactorSource::empty(
                        factor_source_id,
                    ),
                );
                let free = for_factor.reserve_path(agnostic_path);
                self.ephemeral_offsets_per_factor_source.replace_at(i, for_factor);
                free
            },
            None => {
                let mut new = NextDerivationEntityIndexWithEphemeralOffsetsForFactorSource::empty(
                    factor_source_id,
                );
                let free = new.reserve_path(agnostic_path);
                self.ephemeral_offsets_per_factor_source.insert(factor_source_id, new);
                free
            },
        }
    }
}

impl Default for NextDerivationEntityIndexWithEphemeralOffsets {
    /// No offsets yet: every pair starts at zero.
    fn default() -> (s: Self)
        ensures
            forall|f: FactorSourceIDFromHash, p: IndexAgnosticPath| #[trigger] s.spec_offset(f, p) == 0,
    {
        Self { ephemeral_offsets_per_factor_source: OrderedMap::new() }
    }
}

/// Local offsets of one factor source: a counter per index agnostic path.
pub struct NextDerivationEntityIndexWithLocalOffsetsForFactorSource {
    factor_source_id: FactorSourceIDFromHash,
    local_offsets: OrderedMap<IndexAgnosticPath, HDPathValue>,
}

impl NextDerivationEntityIndexWithLocalOffsetsForFactorSource {
    pub closed spec fn spec_factor_source_id(&self) -> FactorSourceIDFromHash {
        self.factor_source_id
    }

    /// The offset that the next reservation under `p` hands out.
    pub closed spec fn spec_offset(&self, p: IndexAgnosticPath) -> HDPathValue {
        offset_in(self.local_offsets, p)
    }

    pub fn empty(factor_source_id: FactorSourceIDFromHash) -> (s: Self)
        ensures
            s.spec_factor_source_id() == factor_source_id,
            forall|p: IndexAgnosticPath| #[trigger] s.spec_offset(p) == 0,
    {
        Self { factor_source_id, local_offsets: OrderedMap::new() }
    }

    /// Returns the next free offset for `agnostic_path` and increases it.
    pub fn reserve(&mut self, agnostic_path: IndexAgnosticPath) -> (free: HDPathValue)
        requires
            old(self).spec_offset(agnostic_path) < u32::MAX,
        ensures
            free == old(self).spec_offset(agnostic_path),
            final(self).spec_offset(agnostic_path) == free + 1,
            forall|q: IndexAgnosticPath| q != agnostic_path ==> #[trigger] final(self).spec_offset(q)
                == old(self).spec_offset(q),
            final(self).spec_factor_source_id() == old(self).spec_factor_source_id(),
    {
        reserve_in(&mut self.local_offsets, agnostic_path)
    }
}

/// The local offsets of every factor source.
pub struct NextDerivationEntityIndexWithLocalOffsets {
    local_offsets_per_factor_source: OrderedMap<
        FactorSourceIDFromHash,
        NextDerivationEntityIndexWithLocalOffsetsForFactorSource,
    >,
}

impl NextDerivationEntityIndexWithLocalOffsets {
    /// The offset that the next reservation for `fsid` under `p` hands out.
    pub closed spec fn spec_offset(&self, fsid: FactorSourceIDFromHash, p: IndexAgnosticPath) -> HDPathValue {
        match self.local_offsets_per_factor_source.spec_get(fsid) {
            Some(f) => f.spec_offset(p),
            None => 0,
        }
    }

    /// Reserves the next local offset for `factor_source_id` and
    /// `agnostic_path`; every other pair keeps its offset.
    pub fn reserve(&mut self, factor_source_id: FactorSourceIDFromHash, agnostic_path: IndexAgnosticPath) -> (free:
        HDPathValue)
        requires
            old(self).spec_offset(factor_source_id, agnostic_path) < u32::MAX,
        ensures
            free == old(self).spec_offset(factor_source_id, agnostic_path),
            final(self).spec_offset(factor_source_id, agnostic_path) == free + 1,
            forall|f: FactorSourceIDFromHash, q: IndexAgnosticPath|
                (f != factor_source_id || q != agnostic_path) ==> #[trigger] final(self).spec_offset(f, q)
                    == old(self).spec_offset(f, q),
    {
        match self.local_offsets_per_factor_source.index_of(&factor_source_id) {
            Some(i) => {
                let mut for_factor = self.local_offsets_per_factor_source.replace_at(
                    i,
                    NextDerivationEntityIndexWithLocalOffsetsForFactorSource::empty(factor_source_id),
                );
                let free = for_factor.reserve(agnostic_path);
                self.local_offsets_per_factor_source.replace_at(i, for_factor);
                free
            },
            None => {
                let mut new = NextDerivationEntityIndexWithLocalOffsetsForFactorSource::empty(
                    factor_source_id,
                );
                let free = new.reserve(agnostic_path);
                self.local_offsets_per_factor_source.insert(factor_source_id, new);
                free
            },
        }
    }
}

impl Default for NextDerivationEntityIndexWithLocalOffsets {
    fn default() -> (s: Self)
        ensures
            forall|f: FactorSourceIDFromHash, p: IndexAgnosticPath| #[trigger] s.spec_offset(f, p) == 0,
    {
        Self { local_offsets_per_factor_source: OrderedMap::new() }
    }
}

/// How many times `x` occurs in `s`.
pub open spec fn occurrences<T>(s: Seq<T>, x: T) -> nat
    decreases s.len(),
{
    if s.len() == 0 {
        0
    } else {
        occurrences(s.drop_last(), x) + if s.last() == x { 1nat } else { 0nat }
    }
}

/// `after` and `free` are what a reservation for `key` on `before` gives.
pub open spec fn is_reservation(
    before: NextDerivationEntityIndexWithEphemeralOffsets,
    after: NextDerivationEntityIndexWithEphemeralOffsets,
    key: (FactorSourceIDFromHash, IndexAgnosticPath),
    free: HDPathValue,
) -> bool {
    &&& free == before.spec_offset(key.0, key.1)
    &&& after.spec_offset(key.0, key.1) == free + 1
    &&& forall|f: FactorSourceIDFromHash, q: IndexAgnosticPath| (f != key.0 || q != key.1) ==> #[trigger] after.spec_offset(f, q)
        == before.spec_offset(f, q)
}

/// Over successive reservations, each for the pair `keys[i]` taking the
/// offsets from `states[i]` to `states[i + 1]` and giving `frees[i]`: every
/// reservation gives the pair's starting offset plus the number of earlier
/// reservations of the same pair, so the offsets of one pair are handed out
/// as consecutive numbers, none twice, and other pairs never move them.
pub proof fn law_reservations_count_per_pair(
    states: Seq<NextDerivationEntityIndexWithEphemeralOffsets>,
    keys: Seq<(FactorSourceIDFromHash, IndexAgnosticPath)>,
    frees: Seq<HDPathValue>,
)
    requires
        states.len() == keys.len() + 1,
        frees.len() == keys.len(),
        forall|i: int| 0 <= i < keys.len() ==> is_reservation(states[i], #[trigger] states[i + 1], keys[i], frees[i]),
    ensures
        forall|i: int, f: FactorSourceIDFromHash, q: IndexAgnosticPath| 0 <= i <= keys.len() ==> #[trigger] states[i].spec_offset(f, q)
            == states[0].spec_offset(f, q) + occurrences(keys.take(i), (f, q)),
        forall|i: int| 0 <= i < keys.len() ==> #[trigger] frees[i] == states[0].spec_offset(keys[i].0, keys[i].1) + occurrences(
            keys.take(i),
            keys[i],
        ),
{
    lemma_reservation_offsets(states, keys, frees, keys.len() as int);
    assert forall|i: int| 0 <= i < keys.len() implies #[trigger] frees[i] == states[0].spec_offset(keys[i].0, keys[i].1)
        + occurrences(keys.take(i), keys[i]) by {
        lemma_reservation_offsets(states, keys, frees, i);
        assert(is_reservation(states[i], states[i + 1], keys[i], frees[i]));
    }
}

/// The offsets after the first `n` reservations.
proof fn lemma_reservation_offsets(
    states: Seq<NextDerivationEntityIndexWithEphemeralOffsets>,
    keys: Seq<(FactorSourceIDFromHash, IndexAgnosticPath)>,
    frees: Seq<HDPathValue>,
    n: int,
)
    requires
        states.len() == keys.len() + 1,
        frees.len() == keys.len(),
        forall|i: int| 0 <= i < keys.len() ==> is_reservation(states[i], #[trigger] states[i + 1], keys[i], frees[i]),
        0 <= n <= keys.len(),
    ensures
        forall|i: int, f: FactorSourceIDFromHash, q: IndexAgnosticPath| 0 <= i <= n ==> #[trigger] states[i].spec_offset(f, q)
            == states[0].spec_offset(f, q) + occurrences(keys.take(i), (f, q)),
    decreases n,
{
    if n == 0 {
        assert forall|i: int, f: FactorSourceIDFromHash, q: IndexAgnosticPath| 0 <= i <= n implies #[trigger] states[i].spec_offset(f, q)
            == states[0].spec_offset(f, q) + occurrences(keys.take(i), (f, q)) by {
            assert(keys.take(0).len() == 0);
        }
    } else {
        lemma_reservation_offsets(states, keys, frees, n - 1);
        assert forall|i: int, f: FactorSourceIDFromHash, q: IndexAgnosticPath| 0 <= i <= n implies #[trigger] states[i].spec_offset(f, q)
            == states[0].spec_offset(f, q) + occurrences(keys.take(i), (f, q)) by {
            if i == n {
                let j = n - 1;
                assert(is_reservation(states[j], states[j + 1], keys[j], frees[j]));
                assert(j + 1 == n);
                assert(keys.take(n).drop_last() =~= keys.take(n - 1));
                assert(keys.take(n).last() == keys[n - 1]);
                assert(states[n - 1].spec_offset(f, q) == states[0].spec_offset(f, q) + occurrences(keys.take(n - 1), (f, q)));
            }
        }
    }
}

} // verus!
