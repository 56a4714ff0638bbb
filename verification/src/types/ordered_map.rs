use vstd::prelude::*;

verus! {

/// A key of an `OrderedMap`: a value whose executable equality is its
/// mathematical equality.
pub trait MapKey: Copy + Sized {
    fn same(&self, other: &Self) -> (b: bool)
        ensures
            b == (*self == *other),
    ;
}

/// Whether some entry of `s` has key `k`.
pub open spec fn entries_have_key<K, V>(s: Seq<(K, V)>, k: K) -> bool {
    exists|i: int| 0 <= i < s.len() && s[i].0 == k
}

/// The keys of `s` are pairwise distinct.
pub open spec fn unique_keys<K, V>(s: Seq<(K, V)>) -> bool {
    forall|i: int, j: int| 0 <= i < s.len() && 0 <= j < s.len() && i != j ==> s[i].0 != s[j].0
}

/// The value under `k` in `s`, if any.
pub open spec fn entries_get<K, V>(s: Seq<(K, V)>, k: K) -> Option<V> {
    if entries_have_key(s, k) {
        Some(s[choose|i: int| 0 <= i < s.len() && s[i].0 == k].1)
    } else {
        None
    }
}

/// The keys of `s`, in order.
pub open spec fn entries_keys<K, V>(s: Seq<(K, V)>) -> Seq<K> {
    s.map_values(|e: (K, V)| e.0)
}

/// With distinct keys, the entry at `i` is what `entries_get` finds.
pub proof fn lemma_entries_get_at<K, V>(s: Seq<(K, V)>, i: int)
    requires
        unique_keys(s),
        0 <= i < s.len(),
    ensures
        entries_get(s, s[i].0) == Some(s[i].1),
{
    let k = s[i].0;
    assert(entries_have_key(s, k));
    let j = choose|j: int| 0 <= j < s.len() && s[j].0 == k;
    assert(j == i);
}

/// Looking up in one more entry of a sequence with distinct keys finds that
/// entry's value under its key and the earlier value under any other key.
pub proof fn lemma_entries_get_take<K, V>(s: Seq<(K, V)>, i: int, k: K)
    requires
        unique_keys(s),
        0 <= i < s.len(),
    ensures
        entries_get(s.take(i + 1), k) == (if s[i].0 == k {
            Some(s[i].1)
        } else {
            entries_get(s.take(i), k)
        }),
        entries_keys(s.take(i + 1)) == entries_keys(s.take(i)).push(s[i].0),
        entries_have_key(s.take(i), s[i].0) == false,
{
    let t = s.take(i + 1);
    let u = s.take(i);
    assert(unique_keys(t));
    assert(unique_keys(u));
    assert(entries_keys(t) =~= entries_keys(u).push(s[i].0));
    if s[i].0 == k {
        assert(t[i].0 == k);
        lemma_entries_get_at(t, i);
    } else if entries_have_key(u, k) {
        let j = choose|j: int| 0 <= j < u.len() && u[j].0 == k;
        lemma_entries_get_at(u, j);
        assert(t[j] == u[j]);
        lemma_entries_get_at(t, j);
    } else {
        assert(!entries_have_key(t, k)) by {
            if entries_have_key(t, k) {
                let j = choose|j: int| 0 <= j < t.len() && t[j].0 == k;
                if j < i {
                    assert(u[j].0 == k);
                }
            }
        }
    }
    assert(!entries_have_key(u, s[i].0)) by {
        if entries_have_key(u, s[i].0) {
            let j = choose|j: int| 0 <= j < u.len() && u[j].0 == s[i].0;
            assert(s[j].0 == s[i].0);
        }
    }
}

/// Whether `k` has an entry is whether it is among the keys.
pub proof fn lemma_entries_keys_contains<K, V>(s: Seq<(K, V)>, k: K)
    ensures
        entries_have_key(s, k) == entries_keys(s).contains(k),
{
    if entries_have_key(s, k) {
        let j = choose|j: int| 0 <= j < s.len() && s[j].0 == k;
        assert(entries_keys(s)[j] == k);
    }
    if entries_keys(s).contains(k) {
        let j = choose|j: int| 0 <= j < entries_keys(s).len() && entries_keys(s)[j] == k;
        assert(s[j].0 == k);
    }
}

/// A map that remembers the order in which keys were first inserted.
#[derive(Debug, PartialEq, Eq)]
pub struct OrderedMap<K: MapKey, V> {
    entries: Vec<(K, V)>,
}

impl<K: MapKey, V> View for OrderedMap<K, V> {
    type V = Seq<(K, V)>;

    closed spec fn view(&self) -> Seq<(K, V)> {
        self.entries@
    }
}

impl<K: MapKey, V: Copy> OrderedMap<K, V> {
    /// A copy of the map, in the same order.
    pub fn copied(&self) -> (r: Self)
        ensures
            r@ == self@,
    {
        proof {
            use_type_invariant(self);
        }
        let mut v: Vec<(K, V)> = Vec::new();
        let mut i: usize = 0;
        while i < self.entries.len()
            invariant
                i <= self.entries@.len(),
                v@ == self.entries@.take(i as int),
            decreases self.entries@.len() - i,
        {
            let e: (K, V) = self.entries[i];
            v.push(e);
            assert(self.entries@.take(i + 1) =~= self.entries@.take(i as int).push(self.entries@[i as int]));
            i = i + 1;
        }
        assert(self.entries@.take(self.entries@.len() as int) =~= self.entries@);
        OrderedMap { entries: v }
    }
}

impl<K: MapKey, V> OrderedMap<K, V> {
    #[verifier::type_invariant]
    spec fn keys_are_unique(self) -> bool {
        unique_keys(self.entries@)
    }

    pub open spec fn spec_get(&self, k: K) -> Option<V> {
        entries_get(self@, k)
    }

    pub open spec fn spec_has(&self, k: K) -> bool {
        entries_have_key(self@, k)
    }

    /// An empty map.
    pub fn new() -> (m: Self)
        ensures
            m@ == Seq::<(K, V)>::empty(),
            forall|k: K| !m.spec_has(k),
    {
        OrderedMap { entries: Vec::new() }
    }

    /// The map of `entries`, whose keys are distinct.
    pub fn from_entries(entries: Vec<(K, V)>) -> (m: Self)
        requires
            unique_keys(entries@),
        ensures
            m@ == entries@,
    {
        OrderedMap { entries }
    }

    /// The keys are distinct.
    pub fn has_unique_keys(&self) -> (b: bool)
        ensures
            b,
            unique_keys(self@),
    {
        proof {
            use_type_invariant(self);
        }
        true
    }

    pub fn len(&self) -> (n: usize)
        ensures
            n == self@.len(),
    {
        self.entries.len()
    }

    pub fn is_empty(&self) -> (b: bool)
        ensures
            b == (self@.len() == 0),
    {
        self.entries.len() == 0
    }

    /// The position of `k`, if present.
    pub fn index_of(&self, k: &K) -> (r: Option<usize>)
        ensures
            r is None <==> !self.spec_has(*k),
            r matches Some(i) ==> i < self@.len() && self@[i as int].0 == *k && self.spec_get(*k)
                == Some(self@[i as int].1),
    {
        proof {
            use_type_invariant(self);
        }
        let mut i: usize = 0;
        while i < self.entries.len()
            invariant
                i <= self.entries@.len(),
                unique_keys(self.entries@),
                forall|j: int| 0 <= j < i ==> self.entries@[j].0 != *k,
            decreases self.entries@.len() - i,
        {
            if self.entries[i].0.same(k) {
                proof {
                    lemma_entries_get_at(self.entries@, i as int);
                }
                return Some(i);
            }
            i = i + 1;
        }
        None
    }

    pub fn contains_key(&self, k: &K) -> (b: bool)
        ensures
            b == self.spec_has(*k),
    {
        self.index_of(k).is_some()
    }

    /// The value under `k`, if present.
    pub fn get(&self, k: &K) -> (r: Option<&V>)
        ensures
            match r {
                Some(v) => self.spec_get(*k) == Some(*v),
                None => self.spec_get(*k) is None,
            },
    {
        match self.index_of(k) {
            Some(i) => Some(&self.entries[i].1),
            None => None,
        }
    }

    /// The entry at position `i`.
    pub fn get_index(&self, i: usize) -> (e: &(K, V))
        requires
            i < self@.len(),
        ensures
            *e == self@[i as int],
    {
        &self.entries[i]
    }

    /// The keys, in order.
    pub fn keys(&self) -> (ks: Vec<K>)
        ensures
            ks@ == entries_keys(self@),
            ks@.no_duplicates(),
    {
        proof {
            use_type_invariant(self);
        }
        let mut ks: Vec<K> = Vec::new();
        let mut i: usize = 0;
        while i < self.entries.len()
            invariant
                i <= self.entries@.len(),
                ks@ == entries_keys(self.entries@.take(i as int)),
            decreases self.entries@.len() - i,
        {
            ks.push(self.entries[i].0);
            assert(entries_keys(self.entries@.take(i + 1)) =~= entries_keys(self.entries@.take(i as int)).push(self.entries@[i as int].0));
            i = i + 1;
        }
        assert(self.entries@.take(self.entries@.len() as int) =~= self.entries@);
        assert forall|a: int, b: int| 0 <= a < b < ks@.len() implies ks@[a] != ks@[b] by {
            assert(ks@[a] == self.entries@[a].0 && ks@[b] == self.entries@[b].0);
        }
        ks
    }

    /// Sets the value under `k`: in place if `k` is present, else at the end.
    pub fn insert(&mut self, k: K, v: V)
        ensures
            old(self).spec_has(k) ==> exists|i: int| 0 <= i < old(self)@.len() && old(self)@[i].0 == k
                && final(self)@ == old(self)@.update(i, (k, v)),
            !old(self).spec_has(k) ==> final(self)@ == old(self)@.push((k, v)),
            final(self).spec_get(k) == Some(v),
            forall|k2: K| k2 != k ==> #[trigger] final(self).spec_get(k2) == old(self).spec_get(k2),
            forall|k2: K| #[trigger] final(self).spec_has(k2) <==> (old(self).spec_has(k2) || k2 == k),
    {
        proof {
            use_type_invariant(&*self);
        }
        match self.index_of(&k) {
            Some(i) => {
                let ghost s = self.entries@;
                let mut entries = self.take_entries();
                entries.set(i, (k, v));
                self.entries = entries;
                proof {
                    let t = self.entries@;
                    assert(t == s.update(i as int, (k, v)));
                    assert(unique_keys(t));
                    lemma_entries_get_at(t, i as int);
                    assert forall|k2: K| k2 != k implies #[trigger] entries_get(t, k2) == entries_get(s, k2) by {
                        if entries_have_key(s, k2) {
                            let j = choose|j: int| 0 <= j < s.len() && s[j].0 == k2;
                            lemma_entries_get_at(s, j);
                            lemma_entries_get_at(t, j);
                        }
                        if entries_have_key(t, k2) {
                            let j = choose|j: int| 0 <= j < t.len() && t[j].0 == k2;
                            assert(s[j].0 == k2);
                        }
                    }
                    assert forall|k2: K| #[trigger] entries_have_key(t, k2) <==> (entries_have_key(s, k2) || k2 == k) by {
                        if entries_have_key(s, k2) {
                            let j = choose|j: int| 0 <= j < s.len() && s[j].0 == k2;
                            assert(t[j].0 == k2);
                        }
                        if entries_have_key(t, k2) {
                            let j = choose|j: int| 0 <= j < t.len() && t[j].0 == k2;
                            assert(s[j].0 == k2);
                        }
                        if k2 == k {
                            assert(t[i as int].0 == k2);
                        }
                    }
                }
            },
            None => {
                let ghost s = self.entries@;
                let mut entries = self.take_entries();
                entries.push((k, v));
                proof {
                    assert(unique_keys(entries@)) by {
                        assert forall|a: int, b: int| 0 <= a < entries@.len() && 0 <= b < entries@.len() && a != b implies entries@[a].0 != entries@[b].0 by {
                            if a == s.len() as int {
                                assert(s[b].0 != k);
                            } else if b == s.len() as int {
                                assert(s[a].0 != k);
                            }
                        }
                    }
                }
                self.entries = entries;
                proof {
                    let t = self.entries@;
                    assert(t == s.push((k, v)));
                    assert(unique_keys(t));
                    lemma_entries_get_at(t, s.len() as int);
                    assert forall|k2: K| k2 != k implies #[trigger] entries_get(t, k2) == entries_get(s, k2) by {
                        if entries_have_key(s, k2) {
                            let j = choose|j: int| 0 <= j < s.len() && s[j].0 == k2;
                            lemma_entries_get_at(s, j);
                            lemma_entries_get_at(t, j);
                        }
                        if entries_have_key(t, k2) {
                            let j = choose|j: int| 0 <= j < t.len() && t[j].0 == k2;
                            assert(s[j].0 == k2);
                        }
                    }
                    assert forall|k2: K| #[trigger] entries_have_key(t, k2) <==> (entries_have_key(s, k2) || k2 == k) by {
                        if entries_have_key(s, k2) {
                            let j = choose|j: int| 0 <= j < s.len() && s[j].0 == k2;
                            assert(t[j].0 == k2);
                        }
                        if entries_have_key(t, k2) {
                            let j = choose|j: int| 0 <= j < t.len() && t[j].0 == k2;
                            if j < s.len() {
                                assert(s[j].0 == k2);
                            }
                        }
                        if k2 == k {
                            assert(t[s.len() as int].0 == k2);
                        }
                    }
                }
            },
        }
    }

    /// Takes the entries out, leaving the map empty.
    fn take_entries(&mut self) -> (v: Vec<(K, V)>)
        ensures
            v@ == old(self)@,
            unique_keys(v@),
            final(self)@ == Seq::<(K, V)>::empty(),
    {
        proof {
            use_type_invariant(&*self);
        }
        let mut tmp = OrderedMap { entries: Vec::new() };
        std::mem::swap(self, &mut tmp);
        tmp.entries
    }

    /// Replaces the value at position `i` by `v` and returns the old value.
    pub fn replace_at(&mut self, i: usize, v: V) -> (old_v: V)
        requires
            i < old(self)@.len(),
        ensures
            old_v == old(self)@[i as int].1,
            final(self)@ == old(self)@.update(i as int, (old(self)@[i as int].0, v)),
            final(self).spec_get(old(self)@[i as int].0) == Some(v),
            forall|k2: K| k2 != old(self)@[i as int].0 ==> #[trigger] final(self).spec_get(k2) == old(self).spec_get(k2),
            forall|k2: K| #[trigger] final(self).spec_has(k2) == old(self).spec_has(k2),
    {
        proof {
            use_type_invariant(&*self);
        }
        let ghost s = self.entries@;
        let k = self.entries[i].0;
        let mut e = (k, v);
        let mut entries = self.take_entries();
        std::mem::swap(&mut entries[i], &mut e);
        self.entries = entries;
        proof {
            let t = self.entries@;
            assert(t == s.update(i as int, (k, v)));
            assert(unique_keys(t));
            lemma_entries_get_at(t, i as int);
            assert forall|k2: K| k2 != k implies #[trigger] entries_get(t, k2) == entries_get(s, k2) by {
                if entries_have_key(s, k2) {
                    let j = choose|j: int| 0 <= j < s.len() && s[j].0 == k2;
                    lemma_entries_get_at(s, j);
                    lemma_entries_get_at(t, j);
                }
                if entries_have_key(t, k2) {
                    let j = choose|j: int| 0 <= j < t.len() && t[j].0 == k2;
                    assert(s[j].0 == k2);
                }
            }
            assert forall|k2: K| #[trigger] entries_have_key(t, k2) == entries_have_key(s, k2) by {
                if entries_have_key(s, k2) {
                    let j = choose|j: int| 0 <= j < s.len() && s[j].0 == k2;
                    assert(t[j].0 == k2);
                }
                if entries_have_key(t, k2) {
                    let j = choose|j: int| 0 <= j < t.len() && t[j].0 == k2;
                    assert(s[j].0 == k2);
                }
            }
        }
        e.1
    }

    /// Removes the entry at position `i`, keeping the order of the others.
    pub fn remove_at(&mut self, i: usize) -> (e: (K, V))
        requires
            i < old(self)@.len(),
        ensures
            e == old(self)@[i as int],
            final(self)@ == old(self)@.remove(i as int),
            !final(self).spec_has(e.0),
            forall|k2: K| k2 != e.0 ==> #[trigger] final(self).spec_get(k2) == old(self).spec_get(k2),
            forall|k2: K| k2 != e.0 ==> (#[trigger] final(self).spec_has(k2) == old(self).spec_has(k2)),
    {
        proof {
            use_type_invariant(&*self);
        }
        let ghost s = self.entries@;
        let mut entries = self.take_entries();
        let e = entries.remove(i);
        proof {
            let t = entries@;
            assert forall|a: int, b: int| 0 <= a < t.len() && 0 <= b < t.len() && a != b implies t[a].0 != t[b].0 by {
                let a2 = if a < i { a } else { a + 1 };
                let b2 = if b < i { b } else { b + 1 };
                assert(t[a] == s[a2] && t[b] == s[b2]);
            }
        }
        self.entries = entries;
        proof {
            let t = self.entries@;
            assert(t == s.remove(i as int));
            assert forall|a: int, b: int| 0 <= a < t.len() && 0 <= b < t.len() && a != b implies t[a].0 != t[b].0 by {
                let a2 = if a < i { a } else { a + 1 };
                let b2 = if b < i { b } else { b + 1 };
                assert(t[a] == s[a2] && t[b] == s[b2]);
            }
            assert(!entries_have_key(t, e.0)) by {
                if entries_have_key(t, e.0) {
                    let j = choose|j: int| 0 <= j < t.len() && t[j].0 == e.0;
                    let j2 = if j < i { j } else { j + 1 };
                    assert(s[j2].0 == e.0);
                }
            }
            assert forall|k2: K| k2 != e.0 implies #[trigger] entries_have_key(t, k2) == entries_have_key(s, k2) by {
                if entries_have_key(s, k2) {
                    let j = choose|j: int| 0 <= j < s.len() && s[j].0 == k2;
                    let j3 = if j < i { j } else { j - 1 };
                    assert(t[j3] == s[j]);
                }
                if entries_have_key(t, k2) {
                    let j = choose|j: int| 0 <= j < t.len() && t[j].0 == k2;
                    let j2 = if j < i { j } else { j + 1 };
                    assert(s[j2].0 == k2);
                }
            }
            assert forall|k2: K| k2 != e.0 implies #[trigger] entries_get(t, k2) == entries_get(s, k2) by {
                if entries_have_key(s, k2) {
                    let j = choose|j: int| 0 <= j < s.len() && s[j].0 == k2;
                    lemma_entries_get_at(s, j);
                    let j3 = if j < i { j } else { j - 1 };
                    assert(t[j3] == s[j]);
                    lemma_entries_get_at(t, j3);
                }
                if entries_have_key(t, k2) {
                    let j = choose|j: int| 0 <= j < t.len() && t[j].0 == k2;
                    let j2 = if j < i { j } else { j + 1 };
                    assert(s[j2].0 == k2);
                }
            }
        }
        e
    }

    /// Removes the entry at position `i`; the last entry takes its place.
    pub fn swap_remove_at(&mut self, i: usize) -> (e: (K, V))
        requires
            i < old(self)@.len(),
        ensures
            e == old(self)@[i as int],
            final(self)@ == old(self)@.update(i as int, old(self)@.last()).drop_last(),
            !final(self).spec_has(e.0),
            forall|k2: K| k2 != e.0 ==> #[trigger] final(self).spec_get(k2) == old(self).spec_get(k2),
            forall|k2: K| k2 != e.0 ==> (#[trigger] final(self).spec_has(k2) == old(self).spec_has(k2)),
    {
        proof {
            use_type_invariant(&*self);
        }
        let ghost s = self.entries@;
        let ghost n = s.len() - 1;
        let mut entries = self.take_entries();
        let e = entries.swap_remove(i);
        proof {
            let t = entries@;
            assert(t =~= s.update(i as int, s.last()).drop_last());
            // position `a` of `t` holds the entry at position `src(a)` of `s`
            assert forall|a: int, b: int| 0 <= a < t.len() && 0 <= b < t.len() && a != b implies t[a].0 != t[b].0 by {
                let a2 = if a == i { n } else { a };
                let b2 = if b == i { n } else { b };
                assert(t[a] == s[a2] && t[b] == s[b2]);
            }
        }
        self.entries = entries;
        proof {
            let t = self.entries@;
            assert(!entries_have_key(t, e.0)) by {
                if entries_have_key(t, e.0) {
                    let j = choose|j: int| 0 <= j < t.len() && t[j].0 == e.0;
                    let j2 = if j == i { n } else { j };
                    assert(t[j] == s[j2]);
                }
            }
            assert forall|k2: K| k2 != e.0 implies #[trigger] entries_have_key(t, k2) == entries_have_key(s, k2) by {
                if entries_have_key(s, k2) {
                    let j = choose|j: int| 0 <= j < s.len() && s[j].0 == k2;
                    let j3 = if j == n { i as int } else { j };
                    assert(t[j3] == s[j]);
                }
                if entries_have_key(t, k2) {
                    let j = choose|j: int| 0 <= j < t.len() && t[j].0 == k2;
                    let j2 = if j == i { n } else { j };
                    assert(t[j] == s[j2]);
                }
            }
            assert forall|k2: K| k2 != e.0 implies #[trigger] entries_get(t, k2) == entries_get(s, k2) by {
                if entries_have_key(s, k2) {
                    let j = choose|j: int| 0 <= j < s.len() && s[j].0 == k2;
                    lemma_entries_get_at(s, j);
                    let j3 = if j == n { i as int } else { j };
                    assert(t[j3] == s[j]);
                    lemma_entries_get_at(t, j3);
                }
                if entries_have_key(t, k2) {
                    let j = choose|j: int| 0 <= j < t.len() && t[j].0 == k2;
                    let j2 = if j == i { n } else { j };
                    assert(t[j] == s[j2]);
                }
            }
        }
        e
    }

    /// The entries, in order, consuming the map.
    pub fn into_entries(self) -> (v: Vec<(K, V)>)
        ensures
            v@ == self@,
            unique_keys(v@),
    {
        proof {
            use_type_invariant(&self);
        }
        self.entries
    }
}

} // verus!

verus! {

impl MapKey for i8 {
    fn same(&self, other: &Self) -> (b: bool) {
        *self == *other
    }
}

} // verus!
