use vstd::prelude::*;
use crate::types::keys::HierarchicalDeterministicFactorInstance;

verus! {

/// `a` followed by each element of `b` that is not already present, in the
/// order of its first occurrence.
pub open spec fn append_new<T>(a: Seq<T>, b: Seq<T>) -> Seq<T>
    decreases b.len(),
{
    if b.len() == 0 {
        a
    } else {
        let r = append_new(a, b.drop_last());
        if r.contains(b.last()) {
            r
        } else {
            r.push(b.last())
        }
    }
}

/// What `append_new` keeps: a prefix `a`, no duplicates where `a` has none,
/// and exactly the elements of `a` and `b`.
pub proof fn lemma_append_new<T>(a: Seq<T>, b: Seq<T>)
    ensures
        append_new(a, b).len() >= a.len(),
        append_new(a, b).subrange(0, a.len() as int) == a,
        a.no_duplicates() ==> append_new(a, b).no_duplicates(),
        forall|x: T| #[trigger] append_new(a, b).contains(x) <==> (a.contains(x) || b.contains(x)),
        append_new(a, b).len() <= a.len() + b.len(),
    decreases b.len(),
{
    if b.len() > 0 {
        lemma_append_new(a, b.drop_last());
        let r = append_new(a, b.drop_last());
        assert forall|x: T| #[trigger] append_new(a, b).contains(x) <==> (a.contains(x)
            || b.contains(x)) by {
            if b.contains(x) && !b.drop_last().contains(x) {
                let k = choose|k: int| 0 <= k < b.len() && b[k] == x;
                if k < b.len() - 1 {
                    assert(b.drop_last()[k] == x);
                }
            }
            if b.drop_last().contains(x) {
                let k = choose|k: int| 0 <= k < b.drop_last().len() && b.drop_last()[k] == x;
                assert(b[k] == x);
            }
            if !r.contains(b.last()) && x == b.last() {
                assert(r.push(b.last())[r.len() as int] == x);
            }
            if !r.contains(b.last()) && r.push(b.last()).contains(x) && x != b.last() {
                let k = choose|k: int| 0 <= k < r.push(b.last()).len() && r.push(b.last())[k] == x;
                assert(r[k] == x);
            }
            if !r.contains(b.last()) && r.contains(x) {
                let k = choose|k: int| 0 <= k < r.len() && r[k] == x;
                assert(r.push(b.last())[k] == x);
            }
        }
        if !r.contains(b.last()) {
            assert(r.push(b.last()).subrange(0, a.len() as int) =~= r.subrange(0, a.len() as int));
        }
    } else {
        assert(a.subrange(0, a.len() as int) =~= a);
    }
}

/// One more element of `s` is in the longer prefix.
pub proof fn lemma_take_one_more_contains<T>(s: Seq<T>, i: int, g: T)
    requires
        0 <= i < s.len(),
    ensures
        s.take(i + 1).contains(g) == (s.take(i).contains(g) || g == s[i]),
{
    let t = s.take(i);
    let t1 = s.take(i + 1);
    assert(t1 =~= t.push(s[i]));
    if t1.contains(g) {
        let k = choose|k: int| 0 <= k < t1.len() && t1[k] == g;
        if k < i {
            assert(t[k] == g);
        }
    }
    if t.contains(g) {
        let k = choose|k: int| 0 <= k < t.len() && t[k] == g;
        assert(t1[k] == g);
    }
    if g == s[i] {
        assert(t1[i] == g);
    }
}

/// Appending one element adds it at the end unless it is present.
pub proof fn lemma_append_new_one<T>(a: Seq<T>, x: T)
    ensures
        append_new(a, seq![x]) == if a.contains(x) { a } else { a.push(x) },
{
    assert(seq![x].drop_last() =~= Seq::<T>::empty());
    assert(append_new(a, Seq::<T>::empty()) == a);
}

/// Appending elements that are all present already changes nothing.
pub proof fn lemma_append_new_present<T>(a: Seq<T>, b: Seq<T>)
    requires
        forall|x: T| b.contains(x) ==> a.contains(x),
    ensures
        append_new(a, b) == a,
    decreases b.len(),
{
    if b.len() > 0 {
        assert forall|x: T| b.drop_last().contains(x) implies a.contains(x) by {
            let k = choose|k: int| 0 <= k < b.drop_last().len() && b.drop_last()[k] == x;
            assert(b[k] == x);
        }
        lemma_append_new_present(a, b.drop_last());
        assert(b.contains(b[b.len() - 1]));
    }
}

/// Appending a sequence without duplicates that shares nothing with `a`
/// is plain concatenation.
pub proof fn lemma_append_new_disjoint<T>(a: Seq<T>, b: Seq<T>)
    requires
        b.no_duplicates(),
        forall|x: T| b.contains(x) ==> !a.contains(x),
    ensures
        append_new(a, b) == a + b,
    decreases b.len(),
{
    if b.len() > 0 {
        let bl = b.drop_last();
        assert forall|x: T| bl.contains(x) implies !a.contains(x) by {
            let k = choose|k: int| 0 <= k < bl.len() && bl[k] == x;
            assert(b[k] == x);
        }
        lemma_append_new_disjoint(a, bl);
        lemma_append_new(a, bl);
        assert(!bl.contains(b.last())) by {
            if bl.contains(b.last()) {
                let k = choose|k: int| 0 <= k < bl.len() && bl[k] == b.last();
                assert(b[k] == b[b.len() - 1]);
            }
        }
        assert(!a.contains(b.last())) by {
            assert(b[b.len() - 1] == b.last());
        }
        assert((a + bl).push(b.last()) =~= a + b);
    } else {
        assert(a + b =~= a);
    }
}

/// An ordered collection of factor instances without duplicates, in the
/// order they were added.
#[derive(Debug, PartialEq, Eq)]
pub struct FactorInstances {
    instances: Vec<HierarchicalDeterministicFactorInstance>,
}

impl View for FactorInstances {
    type V = Seq<HierarchicalDeterministicFactorInstance>;

    closed spec fn view(&self) -> Seq<HierarchicalDeterministicFactorInstance> {
        self.instances@
    }
}

impl Clone for FactorInstances {
    fn clone(&self) -> (r: Self)
        ensures
            r@ == self@,
    {
        proof {
            use_type_invariant(self);
        }
        FactorInstances { instances: self.instances.clone() }
    }
}

fn vec_contains(v: &Vec<HierarchicalDeterministicFactorInstance>, x: &HierarchicalDeterministicFactorInstance) -> (b: bool)
    ensures
        b == v@.contains(*x),
{
    let mut i: usize = 0;
    while i < v.len()
        invariant
            i <= v@.len(),
            forall|j: int| 0 <= j < i ==> v@[j] != *x,
        decreases v@.len() - i,
    {
        if v[i] == *x {
            return true;
        }
        i = i + 1;
    }
    false
}

impl FactorInstances {
    #[verifier::type_invariant]
    spec fn no_duplicates_inv(self) -> bool {
        self.instances@.no_duplicates()
    }

    /// An empty collection.
    pub fn empty() -> (r: Self)
        ensures
            r@ == Seq::<HierarchicalDeterministicFactorInstance>::empty(),
    {
        FactorInstances { instances: Vec::new() }
    }

    /// The collection of `instances`, each kept at its first occurrence.
    pub fn new(instances: Vec<HierarchicalDeterministicFactorInstance>) -> (r: Self)
        ensures
            r@ == append_new(Seq::<HierarchicalDeterministicFactorInstance>::empty(), instances@),
    {
        let mut r = Self::empty();
        r.extend_from_vec(&instances);
        r
    }

    /// The collection of `instances`, which hold no duplicates.
    pub fn from_unique(instances: Vec<HierarchicalDeterministicFactorInstance>) -> (r: Self)
        requires
            instances@.no_duplicates(),
        ensures
            r@ == instances@,
    {
        FactorInstances { instances }
    }

    /// A collection of one instance.
    pub fn just(instance: HierarchicalDeterministicFactorInstance) -> (r: Self)
        ensures
            r@ == seq![instance],
    {
        let v = vec![instance];
        assert(v@.no_duplicates());
        FactorInstances { instances: v }
    }

    pub fn len(&self) -> (n: usize)
        ensures
            n == self@.len(),
    {
        self.instances.len()
    }

    pub fn is_empty(&self) -> (b: bool)
        ensures
            b == (self@.len() == 0),
    {
        self.instances.len() == 0
    }

    pub fn contains(&self, instance: &HierarchicalDeterministicFactorInstance) -> (b: bool)
        ensures
            b == self@.contains(*instance),
    {
        vec_contains(&self.instances, instance)
    }

    /// The instances, in order; they hold no duplicates.
    pub fn factor_instances(&self) -> (v: Vec<HierarchicalDeterministicFactorInstance>)
        ensures
            v@ == self@,
            v@.no_duplicates(),
    {
        proof {
            use_type_invariant(self);
        }
        self.instances.clone()
    }

    /// The instances, in order, consuming the collection.
    pub fn into_vec(self) -> (v: Vec<HierarchicalDeterministicFactorInstance>)
        ensures
            v@ == self@,
            v@.no_duplicates(),
    {
        proof {
            use_type_invariant(&self);
        }
        self.instances
    }

    pub fn first(&self) -> (f: Option<HierarchicalDeterministicFactorInstance>)
        ensures
            self@.len() == 0 ==> f.is_none(),
            self@.len() > 0 ==> f == Some(self@[0]),
    {
        if self.instances.len() == 0 {
            None
        } else {
            Some(self.instances[0])
        }
    }

    pub fn last(&self) -> (l: Option<HierarchicalDeterministicFactorInstance>)
        ensures
            self@.len() == 0 ==> l.is_none(),
            self@.len() > 0 ==> l == Some(self@.last()),
    {
        if self.instances.len() == 0 {
            None
        } else {
            Some(self.instances[self.instances.len() - 1])
        }
    }

    /// Appends `instance`, which is not present yet.
    pub fn push(&mut self, instance: HierarchicalDeterministicFactorInstance)
        requires
            !old(self)@.contains(instance),
        ensures
            final(self)@ == old(self)@.push(instance),
    {
        proof {
            use_type_invariant(&*self);
        }
        let mut tmp = FactorInstances::empty();
        std::mem::swap(self, &mut tmp);
        let mut v = tmp.instances;
        let ghost s = v@;
        v.push(instance);
        proof {
            assert forall|a: int, b: int| 0 <= a < b < v@.len() implies v@[a] != v@[b] by {
                if b == s.len() {
                    assert(s.contains(s[a]));
                }
            }
        }
        self.instances = v;
    }

    /// Removes the instance at `i` and returns it; the instances after it
    /// move one place forward, keeping their order.
    pub fn remove_index(&mut self, i: usize) -> (e: HierarchicalDeterministicFactorInstance)
        requires
            i < old(self)@.len(),
        ensures
            e == old(self)@[i as int],
            final(self)@ == old(self)@.remove(i as int),
    {
        proof {
            use_type_invariant(&*self);
        }
        let mut tmp = FactorInstances::empty();
        std::mem::swap(self, &mut tmp);
        let mut v = tmp.instances;
        let ghost s = v@;
        let e = v.remove(i);
        proof {
            assert forall|a: int, b: int| 0 <= a < b < v@.len() implies v@[a] != v@[b] by {
                if a < i {
                    assert(v@[a] == s[a]);
                } else {
                    assert(v@[a] == s[a + 1]);
                }
                if b < i {
                    assert(v@[b] == s[b]);
                } else {
                    assert(v@[b] == s[b + 1]);
                }
            }
        }
        self.instances = v;
        e
    }

    /// Appends each instance of `more` not already present.
    pub fn extend_from_vec(&mut self, more: &Vec<HierarchicalDeterministicFactorInstance>)
        ensures
            final(self)@ == append_new(old(self)@, more@),
    {
        proof {
            use_type_invariant(&*self);
        }
        let mut v = self.instances.clone();
        assert(v@ == self.instances@);
        let ghost start = v@;
        let mut i: usize = 0;
        while i < more.len()
            invariant
                i <= more@.len(),
                v@ == append_new(start, more@.take(i as int)),
                start.no_duplicates(),
            decreases more@.len() - i,
        {
            proof {
                lemma_append_new(start, more@.take(i as int));
                assert(more@.take(i + 1).drop_last() =~= more@.take(i as int));
                assert(more@.take(i + 1).last() == more@[i as int]);
            }
            if !vec_contains(&v, &more[i]) {
                v.push(more[i]);
            }
            i = i + 1;
        }
        assert(more@.take(more@.len() as int) =~= more@);
        proof {
            lemma_append_new(start, more@);
        }
        self.instances = v;
    }

    /// Appends each instance of `other` not already present.
    pub fn extend(&mut self, other: &FactorInstances)
        ensures
            final(self)@ == append_new(old(self)@, other@),
    {
        self.extend_from_vec(&other.instances);
    }

    /// Splits into the first `n` instances and the rest.
    pub fn split_at(&self, n: usize) -> (r: (FactorInstances, FactorInstances))
        requires
            n <= self@.len(),
        ensures
            r.0@ == self@.take(n as int),
            r.1@ == self@.skip(n as int),
    {
        proof {
            use_type_invariant(self);
        }
        let mut a: Vec<HierarchicalDeterministicFactorInstance> = Vec::new();
        let mut b: Vec<HierarchicalDeterministicFactorInstance> = Vec::new();
        let mut i: usize = 0;
        while i < self.instances.len()
            invariant
                i <= self.instances@.len(),
                n <= self.instances@.len(),
                i <= n ==> a@ == self.instances@.take(i as int) && b@.len() == 0,
                i > n ==> a@ == self.instances@.take(n as int) && b@ == self.instances@.subrange(n as int, i as int),
            decreases self.instances@.len() - i,
        {
            if i < n {
                a.push(self.instances[i]);
                assert(self.instances@.take(i + 1) =~= self.instances@.take(i as int).push(self.instances@[i as int]));
            } else {
                b.push(self.instances[i]);
                assert(self.instances@.subrange(n as int, i + 1) =~= self.instances@.subrange(n as int, i as int).push(self.instances@[i as int]));
            }
            i = i + 1;
        }
        if self.instances.len() == n {
            assert(b@ =~= self.instances@.skip(n as int));
        } else {
            assert(b@ =~= self.instances@.skip(n as int));
        }
        let ghost s = self.instances@;
        assert forall|x: int, y: int| 0 <= x < y < a@.len() implies a@[x] != a@[y] by {
            assert(a@[x] == s[x] && a@[y] == s[y]);
        }
        assert forall|x: int, y: int| 0 <= x < y < b@.len() implies b@[x] != b@[y] by {
            assert(b@[x] == s[n + x] && b@[y] == s[n + y]);
        }
        (FactorInstances { instances: a }, FactorInstances { instances: b })
    }
}

} // verus!
