use vstd::prelude::*;
use crate::types::factor_instances::{append_new, lemma_append_new, FactorInstances};
use crate::types::keys::HierarchicalDeterministicFactorInstance;
use crate::types::ordered_map::{MapKey, OrderedMap};

verus! {

/// A set that remembers the order in which elements were first added.
#[derive(Debug, PartialEq, Eq)]
pub struct OrderedSet<T: MapKey> {
    elements: Vec<T>,
}

impl<T: MapKey> View for OrderedSet<T> {
    type V = Seq<T>;

    closed spec fn view(&self) -> Seq<T> {
        self.elements@
    }
}

impl<T: MapKey> OrderedSet<T> {
    #[verifier::type_invariant]
    spec fn no_duplicates_inv(self) -> bool {
        self.elements@.no_duplicates()
    }

    /// An empty set.
    pub fn new() -> (s: Self)
        ensures
            s@ == Seq::<T>::empty(),
    {
        OrderedSet { elements: Vec::new() }
    }

    /// The set of the elements of `items`, each at its first occurrence.
    pub fn from_vec(items: Vec<T>) -> (s: Self)
        ensures
            s@ == append_new(Seq::<T>::empty(), items@),
    {
        let mut s = Self::new();
        s.extend_from_vec(&items);
        s
    }

    /// A set of one element.
    pub fn just(element: T) -> (s: Self)
        ensures
            s@ == seq![element],
    {
        let v = vec![element];
        assert(v@.no_duplicates());
        OrderedSet { elements: v }
    }

    pub fn len(&self) -> (n: usize)
        ensures
            n == self@.len(),
    {
        self.elements.len()
    }

    pub fn contains(&self, x: &T) -> (b: bool)
        ensures
            b == self@.contains(*x),
    {
        let mut i: usize = 0;
        while i < self.elements.len()
            invariant
                i <= self.elements@.len(),
                forall|j: int| 0 <= j < i ==> self.elements@[j] != *x,
            decreases self.elements@.len() - i,
        {
            if self.elements[i].same(x) {
                return true;
            }
            i = i + 1;
        }
        false
    }

    /// The elements, in order.
    pub fn elements(&self) -> (v: Vec<T>)
        ensures
            v@ == self@,
            v@.no_duplicates(),
    {
        proof {
            use_type_invariant(self);
        }
        let mut v: Vec<T> = Vec::new();
        let mut i: usize = 0;
        while i < self.elements.len()
            invariant
                i <= self.elements@.len(),
                v@ == self.elements@.take(i as int),
            decreases self.elements@.len() - i,
        {
            v.push(self.elements[i]);
            i = i + 1;
            assert(v@ =~= self.elements@.take(i as int));
        }
        assert(self.elements@.take(i as int) =~= self.elements@);
        v
    }

    /// Adds each element of `more` not already present, at the end.
    pub fn extend_from_vec(&mut self, more: &Vec<T>)
        ensures
            final(self)@ == append_new(old(self)@, more@),
    {
        proof {
            use_type_invariant(&*self);
        }
        let mut v = self.elements();
        let ghost start = v@;
        let mut i: usize = 0;
        while i < more.len()
            invariant
                i <= more@.len(),
                v@ == append_new(start, more@.take(i as int)),
                start.no_duplicates(),
                start == old(self)@,
            decreases more@.len() - i,
        {
            proof {
                lemma_append_new(start, more@.take(i as int));
                assert(more@.take(i + 1).drop_last() =~= more@.take(i as int));
                assert(more@.take(i + 1).last() == more@[i as int]);
            }
            let mut found = false;
            let mut j: usize = 0;
            while j < v.len()
                invariant
                    j <= v@.len(),
                    i < more@.len(),
                    found <==> exists|l: int| 0 <= l < j && v@[l] == more@[i as int],
                decreases v@.len() - j,
            {
                if v[j].same(&more[i]) {
                    found = true;
                }
                j = j + 1;
            }
            if !found {
                v.push(more[i]);
            }
            i = i + 1;
        }
        assert(more@.take(more@.len() as int) =~= more@);
        proof {
            lemma_append_new(start, more@);
        }
        self.elements = v;
    }
}

impl MapKey for u8 {
    fn same(&self, other: &Self) -> (b: bool) {
        *self == *other
    }
}

/// A collection that more elements can be appended to, keeping each element
/// once, in the order of first appearance.
pub trait AppendableCollection: Sized {
    type Element: Copy;

    /// The elements, in order.
    spec fn spec_elements(&self) -> Seq<Self::Element>;

    /// The collection of the elements of `items`, each once.
    fn from_elements(items: Vec<Self::Element>) -> (c: Self)
        ensures
            c.spec_elements() == append_new(Seq::<Self::Element>::empty(), items@),
    ;

    /// Appends each element of `items` not already present.
    fn append(&mut self, items: Vec<Self::Element>)
        ensures
            final(self).spec_elements() == append_new(old(self).spec_elements(), items@),
    ;
}

impl<T: MapKey> AppendableCollection for OrderedSet<T> {
    type Element = T;

    open spec fn spec_elements(&self) -> Seq<T> {
        self@
    }

    fn from_elements(items: Vec<T>) -> (c: Self) {
        OrderedSet::from_vec(items)
    }

    fn append(&mut self, items: Vec<T>) {
        self.extend_from_vec(&items)
    }
}

impl AppendableCollection for FactorInstances {
    type Element = HierarchicalDeterministicFactorInstance;

    open spec fn spec_elements(&self) -> Seq<HierarchicalDeterministicFactorInstance> {
        self@
    }

    fn from_elements(items: Vec<HierarchicalDeterministicFactorInstance>) -> (c: Self) {
        FactorInstances::new(items)
    }

    fn append(&mut self, items: Vec<HierarchicalDeterministicFactorInstance>) {
        self.extend_from_vec(&items)
    }
}

/// The elements of an optional collection; none without one.
pub open spec fn elements_or_empty<C: AppendableCollection>(c: Option<C>) -> Seq<C::Element> {
    match c {
        Some(c) => c.spec_elements(),
        None => Seq::empty(),
    }
}

/// A map of appendable collections.
pub trait AppendableMap {
    type Key: MapKey;
    type AC: AppendableCollection;

    /// The collection under `key`, if any.
    spec fn spec_collection(&self, key: Self::Key) -> Option<Self::AC>;

    /// Appends `items` to the collection under `key`, creating it if absent;
    /// every other key keeps its collection.
    fn append_or_insert_to(&mut self, key: Self::Key, items: Vec<<Self::AC as AppendableCollection>::Element>)
        ensures
            final(self).spec_collection(key) is Some,
            elements_or_empty(final(self).spec_collection(key)) == append_new(
                elements_or_empty(old(self).spec_collection(key)),
                items@,
            ),
            forall|k: Self::Key| k != key ==> #[trigger] final(self).spec_collection(k) == old(
                self,
            ).spec_collection(k),
    ;

    /// Appends one element to the collection under `key`.
    fn append_or_insert_element_to(&mut self, key: Self::Key, element: <Self::AC as AppendableCollection>::Element)
        ensures
            final(self).spec_collection(key) is Some,
            elements_or_empty(final(self).spec_collection(key)) == append_new(
                elements_or_empty(old(self).spec_collection(key)),
                seq![element],
            ),
            forall|k: Self::Key| k != key ==> #[trigger] final(self).spec_collection(k) == old(
                self,
            ).spec_collection(k),
    {
        let items = vec![element];
        assert(items@ =~= seq![element]);
        self.append_or_insert_to(key, items);
    }
}

impl<K: MapKey, V: AppendableCollection> AppendableMap for OrderedMap<K, V> {
    type Key = K;
    type AC = V;

    open spec fn spec_collection(&self, key: K) -> Option<V> {
        self.spec_get(key)
    }

    fn append_or_insert_to(&mut self, key: K, items: Vec<V::Element>) {
        match self.index_of(&key) {
            Some(i) => {
                let mut existing = self.replace_at(i, V::from_elements(Vec::new()));
                existing.append(items);
                self.replace_at(i, existing);
            },
            None => {
                self.insert(key, V::from_elements(items));
            },
        }
    }
}

} // verus!
