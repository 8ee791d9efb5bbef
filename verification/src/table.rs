//! A map whose entries are kept in a walkable order.
use crate::slots::{CodeIndex, PortIndex, SlotIndex};
use crate::value::Value;
use vstd::prelude::*;

verus! {

/// A map from keys to values.
///
/// The deep view is the map. `walk` is the order in which its keys are met;
/// which order that is, beyond that it lists every key once, is nothing that a
/// caller should build on.
#[derive(Debug)]
pub struct Table<K: DeepView, I: SlotIndex<K>, V> {
    index: I,
    keys: Vec<K>,
    values: Vec<V>,
}

/// A table whose keys are names.
pub type NameTable<V> = Table<String, CodeIndex, V>;

/// A table whose keys are made of text.
pub type CodeTable<K, V> = Table<K, CodeIndex, V>;

/// A table whose keys are port numbers.
pub type PortTable<V> = Table<u16, PortIndex, V>;

/// The keys of a map, each listed once.
pub open spec fn lists<K>(walk: Seq<K>, keys: Set<K>) -> bool {
    &&& walk.no_duplicates()
    &&& forall|i: int| 0 <= i < walk.len() ==> keys.contains(#[trigger] walk[i])
    &&& forall|k: K| #[trigger]
        keys.contains(k) ==> exists|i: int| 0 <= i < walk.len() && #[trigger] walk[i] == k
}

/// One more member of a sequence is one more member of its set.
pub proof fn take_one_more<T>(s: Seq<T>, i: int)
    requires
        0 <= i < s.len(),
    ensures
        s.take(i + 1).to_set() == s.take(i).to_set().insert(s[i]),
{
    let less = s.take(i);
    let more = s.take(i + 1);
    assert forall|x: T| more.to_set().contains(x) implies less.to_set().insert(s[i]).contains(
        x,
    ) by {}
    assert forall|x: T| less.to_set().insert(s[i]).contains(x) implies more.to_set().contains(
        x,
    ) by {
        if x == s[i] {
            assert(more[i] == x);
        }
    }
}

impl<K: DeepView, I: SlotIndex<K>, V> Table<K, I, V> {
    #[verifier::type_invariant]
    pub closed spec fn aligned(self) -> bool {
        &&& self.keys@.len() == self.values@.len()
        &&& forall|i: int|
            0 <= i < self.keys@.len() ==> {
                &&& self.index.slots().contains_key((#[trigger] self.keys@[i]).deep_view())
                &&& self.index.slots()[self.keys@[i].deep_view()] == i
            }
        &&& forall|k: K::V| #[trigger]
            self.index.slots().contains_key(k) ==> {
                &&& self.index.slots()[k] < self.keys@.len()
                &&& self.keys@[self.index.slots()[k] as int].deep_view() == k
            }
    }

    /// The keys in the order in which they are met.
    pub closed spec fn walk(&self) -> Seq<K::V> {
        Seq::new(self.keys@.len(), |i: int| self.keys@[i].deep_view())
    }
}

impl<K: DeepView, I: SlotIndex<K>, V: DeepView> DeepView for Table<K, I, V> {
    type V = Map<K::V, V::V>;

    closed spec fn deep_view(&self) -> Map<K::V, V::V> {
        Map::new(
            |k: K::V| self.index.slots().contains_key(k),
            |k: K::V| self.values@[self.index.slots()[k] as int].deep_view(),
        )
    }
}

impl<K: DeepView, I: SlotIndex<K>, V: DeepView> Table<K, I, V> {
    /// The walk meets every key once.
    pub proof fn walk_lists_keys(&self)
        requires
            self.aligned(),
        ensures
            lists(self.walk(), self.deep_view().dom()),
    {
        assert forall|k: K::V| #[trigger] self.deep_view().dom().contains(k) implies exists|i: int|
            0 <= i < self.walk().len() && #[trigger] self.walk()[i] == k by {
            assert(self.walk()[self.index.slots()[k] as int] == k);
        }
    }

    /// A table without entries.
    pub fn new() -> (r: Self)
        ensures
            r.deep_view() == Map::<K::V, V::V>::empty(),
            r.walk() == Seq::<K::V>::empty(),
    {
        let r = Table { index: I::empty(), keys: Vec::new(), values: Vec::new() };
        r
    }

    /// The number of entries.
    pub fn len(&self) -> (r: usize)
        ensures
            r == self.walk().len(),
            lists(self.walk(), self.deep_view().dom()),
    {
        proof {
            use_type_invariant(self);
            self.walk_lists_keys();
        }
        self.keys.len()
    }

    /// Whether the table has no entry.
    pub fn is_empty(&self) -> (r: bool)
        ensures
            r == (self.deep_view() == Map::<K::V, V::V>::empty()),
    {
        let n: usize = self.len();
        if n == 0 {
            assert(self.deep_view() =~= Map::<K::V, V::V>::empty());
        } else {
            assert(self.deep_view().dom().contains(self.walk()[0]));
        }
        n == 0
    }

    /// The key at a place of the walk.
    pub fn key_at(&self, i: usize) -> (r: &K)
        requires
            i < self.walk().len(),
        ensures
            r.deep_view() == self.walk()[i as int],
            self.deep_view().contains_key(self.walk()[i as int]),
    {
        proof {
            use_type_invariant(self);
        }
        &self.keys[i]
    }

    /// The value at a place of the walk.
    pub fn value_at(&self, i: usize) -> (r: &V)
        requires
            i < self.walk().len(),
        ensures
            self.deep_view().contains_key(self.walk()[i as int]),
            r.deep_view() == self.deep_view()[self.walk()[i as int]],
    {
        proof {
            use_type_invariant(self);
        }
        &self.values[i]
    }

    /// The value at a place of the walk, to be changed in place.
    pub fn value_at_mut(&mut self, i: usize) -> (r: &mut V)
        requires
            i < old(self).walk().len(),
        ensures
            old(self).deep_view().contains_key(old(self).walk()[i as int]),
            r.deep_view() == old(self).deep_view()[old(self).walk()[i as int]],
            final(self).walk() == old(self).walk(),
            final(self).deep_view() == old(self).deep_view().insert(
                old(self).walk()[i as int],
                final(r).deep_view(),
            ),
    {
        proof {
            use_type_invariant(&*self);
        }
        &mut self.values[i]
    }

    /// The value of a key.
    pub fn get(&self, k: &K) -> (r: Option<&V>)
        ensures
            r is Some <==> self.deep_view().contains_key(k.deep_view()),
            r matches Some(v) ==> v.deep_view() == self.deep_view()[k.deep_view()],
    {
        proof {
            use_type_invariant(self);
        }
        match self.index.find(k) {
            Some(i) => Some(&self.values[i]),
            None => None,
        }
    }

    /// The value of a key, to be changed in place.
    pub fn get_mut(&mut self, k: &K) -> (r: Option<&mut V>)
        ensures
            r is Some <==> old(self).deep_view().contains_key(k.deep_view()),
            r matches Some(v) ==> {
                &&& v.deep_view() == old(self).deep_view()[k.deep_view()]
                &&& final(self).deep_view() == old(self).deep_view().insert(
                    k.deep_view(),
                    final(v).deep_view(),
                )
            },
            r is None ==> final(self).deep_view() == old(self).deep_view(),
            final(self).walk() == old(self).walk(),
    {
        proof {
            use_type_invariant(&*self);
        }
        match self.index.find(k) {
            Some(i) => Some(&mut self.values[i]),
            None => None,
        }
    }

    /// Sets the value of a key.
    pub fn insert(&mut self, k: K, v: V)
        ensures
            final(self).deep_view() == old(self).deep_view().insert(k.deep_view(), v.deep_view()),
            final(self).walk() == if old(self).deep_view().contains_key(k.deep_view()) {
                old(self).walk()
            } else {
                old(self).walk().push(k.deep_view())
            },
    {
        proof {
            use_type_invariant(&*self);
        }
        match self.index.find(&k) {
            Some(i) => {
                self.values[i] = v;
            },
            None => {
                let mut taken = Table { index: I::empty(), keys: Vec::new(), values: Vec::new() };
                core::mem::swap(self, &mut taken);
                let Table { mut index, mut keys, mut values } = taken;
                index.put(&k, keys.len());
                keys.push(k);
                values.push(v);
                *self = Table { index, keys, values };
            },
        }
    }

    /// Takes the entry of a key out of the table.
    pub fn remove(&mut self, k: &K) -> (r: Option<V>)
        ensures
            r is Some <==> old(self).deep_view().contains_key(k.deep_view()),
            r matches Some(v) ==> v.deep_view() == old(self).deep_view()[k.deep_view()],
            final(self).deep_view() == old(self).deep_view().remove(k.deep_view()),
            r is None ==> final(self).walk() == old(self).walk(),
    {
        proof {
            use_type_invariant(&*self);
        }
        match self.index.find(k) {
            Some(i) => {
                let mut taken = Table { index: I::empty(), keys: Vec::new(), values: Vec::new() };
                core::mem::swap(self, &mut taken);
                let Table { mut index, mut keys, mut values } = taken;
                index.take(k);
                let _ = keys.swap_remove(i);
                let v = values.swap_remove(i);
                if i < keys.len() {
                    index.put(&keys[i], i);
                }
                *self = Table { index, keys, values };
                Some(v)
            },
            None => None,
        }
    }

    /// Takes the entries of some keys out of the table.
    pub fn remove_all(&mut self, keys: &Vec<K>)
        ensures
            final(self).deep_view() == old(self).deep_view().remove_keys(keys.deep_view().to_set()),
            keys@.len() == 0 ==> final(self).walk() == old(self).walk(),
    {
        let ghost before = self.deep_view();
        let mut i: usize = 0;
        while i < keys.len()
            invariant
                i <= keys.len(),
                self.deep_view() == before.remove_keys(keys.deep_view().take(i as int).to_set()),
                keys@.len() == 0 ==> self.walk() == old(self).walk(),
            decreases keys.len() - i,
        {
            let _ = self.remove(&keys[i]);
            proof {
                take_one_more(keys.deep_view(), i as int);
            }
            i = i + 1;
        }
        assert(keys.deep_view().take(i as int) =~= keys.deep_view());
    }

    /// Takes one entry out of the table, if there is any.
    pub fn pop(&mut self) -> (r: Option<(K, V)>)
        ensures
            r is None <==> old(self).walk().len() == 0,
            r is None ==> old(self).deep_view() == Map::<K::V, V::V>::empty()
                && final(self).deep_view() == old(self).deep_view(),
            r matches Some((k, v)) ==> {
                &&& old(self).deep_view().contains_key(k.deep_view())
                &&& v.deep_view() == old(self).deep_view()[k.deep_view()]
                &&& final(self).deep_view() == old(self).deep_view().remove(k.deep_view())
                &&& final(self).walk().len() == old(self).walk().len() - 1
            },
    {
        proof {
            use_type_invariant(&*self);
        }
        let mut taken = Table { index: I::empty(), keys: Vec::new(), values: Vec::new() };
        core::mem::swap(self, &mut taken);
        let Table { mut index, mut keys, mut values } = taken;
        match (keys.pop(), values.pop()) {
            (Some(k), Some(v)) => {
                index.take(&k);
                *self = Table { index, keys, values };
                Some((k, v))
            },
            _ => None,
        }
    }

    /// Takes every entry out of the table.
    pub fn clear(&mut self)
        ensures
            final(self).deep_view() == Map::<K::V, V::V>::empty(),
    {
        *self = Self::new();
    }
}

impl<K: DeepView, I: SlotIndex<K>, V: Value> Table<K, I, V> {
    /// Sets the value of a key and tells whether that changed the table.
    pub fn update(&mut self, k: K, v: V) -> (changed: bool)
        ensures
            final(self).deep_view() == old(self).deep_view().insert(k.deep_view(), v.deep_view()),
            changed == (final(self).deep_view() != old(self).deep_view()),
            !changed ==> final(self).walk() == old(self).walk(),
    {
        if let Some(current) = self.get(&k) {
            if current.same(&v) {
                return false;
            }
        }
        self.insert(k, v);
        true
    }

    /// Whether every entry of this table is an entry of the other.
    pub fn within(&self, other: &Self) -> (r: bool)
        ensures
            r == self.deep_view().submap_of(other.deep_view()),
    {
        let n: usize = self.len();
        let mut i: usize = 0;
        while i < n
            invariant
                i <= n,
                n == self.walk().len(),
                lists(self.walk(), self.deep_view().dom()),
                forall|j: int|
                    0 <= j < i ==> {
                        &&& other.deep_view().contains_key(#[trigger] self.walk()[j])
                        &&& other.deep_view()[self.walk()[j]] == self.deep_view()[self.walk()[j]]
                    },
            decreases n - i,
        {
            match other.get(self.key_at(i)) {
                Some(v) => {
                    if !v.same(self.value_at(i)) {
                        return false;
                    }
                },
                None => {
                    return false;
                },
            }
            i = i + 1;
        }
        true
    }
}

impl<K: Value, I: SlotIndex<K>, V: Value> Value for Table<K, I, V> {
    fn same(&self, other: &Self) -> (r: bool) {
        let r = self.within(other) && other.within(self);
        if r {
            assert(self.deep_view() =~= other.deep_view());
        }
        r
    }

    fn dup(&self) -> (r: Self) {
        let n: usize = self.len();
        let mut r: Self = Table::new();
        let mut i: usize = 0;
        while i < n
            invariant
                i <= n,
                n == self.walk().len(),
                lists(self.walk(), self.deep_view().dom()),
                forall|k: K::V|
                    r.deep_view().contains_key(k) <==> exists|j: int|
                        0 <= j < i && #[trigger] self.walk()[j] == k,
                forall|k: K::V| #[trigger]
                    r.deep_view().contains_key(k) ==> r.deep_view()[k] == self.deep_view()[k],
            decreases n - i,
        {
            r.insert(self.key_at(i).dup(), self.value_at(i).dup());
            assert forall|k: K::V| r.deep_view().contains_key(k) implies exists|j: int|
                0 <= j < i + 1 && #[trigger] self.walk()[j] == k by {}
            i = i + 1;
        }
        assert(r.deep_view() =~= self.deep_view());
        r
    }
}

} // verus!
