//! Listings of resources and the changes that they make to a namespace.
use crate::slots::SlotIndex;
use crate::table::{NameTable, Table};
use crate::value::{Text, Value};
use vstd::prelude::*;

verus! {

/// A resource of a listing.
#[derive(Debug)]
pub struct Listed<K, T> {
    /// The namespace of the resource.
    pub namespace: String,
    /// The key of the resource within its namespace.
    pub key: K,
    /// What the resource says.
    pub value: T,
}

/// What a [`Listed`] means.
#[verifier::ext_equal]
pub struct ListedModel<K, T> {
    pub namespace: Text,
    pub key: K,
    pub value: T,
}

impl<K: DeepView, T: DeepView> DeepView for Listed<K, T> {
    type V = ListedModel<K::V, T::V>;

    open spec fn deep_view(&self) -> ListedModel<K::V, T::V> {
        ListedModel {
            namespace: self.namespace@,
            key: self.key.deep_view(),
            value: self.value.deep_view(),
        }
    }
}

/// The resources of a listing that say something valid.
pub open spec fn valid<K, T>(listed: Seq<ListedModel<K, Option<T>>>) -> Seq<ListedModel<K, T>>
    decreases listed.len(),
{
    if listed.len() == 0 {
        Seq::empty()
    } else {
        let last = listed.last();
        match last.value {
            Some(value) => valid(listed.drop_last()).push(
                ListedModel { namespace: last.namespace, key: last.key, value },
            ),
            None => valid(listed.drop_last()),
        }
    }
}

/// How many resources at the start of a listing all say something valid.
pub open spec fn valid_start<K, T>(listed: Seq<ListedModel<K, Option<T>>>) -> nat
    decreases listed.len(),
{
    if listed.len() == 0 {
        0
    } else {
        let before = valid_start(listed.drop_last());
        if before == listed.len() - 1 && listed.last().value is Some {
            listed.len()
        } else {
            before
        }
    }
}

/// A listing that has been cut is at most as long as before, and of its valid
/// start no more is lost than was cut off.
pub proof fn valid_start_of_part<K, T>(listed: Seq<ListedModel<K, Option<T>>>, n: int)
    requires
        0 <= n <= listed.len(),
    ensures
        valid_start(listed) <= listed.len(),
        valid_start(listed.take(n)) == if valid_start(listed) <= n {
            valid_start(listed)
        } else {
            n as nat
        },
    decreases listed.len(),
{
    if n == listed.len() {
        assert(listed.take(n) =~= listed);
        if n > 0 {
            valid_start_of_part(listed.drop_last(), n - 1);
        }
    } else {
        valid_start_of_part(listed.drop_last(), n);
        assert(listed.drop_last().take(n) =~= listed.take(n));
    }
}

/// Keeps the resources of a listing that say something valid.
pub fn keep_valid<K: DeepView, T: DeepView>(listed: Vec<Listed<K, Option<T>>>) -> (r: Vec<
    Listed<K, T>,
>)
    ensures
        r.deep_view() == valid(listed.deep_view()),
{
    let ghost all = listed.deep_view();
    let mut r: Vec<Listed<K, T>> = Vec::new();
    for item in it: listed
        invariant
            all.len() == it.seq().len(),
            forall|j: int| 0 <= j < all.len() ==> #[trigger] all[j] == it.seq()[j].deep_view(),
            r.deep_view() == valid(all.take(it.index())),
    {
        let ghost i = it.index();
        assert(all.take(i + 1).drop_last() =~= all.take(i));
        let Listed { namespace, key, value } = item;
        if let Some(value) = value {
            r.push(Listed { namespace, key, value });
        }
    }
    assert(all.take(all.len() as int) =~= all);
    r
}

/// What changes in a namespace.
#[derive(Debug)]
pub struct NsUpdate<K, T> {
    /// The resources that are there, by key.
    pub added: Vec<(K, T)>,
    /// The keys of the resources that are gone.
    pub removed: Vec<K>,
}

/// What an [`NsUpdate`] means.
#[verifier::ext_equal]
pub struct NsUpdateModel<K, T> {
    pub added: Seq<(K, T)>,
    pub removed: Seq<K>,
}

impl<K: DeepView, T: DeepView> DeepView for NsUpdate<K, T> {
    type V = NsUpdateModel<K::V, T::V>;

    open spec fn deep_view(&self) -> NsUpdateModel<K::V, T::V> {
        NsUpdateModel { added: self.added.deep_view(), removed: self.removed.deep_view() }
    }
}

impl<K: DeepView, T: DeepView> Default for NsUpdate<K, T> {
    /// No change.
    fn default() -> (r: Self)
        ensures
            r.deep_view() == (NsUpdateModel::<K::V, T::V> {
                added: Seq::empty(),
                removed: Seq::empty(),
            }),
    {
        let r = NsUpdate { added: Vec::new(), removed: Vec::new() };
        r
    }
}

/// The resources of a listing that are in a namespace.
pub open spec fn listed_in<K, T>(listed: Seq<ListedModel<K, T>>, namespace: Text) -> Seq<(K, T)>
    decreases listed.len(),
{
    if listed.len() == 0 {
        Seq::empty()
    } else {
        let last = listed.last();
        if last.namespace == namespace {
            listed_in(listed.drop_last(), namespace).push((last.key, last.value))
        } else {
            listed_in(listed.drop_last(), namespace)
        }
    }
}

/// The keys that are gone from a namespace.
pub open spec fn removed_in<K>(deleted: Map<Text, Seq<K>>, namespace: Text) -> Seq<K> {
    if deleted.contains_key(namespace) {
        deleted[namespace]
    } else {
        Seq::empty()
    }
}

/// What a listing changes, by namespace.
pub open spec fn updates_by_ns<K, T>(
    listed: Seq<ListedModel<K, T>>,
    deleted: Map<Text, Seq<K>>,
) -> Map<Text, NsUpdateModel<K, T>> {
    Map::new(
        |ns: Text| deleted.contains_key(ns) || listed_in(listed, ns).len() > 0,
        |ns: Text|
            NsUpdateModel { added: listed_in(listed, ns), removed: removed_in(deleted, ns) },
    )
}

/// Sorts a listing by namespace, so that each namespace is changed once.
pub fn group_by_ns<K: DeepView, T: DeepView>(
    listed: Vec<Listed<K, T>>,
    deleted: NameTable<Vec<K>>,
) -> (r: NameTable<NsUpdate<K, T>>)
    ensures
        r.deep_view() == updates_by_ns(listed.deep_view(), deleted.deep_view()),
{
    let ghost all = listed.deep_view();
    let ghost gone = deleted.deep_view();
    let mut updates: NameTable<NsUpdate<K, T>> = NameTable::new();
    let ghost none = Map::<Text, Seq<K::V>>::empty();
    for item in it: listed
        invariant
            none == Map::<Text, Seq<K::V>>::empty(),
            all.len() == it.seq().len(),
            forall|j: int| 0 <= j < all.len() ==> #[trigger] all[j] == it.seq()[j].deep_view(),
            updates.deep_view() == updates_by_ns(all.take(it.index()), none),
    {
        let ghost i = it.index();
        assert(all.take(i + 1).drop_last() =~= all.take(i));
        let Listed { namespace, key, value } = item;
        let ghost ns = namespace@;
        let mut update = match updates.remove(&namespace) {
            Some(update) => update,
            None => NsUpdate::default(),
        };
        let ghost earlier = update.added.deep_view();
        update.added.push((key, value));
        assert(earlier =~= listed_in(all.take(i), ns));
        updates.insert(namespace, update);
        assert(updates.deep_view() =~~= updates_by_ns(all.take(i + 1), none));
    }
    assert(all.take(all.len() as int) =~= all);
    let mut deleted = deleted;
    loop
        invariant
            deleted.deep_view().submap_of(gone),
            updates.deep_view() == updates_by_ns(
                all,
                gone.remove_keys(deleted.deep_view().dom()),
            ),
        ensures
            updates.deep_view() == updates_by_ns(all, gone),
        decreases deleted.walk().len(),
    {
        let (namespace, removed) = match deleted.pop() {
            Some(entry) => entry,
            None => break,
        };
        let mut update = match updates.remove(&namespace) {
            Some(update) => update,
            None => NsUpdate::default(),
        };
        update.removed = removed;
        updates.insert(namespace, update);
        assert(updates.deep_view() =~~= updates_by_ns(
            all,
            gone.remove_keys(deleted.deep_view().dom()),
        ));
    }
    updates
}

/// A change of the resources of one kind in a namespace.
#[derive(Debug)]
pub enum Change<K, T> {
    /// A resource is there.
    Update(K, T),
    /// A resource is gone.
    Remove(K),
    /// All of them are gone.
    Clear,
    /// Some are gone, and others are there.
    Replace(NsUpdate<K, T>),
}

/// What a [`Change`] means.
#[verifier::ext_equal]
pub enum ChangeModel<K, T> {
    Update(K, T),
    Remove(K),
    Clear,
    Replace(NsUpdateModel<K, T>),
}

impl<K: DeepView, T: DeepView> DeepView for Change<K, T> {
    type V = ChangeModel<K::V, T::V>;

    open spec fn deep_view(&self) -> ChangeModel<K::V, T::V> {
        match self {
            Change::Update(k, v) => ChangeModel::Update(k.deep_view(), v.deep_view()),
            Change::Remove(k) => ChangeModel::Remove(k.deep_view()),
            Change::Clear => ChangeModel::Clear,
            Change::Replace(update) => ChangeModel::Replace(update.deep_view()),
        }
    }
}

/// A map with some entries set, one after the other.
pub open spec fn with_all<K, T>(m: Map<K, T>, added: Seq<(K, T)>) -> Map<K, T>
    decreases added.len(),
{
    if added.len() == 0 {
        m
    } else {
        with_all(m, added.drop_last()).insert(added.last().0, added.last().1)
    }
}

/// Whether one of the entries, when it is set, changes the map.
pub open spec fn some_change<K, T>(m: Map<K, T>, added: Seq<(K, T)>) -> bool {
    exists|i: int|
        0 <= i < added.len() && #[trigger] with_all(m, added.take(i)) != with_all(
            m,
            added.take(i + 1),
        )
}

impl<K, T> ChangeModel<K, T> {
    /// The resources after the change.
    pub open spec fn of(self, m: Map<K, T>) -> Map<K, T> {
        match self {
            ChangeModel::Update(k, v) => m.insert(k, v),
            ChangeModel::Remove(k) => m.remove(k),
            ChangeModel::Clear => Map::empty(),
            ChangeModel::Replace(update) => with_all(
                m.remove_keys(update.removed.to_set()),
                update.added,
            ),
        }
    }

    /// Whether the change is reported as one.
    ///
    /// An update is if it changes something, and a removal if there was
    /// something to remove. That all resources are gone is always reported, and
    /// so is that some are, whether or not they were known.
    pub open spec fn reported(self, m: Map<K, T>) -> bool {
        match self {
            ChangeModel::Update(k, v) => m.insert(k, v) != m,
            ChangeModel::Remove(k) => m.contains_key(k),
            ChangeModel::Clear => true,
            ChangeModel::Replace(update) => update.removed.len() > 0 || some_change(
                m.remove_keys(update.removed.to_set()),
                update.added,
            ),
        }
    }

    /// A listing that repeats what is known, and from which nothing is gone, is
    /// not reported as a change.
    pub proof fn repeating_is_unreported(self, m: Map<K, T>)
        requires
            self matches ChangeModel::Replace(update) && update.removed.len() == 0 && forall|i: int|
                0 <= i < update.added.len() ==> m.contains_pair(
                    (#[trigger] update.added[i]).0,
                    update.added[i].1,
                ),
        ensures
            !self.reported(m),
    {
        if let ChangeModel::Replace(update) = self {
            assert(m.remove_keys(update.removed.to_set()) =~= m);
            assert forall|i: int| 0 <= i < update.added.len() implies #[trigger] with_all(
                m,
                update.added.take(i),
            ) == with_all(m, update.added.take(i + 1)) by {
                repeating_keeps(m, update.added, i);
                repeating_keeps(m, update.added, i + 1);
            }
        }
    }

    /// A resource that was not known and is gone again leaves the resources as
    /// they were.
    pub proof fn removal_undoes_update(m: Map<K, T>, k: K, v: T)
        requires
            !m.contains_key(k),
        ensures
            ChangeModel::<K, T>::Remove(k).of(ChangeModel::Update(k, v).of(m)) == m,
    {
    }

    /// Where a resource is there, or some are, resources are left.
    pub proof fn something_is_left(self, m: Map<K, T>)
        requires
            self is Update || (self matches ChangeModel::Replace(update) && update.added.len() > 0),
        ensures
            self.of(m) != Map::<K, T>::empty(),
    {
        match self {
            ChangeModel::Update(k, v) => {
                assert(self.of(m).contains_key(k));
            },
            ChangeModel::Replace(update) => {
                assert(self.of(m).contains_key(update.added.last().0));
            },
            _ => {},
        }
    }

    /// A change that is not reported leaves the resources as they were.
    pub proof fn unreported_is_none(self, m: Map<K, T>)
        ensures
            !self.reported(m) ==> self.of(m) == m,
    {
        match self {
            ChangeModel::Replace(update) => {
                if !self.reported(m) {
                    assert(m.remove_keys(update.removed.to_set()) =~= m);
                    unchanged_throughout(m, update.added, update.added.len() as int);
                    assert(update.added.take(update.added.len() as int) =~= update.added);
                }
            },
            _ => {},
        }
    }
}

/// Of entries that are set one after the other, the last one for a key counts,
/// and a key for which there is none keeps what it had.
pub proof fn last_counts<K, T>(m: Map<K, T>, added: Seq<(K, T)>, k: K)
    ensures
        (forall|i: int| 0 <= i < added.len() ==> (#[trigger] added[i]).0 != k) ==> with_all(
            m,
            added,
        ).get(k) == m.get(k),
        forall|i: int|
            {
                &&& 0 <= i < added.len()
                &&& (#[trigger] added[i]).0 == k
                &&& forall|j: int| i < j < added.len() ==> (#[trigger] added[j]).0 != k
            } ==> with_all(m, added).get(k) == Some(added[i].1),
    decreases added.len(),
{
    if added.len() > 0 {
        let less = added.drop_last();
        last_counts(m, less, k);
        assert forall|i: int|
            {
                &&& 0 <= i < added.len()
                &&& (#[trigger] added[i]).0 == k
                &&& forall|j: int| i < j < added.len() ==> (#[trigger] added[j]).0 != k
            } implies with_all(m, added).get(k) == Some(added[i].1) by {
            if i < less.len() {
                assert(less[i] == added[i]);
                assert forall|j: int| i < j < less.len() implies (#[trigger] less[j]).0 != k by {}
            }
        }
        if forall|i: int| 0 <= i < added.len() ==> (#[trigger] added[i]).0 != k {
            assert forall|i: int| 0 <= i < less.len() implies (#[trigger] less[i]).0 != k by {}
        }
    }
}

/// Entries that are there already do not change the map.
proof fn repeating_keeps<K, T>(m: Map<K, T>, added: Seq<(K, T)>, i: int)
    requires
        0 <= i <= added.len(),
        forall|j: int|
            0 <= j < added.len() ==> m.contains_pair((#[trigger] added[j]).0, added[j].1),
    ensures
        with_all(m, added.take(i)) == m,
    decreases i,
{
    if i > 0 {
        repeating_keeps(m, added, i - 1);
        assert(added.take(i).drop_last() =~= added.take(i - 1));
    }
}

/// Where no entry changes the map, all of them together do not.
proof fn unchanged_throughout<K, T>(m: Map<K, T>, added: Seq<(K, T)>, i: int)
    requires
        !some_change(m, added),
        0 <= i <= added.len(),
    ensures
        with_all(m, added.take(i)) == m,
    decreases i,
{
    if i > 0 {
        unchanged_throughout(m, added, i - 1);
    }
}

impl<K: DeepView, T: Value> Change<K, T> {
    /// Makes the change and tells whether it is to be reported.
    pub fn make<I: SlotIndex<K>>(self, table: &mut Table<K, I, T>) -> (changed: bool)
        ensures
            final(table).deep_view() == self.deep_view().of(old(table).deep_view()),
            changed == self.deep_view().reported(old(table).deep_view()),
            !changed ==> final(table).walk() == old(table).walk(),
    {
        match self {
            Change::Update(k, v) => table.update(k, v),
            Change::Remove(k) => table.remove(&k).is_some(),
            Change::Clear => {
                table.clear();
                true
            },
            Change::Replace(update) => {
                let NsUpdate { added, removed } = update;
                let ghost all = added.deep_view();
                let mut changed = !removed.is_empty();
                table.remove_all(&removed);
                let ghost kept = table.deep_view();
                let ghost early = changed;
                for item in it: added
                    invariant
                        all.len() == it.seq().len(),
                        forall|j: int|
                            0 <= j < all.len() ==> #[trigger] all[j] == it.seq()[j].deep_view(),
                        table.deep_view() == with_all(kept, all.take(it.index())),
                        !changed ==> table.walk() == old(table).walk(),
                        changed == (early || exists|i: int|
                            0 <= i < it.index() && #[trigger] with_all(kept, all.take(i))
                                != with_all(kept, all.take(i + 1))),
                {
                    let ghost i = it.index();
                    assert(all.take(i + 1).drop_last() =~= all.take(i));
                    let (key, value) = item;
                    changed = table.update(key, value) || changed;
                }
                assert(all.take(all.len() as int) =~= all);
                changed
            },
        }
    }
}

} // verus!
