//! What listings say of resources, and what a change makes of them.
use crate::index::routes_named;
use crate::listing::{
    last_counts, listed_in, updates_by_ns, valid, valid_start, with_all, ChangeModel, ListedModel,
    NsUpdateModel,
};
use crate::route::GroupKindNameModel;
use crate::value::Text;
use vstd::prelude::*;

verus! {

/// Of a listing in two parts, what is valid is what is valid of the one and then
/// what is valid of the other; and of a single resource it is that resource, if it
/// says something valid.
pub proof fn valid_resources_are_taken_one_by_one<K, T>(
    front: Seq<ListedModel<K, Option<T>>>,
    back: Seq<ListedModel<K, Option<T>>>,
    namespace: Text,
    key: K,
    value: T,
)
    ensures
        valid(front + back) == valid(front) + valid(back),
        valid(seq![ListedModel { namespace, key, value: Some(value) }]) == seq![
            ListedModel { namespace, key, value },
        ],
        valid(seq![ListedModel::<K, Option<T>> { namespace, key, value: None }]).len() == 0,
    decreases back.len(),
{
    let one = seq![ListedModel { namespace, key, value: Some(value) }];
    let none = seq![ListedModel::<K, Option<T>> { namespace, key, value: None }];
    reveal_with_fuel(valid, 2);
    assert(valid(one) =~= seq![ListedModel { namespace, key, value }]);
    if back.len() == 0 {
        assert(front + back =~= front);
        assert(valid(front) + valid(back) =~= valid(front));
    } else {
        valid_resources_are_taken_one_by_one(front, back.drop_last(), namespace, key, value);
        assert((front + back).drop_last() =~= front + back.drop_last());
        assert(valid(front + back) =~= valid(front) + valid(back));
    }
}

/// The valid start of a listing ends before the first resource that says nothing
/// valid, and is all of the listing if there is none.
pub proof fn valid_start_ends_at_the_first_fault<K, T>(listed: Seq<ListedModel<K, Option<T>>>)
    ensures
        valid_start(listed) <= listed.len(),
        forall|i: int| 0 <= i < valid_start(listed) ==> (#[trigger] listed[i]).value is Some,
        valid_start(listed) < listed.len() ==> listed[valid_start(listed) as int].value is None,
    decreases listed.len(),
{
    if listed.len() > 0 {
        let less = listed.drop_last();
        valid_start_ends_at_the_first_fault(less);
        assert forall|i: int| 0 <= i < valid_start(listed) implies (
        #[trigger] listed[i]).value is Some by {
            if i < less.len() {
                assert(less[i] == listed[i]);
            }
        }
        if valid_start(less) < less.len() {
            assert(less[valid_start(less) as int] == listed[valid_start(less) as int]);
        }
    }
}

/// Of a listing in two parts, a namespace has its resources of the one and then
/// those of the other; of a single resource it has that one if it is in the
/// namespace.
pub proof fn resources_of_a_namespace_are_taken_one_by_one<K, T>(
    front: Seq<ListedModel<K, T>>,
    back: Seq<ListedModel<K, T>>,
    namespace: Text,
    one: ListedModel<K, T>,
)
    ensures
        listed_in(front + back, namespace) == listed_in(front, namespace) + listed_in(
            back,
            namespace,
        ),
        one.namespace == namespace ==> listed_in(seq![one], namespace) == seq![
            (one.key, one.value),
        ],
        one.namespace != namespace ==> listed_in(seq![one], namespace).len() == 0,
    decreases back.len(),
{
    reveal_with_fuel(listed_in, 2);
    if one.namespace == namespace {
        assert(listed_in(seq![one], namespace) =~= seq![(one.key, one.value)]);
    }
    if back.len() == 0 {
        assert(front + back =~= front);
        assert(listed_in(front, namespace) + listed_in(back, namespace) =~= listed_in(
            front,
            namespace,
        ));
    } else {
        resources_of_a_namespace_are_taken_one_by_one(front, back.drop_last(), namespace, one);
        assert((front + back).drop_last() =~= front + back.drop_last());
        assert(listed_in(front + back, namespace) =~= listed_in(front, namespace) + listed_in(
            back,
            namespace,
        ));
    }
}

/// A namespace has a listed resource exactly if one is listed there.
pub proof fn namespace_is_listed_by_its_resources<K, T>(
    listed: Seq<ListedModel<K, T>>,
    namespace: Text,
)
    ensures
        listed_in(listed, namespace).len() > 0 <==> exists|i: int|
            0 <= i < listed.len() && (#[trigger] listed[i]).namespace == namespace,
    decreases listed.len(),
{
    if listed.len() > 0 {
        let less = listed.drop_last();
        namespace_is_listed_by_its_resources(less, namespace);
        if exists|i: int| 0 <= i < less.len() && (#[trigger] less[i]).namespace == namespace {
            let i = choose|i: int|
                0 <= i < less.len() && (#[trigger] less[i]).namespace == namespace;
            assert(listed[i].namespace == namespace);
        }
        if exists|i: int| 0 <= i < listed.len() && (#[trigger] listed[i]).namespace == namespace {
            let i = choose|i: int|
                0 <= i < listed.len() && (#[trigger] listed[i]).namespace == namespace;
            if i < less.len() {
                assert(less[i].namespace == namespace);
            }
        }
        if listed.last().namespace == namespace {
            assert(listed[listed.len() - 1].namespace == namespace);
        }
    }
}

/// A listing changes the namespaces of its resources and those from which some are
/// gone, and no others: what is listed of each is there, and what is gone is gone.
pub proof fn listing_is_sorted_by_namespace<K, T>(
    listed: Seq<ListedModel<K, T>>,
    deleted: Map<Text, Seq<K>>,
    namespace: Text,
)
    ensures
        updates_by_ns(listed, deleted).contains_key(namespace) <==> deleted.contains_key(namespace)
            || exists|i: int|
            0 <= i < listed.len() && (#[trigger] listed[i]).namespace == namespace,
        updates_by_ns(listed, deleted).contains_key(namespace) ==> {
            let update = updates_by_ns(listed, deleted)[namespace];
            &&& update.added == listed_in(listed, namespace)
            &&& deleted.contains_key(namespace) ==> update.removed == deleted[namespace]
            &&& !deleted.contains_key(namespace) ==> update.removed.len() == 0
        },
{
    namespace_is_listed_by_its_resources(listed, namespace);
}

/// A resource that is there is kept under its key, and all others as they were.
pub proof fn update_sets_one_resource<K, T>(m: Map<K, T>, k: K, v: T, other: K)
    ensures
        ({
            let after = ChangeModel::Update(k, v).of(m);
            &&& after.contains_pair(k, v)
            &&& other != k ==> after.contains_key(other) == m.contains_key(other)
            &&& other != k && m.contains_key(other) ==> after[other] == m[other]
        }),
{
}

/// A resource that is gone is not kept, and all others as they were.
pub proof fn removal_takes_one_resource<K, T>(m: Map<K, T>, k: K, other: K)
    ensures
        ({
            let after = ChangeModel::<K, T>::Remove(k).of(m);
            &&& !after.contains_key(k)
            &&& other != k ==> after.contains_key(other) == m.contains_key(other)
            &&& other != k && m.contains_key(other) ==> after[other] == m[other]
        }),
{
}

/// Once all resources are gone, none is kept.
pub proof fn clearing_takes_all_resources<K, T>(m: Map<K, T>, k: K)
    ensures
        !ChangeModel::<K, T>::Clear.of(m).contains_key(k),
{
}

/// Where some resources are gone and others are there, a resource that is there is
/// kept as it was given last, even if it is also gone. Of the others those that are
/// gone are not kept, and the rest as they were.
pub proof fn replacement_sets_what_is_there<K, T>(
    m: Map<K, T>,
    added: Seq<(K, T)>,
    removed: Seq<K>,
    k: K,
)
    ensures
        ({
            let after = ChangeModel::Replace(NsUpdateModel { added, removed }).of(m);
            &&& forall|i: int|
                {
                    &&& 0 <= i < added.len()
                    &&& (#[trigger] added[i]).0 == k
                    &&& forall|j: int| i < j < added.len() ==> (#[trigger] added[j]).0 != k
                } ==> after.contains_pair(k, added[i].1)
            &&& (forall|i: int| 0 <= i < added.len() ==> (#[trigger] added[i]).0 != k) ==> {
                &&& after.contains_key(k) <==> m.contains_key(k) && !exists|i: int|
                    0 <= i < removed.len() && #[trigger] removed[i] == k
                &&& after.contains_key(k) ==> after[k] == m[k]
            }
        }),
{
    let left = m.remove_keys(removed.to_set());
    last_counts(left, added, k);
    assert(removed.to_set().contains(k) == removed.contains(k));
    if removed.contains(k) {
        let i = choose|i: int| 0 <= i < removed.len() && removed[i] == k;
        assert(removed[i] == k);
    }
}

/// A change that leaves the resources other than they were is reported. An update
/// that does not is not; a removal is reported exactly if there was something to
/// remove.
pub proof fn change_is_reported<K, T>(m: Map<K, T>, change: ChangeModel<K, T>)
    ensures
        change.of(m) != m ==> change.reported(m),
        change matches ChangeModel::Update(k, v) ==> (change.reported(m) <==> !m.contains_pair(
            k,
            v,
        )),
        change matches ChangeModel::Remove(k) ==> (change.reported(m) <==> m.contains_key(k)),
        change is Clear ==> change.reported(m),
        change matches ChangeModel::Replace(update) ==> (update.removed.len() > 0
            ==> change.reported(m)),
{
    change.unreported_is_none(m);
    if let ChangeModel::Update(k, v) = change {
        if m.contains_pair(k, v) {
            assert(m.insert(k, v) =~= m);
        } else {
            assert(m.insert(k, v).contains_pair(k, v));
        }
    }
}

/// Whether a place of a listing is that of a resource of this key in this namespace.
pub open spec fn listed_at<K, T>(
    listed: Seq<ListedModel<K, T>>,
    namespace: Text,
    key: K,
    i: int,
) -> bool {
    listed[i].namespace == namespace && listed[i].key == key
}

/// Of resources that are listed for all namespaces, what a namespace comes to have is
/// what was listed there last under each key; what was not listed there stays.
pub proof fn last_listed_counts<K, T>(
    m: Map<K, T>,
    listed: Seq<ListedModel<K, T>>,
    namespace: Text,
    k: K,
)
    ensures
        ({
            let after = with_all(m, listed_in(listed, namespace));
            &&& forall|i: int|
                {
                    &&& 0 <= i < listed.len()
                    &&& #[trigger] listed_at(listed, namespace, k, i)
                    &&& forall|j: int|
                        i < j < listed.len() ==> !#[trigger] listed_at(listed, namespace, k, j)
                } ==> after.contains_pair(k, listed[i].value)
            &&& (forall|i: int|
                0 <= i < listed.len() ==> !#[trigger] listed_at(listed, namespace, k, i)) ==> {
                &&& after.contains_key(k) == m.contains_key(k)
                &&& m.contains_key(k) ==> after[k] == m[k]
            }
        }),
    decreases listed.len(),
{
    if listed.len() > 0 {
        let less = listed.drop_last();
        let last = listed.last();
        let n = listed.len() - 1;
        last_listed_counts(m, less, namespace, k);
        assert forall|i: int| 0 <= i < less.len() implies #[trigger] listed_at(
            less,
            namespace,
            k,
            i,
        ) == listed_at(listed, namespace, k, i) by {}
        assert(listed_at(listed, namespace, k, n) == (last.namespace == namespace && last.key
            == k));
        let after = with_all(m, listed_in(listed, namespace));
        let earlier = with_all(m, listed_in(less, namespace));
        if last.namespace == namespace {
            assert(listed_in(listed, namespace).drop_last() =~= listed_in(less, namespace));
            assert(after == earlier.insert(last.key, last.value));
        }
        assert forall|i: int|
            {
                &&& 0 <= i < listed.len()
                &&& #[trigger] listed_at(listed, namespace, k, i)
                &&& forall|j: int|
                    i < j < listed.len() ==> !#[trigger] listed_at(listed, namespace, k, j)
            } implies after.contains_pair(k, listed[i].value) by {
            if i < n {
                assert(listed_at(less, namespace, k, i));
                assert(!listed_at(listed, namespace, k, n));
                assert forall|j: int| i < j < less.len() implies !#[trigger] listed_at(
                    less,
                    namespace,
                    k,
                    j,
                ) by {
                    assert(!listed_at(listed, namespace, k, j));
                }
            }
        }
        if forall|i: int| 0 <= i < listed.len() ==> !#[trigger] listed_at(listed, namespace, k, i) {
            assert(!listed_at(listed, namespace, k, n));
            assert forall|i: int| 0 <= i < less.len() implies !#[trigger] listed_at(
                less,
                namespace,
                k,
                i,
            ) by {
                assert(!listed_at(listed, namespace, k, i));
            }
        }
    }
}

/// The routes of some names are those names, in their order, each with the API group
/// and the kind given.
pub proof fn routes_go_by_group_and_kind(
    group: Text,
    kind: Text,
    names: Map<Text, Seq<Text>>,
    namespace: Text,
)
    ensures
        ({
            let routes = routes_named(group, kind, names);
            &&& routes.contains_key(namespace) <==> names.contains_key(namespace)
            &&& names.contains_key(namespace) ==> {
                &&& routes[namespace].len() == names[namespace].len()
                &&& forall|i: int|
                    0 <= i < names[namespace].len() ==> #[trigger] routes[namespace][i] == (
                    GroupKindNameModel { group, kind, name: names[namespace][i] })
            }
        }),
{
}

} // verus!
