//! What is kept of the authentications that policies may ask for.
use crate::authentications::{
    meshtls_of, network_of, some_meshtls_change, some_network_change, with_all_meshtls,
    with_all_network, with_meshtls, with_network, without_meshtls, without_network,
    AuthenticationsModel,
};
use crate::authz::{IdentityMatchModel, NetworkMatchModel};
use crate::index::IndexModel;
use crate::laws::listings::listed_at;
use crate::listing::ListedModel;
use crate::value::Text;
use vstd::prelude::*;

verus! {

/// A `MeshTLSAuthentication` is found exactly if it is kept in that namespace under
/// that name, and so is a `NetworkAuthentication`. Neither is found in the place of
/// the other.
pub proof fn what_is_kept_is_found(all: AuthenticationsModel, namespace: Text, name: Text)
    ensures
        meshtls_of(all, namespace, name) is Some <==> all.contains_key(namespace)
            && all[namespace].meshtls.contains_key(name),
        meshtls_of(all, namespace, name) matches Some(ids) ==> ids
            == all[namespace].meshtls[name],
        network_of(all, namespace, name) is Some <==> all.contains_key(namespace)
            && all[namespace].network.contains_key(name),
        network_of(all, namespace, name) matches Some(nets) ==> nets
            == all[namespace].network[name],
{
}

/// Once a `MeshTLSAuthentication` is applied it is kept with its identities. Every
/// other one, of whatever namespace, is kept as it was, and so are all
/// `NetworkAuthentication`s.
pub proof fn applied_meshtls_is_kept(
    all: AuthenticationsModel,
    namespace: Text,
    name: Text,
    ids: Seq<IdentityMatchModel>,
    other_ns: Text,
    other: Text,
)
    ensures
        ({
            let after = with_meshtls(all, namespace, name, ids);
            &&& after.contains_key(namespace)
            &&& after[namespace].meshtls.contains_pair(name, ids)
            &&& other_ns != namespace || other != name ==> {
                &&& (after.contains_key(other_ns) && after[other_ns].meshtls.contains_key(other))
                    == (all.contains_key(other_ns) && all[other_ns].meshtls.contains_key(other))
                &&& all.contains_key(other_ns) && all[other_ns].meshtls.contains_key(other)
                    ==> after[other_ns].meshtls[other] == all[other_ns].meshtls[other]
            }
            &&& (after.contains_key(other_ns) && after[other_ns].network.contains_key(other)) == (
            all.contains_key(other_ns) && all[other_ns].network.contains_key(other))
            &&& all.contains_key(other_ns) && all[other_ns].network.contains_key(other)
                ==> after[other_ns].network[other] == all[other_ns].network[other]
        }),
{
}

/// Once a `NetworkAuthentication` is applied it is kept with its networks. Every
/// other one, of whatever namespace, is kept as it was, and so are all
/// `MeshTLSAuthentication`s.
pub proof fn applied_network_is_kept(
    all: AuthenticationsModel,
    namespace: Text,
    name: Text,
    nets: Seq<NetworkMatchModel>,
    other_ns: Text,
    other: Text,
)
    ensures
        ({
            let after = with_network(all, namespace, name, nets);
            &&& after.contains_key(namespace)
            &&& after[namespace].network.contains_pair(name, nets)
            &&& other_ns != namespace || other != name ==> {
                &&& (after.contains_key(other_ns) && after[other_ns].network.contains_key(other))
                    == (all.contains_key(other_ns) && all[other_ns].network.contains_key(other))
                &&& all.contains_key(other_ns) && all[other_ns].network.contains_key(other)
                    ==> after[other_ns].network[other] == all[other_ns].network[other]
            }
            &&& (after.contains_key(other_ns) && after[other_ns].meshtls.contains_key(other)) == (
            all.contains_key(other_ns) && all[other_ns].meshtls.contains_key(other))
            &&& all.contains_key(other_ns) && all[other_ns].meshtls.contains_key(other)
                ==> after[other_ns].meshtls[other] == all[other_ns].meshtls[other]
        }),
{
}

/// Once a `NetworkAuthentication` is deleted it is not kept. Every other one is kept
/// as it was, and so are all `MeshTLSAuthentication`s.
pub proof fn deleted_network_is_gone(
    all: AuthenticationsModel,
    namespace: Text,
    name: Text,
    other_ns: Text,
    other: Text,
)
    ensures
        ({
            let after = without_network(all, namespace, name);
            &&& !(after.contains_key(namespace) && after[namespace].network.contains_key(name))
            &&& other_ns != namespace || other != name ==> {
                &&& (after.contains_key(other_ns) && after[other_ns].network.contains_key(other))
                    == (all.contains_key(other_ns) && all[other_ns].network.contains_key(other))
                &&& all.contains_key(other_ns) && all[other_ns].network.contains_key(other)
                    ==> after[other_ns].network[other] == all[other_ns].network[other]
            }
            &&& (after.contains_key(other_ns) && after[other_ns].meshtls.contains_key(other)) == (
            all.contains_key(other_ns) && all[other_ns].meshtls.contains_key(other))
            &&& all.contains_key(other_ns) && all[other_ns].meshtls.contains_key(other)
                ==> after[other_ns].meshtls[other] == all[other_ns].meshtls[other]
        }),
{
    if all.contains_key(namespace) {
        let left = all[namespace].without_network(name);
        let empty = crate::authentications::AuthenticationIndexModel::empty();
        assert(left == empty ==> !left.network.contains_key(other) && !left.meshtls.contains_key(
            other,
        ));
        assert(other != name ==> left.network.contains_key(other)
            == all[namespace].network.contains_key(other));
    }
}

/// Once `MeshTLSAuthentication`s are deleted, exactly those are not kept any more.
/// All others are kept as they were, and so are all `NetworkAuthentication`s.
pub proof fn deleted_meshtls_are_gone(
    all: AuthenticationsModel,
    deleted: Map<Text, Seq<Text>>,
    namespace: Text,
    name: Text,
)
    ensures
        ({
            let after = without_meshtls(all, deleted);
            let gone = deleted.contains_key(namespace) && exists|i: int|
                0 <= i < deleted[namespace].len() && #[trigger] deleted[namespace][i] == name;
            &&& (after.contains_key(namespace) && after[namespace].meshtls.contains_key(name)) == (
            all.contains_key(namespace) && all[namespace].meshtls.contains_key(name) && !gone)
            &&& after.contains_key(namespace) && after[namespace].meshtls.contains_key(name)
                ==> after[namespace].meshtls[name] == all[namespace].meshtls[name]
            &&& (after.contains_key(namespace) && after[namespace].network.contains_key(name)) == (
            all.contains_key(namespace) && all[namespace].network.contains_key(name))
            &&& all.contains_key(namespace) && all[namespace].network.contains_key(name)
                ==> after[namespace].network[name] == all[namespace].network[name]
        }),
{
    if all.contains_key(namespace) && deleted.contains_key(namespace) {
        let names = deleted[namespace];
        let left = all[namespace].without_meshtls(names);
        let empty = crate::authentications::AuthenticationIndexModel::empty();
        assert(left == empty ==> !left.network.contains_key(name) && !left.meshtls.contains_key(
            name,
        ));
        assert(names.to_set().contains(name) == names.contains(name));
        if names.contains(name) {
            let i = choose|i: int| 0 <= i < names.len() && names[i] == name;
            assert(deleted[namespace][i] == name);
        }
    }
}

/// A namespace of which no authentication is left is not kept either, however its
/// last one went.
pub proof fn no_namespace_is_kept_for_nothing(
    all: AuthenticationsModel,
    namespace: Text,
    name: Text,
    deleted: Map<Text, Seq<Text>>,
    ns: Text,
)
    requires
        all.contains_key(ns) ==> all[ns].meshtls != Map::<Text, Seq<IdentityMatchModel>>::empty()
            || all[ns].network != Map::<Text, Seq<NetworkMatchModel>>::empty(),
    ensures
        ({
            let a = without_network(all, namespace, name);
            let b = without_meshtls(all, deleted);
            let no_ids = Map::<Text, Seq<IdentityMatchModel>>::empty();
            let no_nets = Map::<Text, Seq<NetworkMatchModel>>::empty();
            &&& a.contains_key(ns) ==> a[ns].meshtls != no_ids || a[ns].network != no_nets
            &&& b.contains_key(ns) ==> b[ns].meshtls != no_ids || b[ns].network != no_nets
        }),
{
}

/// Of the `MeshTLSAuthentication`s of a listing, the last of a name counts. One that
/// is not listed is kept as it was, and so are all `NetworkAuthentication`s.
pub proof fn listed_meshtls_are_kept(
    all: AuthenticationsModel,
    listed: Seq<ListedModel<Text, Seq<IdentityMatchModel>>>,
    ns: Text,
    name: Text,
)
    ensures
        ({
            let after = with_all_meshtls(all, listed);
            &&& forall|i: int|
                {
                    &&& 0 <= i < listed.len()
                    &&& #[trigger] listed_at(listed, ns, name, i)
                    &&& forall|j: int|
                        i < j < listed.len() ==> !#[trigger] listed_at(listed, ns, name, j)
                } ==> {
                    &&& after.contains_key(ns)
                    &&& after[ns].meshtls.contains_pair(name, listed[i].value)
                }
            &&& (forall|i: int|
                0 <= i < listed.len() ==> !#[trigger] listed_at(listed, ns, name, i)) ==> {
                &&& (after.contains_key(ns) && after[ns].meshtls.contains_key(name))
                    == (all.contains_key(ns) && all[ns].meshtls.contains_key(name))
                &&& all.contains_key(ns) && all[ns].meshtls.contains_key(name)
                    ==> after[ns].meshtls[name] == all[ns].meshtls[name]
            }
            &&& (after.contains_key(ns) && after[ns].network.contains_key(name)) == (
            all.contains_key(ns) && all[ns].network.contains_key(name))
            &&& all.contains_key(ns) && all[ns].network.contains_key(name)
                ==> after[ns].network[name] == all[ns].network[name]
        }),
    decreases listed.len(),
{
    if listed.len() > 0 {
        let less = listed.drop_last();
        let last = listed.last();
        listed_meshtls_are_kept(all, less, ns, name);
        applied_meshtls_is_kept(
            with_all_meshtls(all, less),
            last.namespace,
            last.key,
            last.value,
            ns,
            name,
        );
        assert forall|i: int| 0 <= i < less.len() implies #[trigger] listed_at(less, ns, name, i)
            == listed_at(listed, ns, name, i) by {}
        let n = listed.len() - 1;
        assert(listed_at(listed, ns, name, n) == (last.namespace == ns && last.key == name));
        assert forall|i: int|
            {
                &&& 0 <= i < listed.len()
                &&& #[trigger] listed_at(listed, ns, name, i)
                &&& forall|j: int|
                    i < j < listed.len() ==> !#[trigger] listed_at(listed, ns, name, j)
            } implies {
            let after = with_all_meshtls(all, listed);
            &&& after.contains_key(ns)
            &&& after[ns].meshtls.contains_pair(name, listed[i].value)
        } by {
            if i < n {
                assert(listed_at(less, ns, name, i));
                assert forall|j: int| i < j < less.len() implies !#[trigger] listed_at(
                    less,
                    ns,
                    name,
                    j,
                ) by {
                    assert(!listed_at(listed, ns, name, j));
                }
            }
        }
        if forall|i: int| 0 <= i < listed.len() ==> !#[trigger] listed_at(listed, ns, name, i) {
            assert forall|i: int| 0 <= i < less.len() implies !#[trigger] listed_at(
                less,
                ns,
                name,
                i,
            ) by {
                assert(!listed_at(listed, ns, name, i));
            }
        }
    }
}

/// Of the `NetworkAuthentication`s of a listing, the last of a name counts. One that
/// is not listed is kept as it was, and so are all `MeshTLSAuthentication`s.
pub proof fn listed_networks_are_kept(
    all: AuthenticationsModel,
    listed: Seq<ListedModel<Text, Seq<NetworkMatchModel>>>,
    ns: Text,
    name: Text,
)
    ensures
        ({
            let after = with_all_network(all, listed);
            &&& forall|i: int|
                {
                    &&& 0 <= i < listed.len()
                    &&& #[trigger] listed_at(listed, ns, name, i)
                    &&& forall|j: int|
                        i < j < listed.len() ==> !#[trigger] listed_at(listed, ns, name, j)
                } ==> {
                    &&& after.contains_key(ns)
                    &&& after[ns].network.contains_pair(name, listed[i].value)
                }
            &&& (forall|i: int|
                0 <= i < listed.len() ==> !#[trigger] listed_at(listed, ns, name, i)) ==> {
                &&& (after.contains_key(ns) && after[ns].network.contains_key(name))
                    == (all.contains_key(ns) && all[ns].network.contains_key(name))
                &&& all.contains_key(ns) && all[ns].network.contains_key(name)
                    ==> after[ns].network[name] == all[ns].network[name]
            }
            &&& (after.contains_key(ns) && after[ns].meshtls.contains_key(name)) == (
            all.contains_key(ns) && all[ns].meshtls.contains_key(name))
            &&& all.contains_key(ns) && all[ns].meshtls.contains_key(name)
                ==> after[ns].meshtls[name] == all[ns].meshtls[name]
        }),
    decreases listed.len(),
{
    if listed.len() > 0 {
        let less = listed.drop_last();
        let last = listed.last();
        listed_networks_are_kept(all, less, ns, name);
        applied_network_is_kept(
            with_all_network(all, less),
            last.namespace,
            last.key,
            last.value,
            ns,
            name,
        );
        assert forall|i: int| 0 <= i < less.len() implies #[trigger] listed_at(less, ns, name, i)
            == listed_at(listed, ns, name, i) by {}
        let n = listed.len() - 1;
        assert(listed_at(listed, ns, name, n) == (last.namespace == ns && last.key == name));
        assert forall|i: int|
            {
                &&& 0 <= i < listed.len()
                &&& #[trigger] listed_at(listed, ns, name, i)
                &&& forall|j: int|
                    i < j < listed.len() ==> !#[trigger] listed_at(listed, ns, name, j)
            } implies {
            let after = with_all_network(all, listed);
            &&& after.contains_key(ns)
            &&& after[ns].network.contains_pair(name, listed[i].value)
        } by {
            if i < n {
                assert(listed_at(less, ns, name, i));
                assert forall|j: int| i < j < less.len() implies !#[trigger] listed_at(
                    less,
                    ns,
                    name,
                    j,
                ) by {
                    assert(!listed_at(listed, ns, name, j));
                }
            }
        }
        if forall|i: int| 0 <= i < listed.len() ==> !#[trigger] listed_at(listed, ns, name, i) {
            assert forall|i: int| 0 <= i < less.len() implies !#[trigger] listed_at(
                less,
                ns,
                name,
                i,
            ) by {
                assert(!listed_at(listed, ns, name, i));
            }
        }
    }
}

/// A listing that leaves the authentications other than they were is one of which
/// some entry changes something, and one that repeats what is kept is not.
pub proof fn listing_that_changes_is_noticed(
    all: AuthenticationsModel,
    ids: Seq<ListedModel<Text, Seq<IdentityMatchModel>>>,
    nets: Seq<ListedModel<Text, Seq<NetworkMatchModel>>>,
)
    ensures
        with_all_meshtls(all, ids) != all ==> some_meshtls_change(all, ids),
        with_all_network(all, nets) != all ==> some_network_change(all, nets),
        (forall|i: int|
            0 <= i < ids.len() ==> all.contains_key((#[trigger] ids[i]).namespace)
                && all[ids[i].namespace].meshtls.contains_pair(ids[i].key, ids[i].value))
            ==> !some_meshtls_change(all, ids),
        (forall|i: int|
            0 <= i < nets.len() ==> all.contains_key((#[trigger] nets[i]).namespace)
                && all[nets[i].namespace].network.contains_pair(nets[i].key, nets[i].value))
            ==> !some_network_change(all, nets),
{
    assert(ids.take(ids.len() as int) =~= ids);
    assert(nets.take(nets.len() as int) =~= nets);
    if !some_meshtls_change(all, ids) {
        unchanged_meshtls(all, ids, ids.len() as int);
    }
    if !some_network_change(all, nets) {
        unchanged_network(all, nets, nets.len() as int);
    }
    if forall|i: int|
        0 <= i < ids.len() ==> all.contains_key((#[trigger] ids[i]).namespace)
            && all[ids[i].namespace].meshtls.contains_pair(ids[i].key, ids[i].value) {
        assert forall|i: int| 0 <= i < ids.len() implies #[trigger] with_all_meshtls(
            all,
            ids.take(i),
        ) == with_all_meshtls(all, ids.take(i + 1)) by {
            repeated_meshtls(all, ids, i);
            repeated_meshtls(all, ids, i + 1);
        }
    }
    if forall|i: int|
        0 <= i < nets.len() ==> all.contains_key((#[trigger] nets[i]).namespace)
            && all[nets[i].namespace].network.contains_pair(nets[i].key, nets[i].value) {
        assert forall|i: int| 0 <= i < nets.len() implies #[trigger] with_all_network(
            all,
            nets.take(i),
        ) == with_all_network(all, nets.take(i + 1)) by {
            repeated_network(all, nets, i);
            repeated_network(all, nets, i + 1);
        }
    }
}

/// Where no entry changes anything, all of them together do not.
proof fn unchanged_meshtls(
    all: AuthenticationsModel,
    ids: Seq<ListedModel<Text, Seq<IdentityMatchModel>>>,
    i: int,
)
    requires
        !some_meshtls_change(all, ids),
        0 <= i <= ids.len(),
    ensures
        with_all_meshtls(all, ids.take(i)) == all,
    decreases i,
{
    if i > 0 {
        unchanged_meshtls(all, ids, i - 1);
    }
}

/// Where no entry changes anything, all of them together do not.
proof fn unchanged_network(
    all: AuthenticationsModel,
    nets: Seq<ListedModel<Text, Seq<NetworkMatchModel>>>,
    i: int,
)
    requires
        !some_network_change(all, nets),
        0 <= i <= nets.len(),
    ensures
        with_all_network(all, nets.take(i)) == all,
    decreases i,
{
    if i > 0 {
        unchanged_network(all, nets, i - 1);
    }
}

/// Entries that repeat what is kept change nothing.
proof fn repeated_meshtls(
    all: AuthenticationsModel,
    ids: Seq<ListedModel<Text, Seq<IdentityMatchModel>>>,
    i: int,
)
    requires
        0 <= i <= ids.len(),
        forall|j: int|
            0 <= j < ids.len() ==> all.contains_key((#[trigger] ids[j]).namespace)
                && all[ids[j].namespace].meshtls.contains_pair(ids[j].key, ids[j].value),
    ensures
        with_all_meshtls(all, ids.take(i)) == all,
    decreases i,
{
    if i > 0 {
        repeated_meshtls(all, ids, i - 1);
        assert(ids.take(i).drop_last() =~= ids.take(i - 1));
        let last = ids[i - 1];
        assert(with_meshtls(all, last.namespace, last.key, last.value) =~~= all);
    }
}

/// Entries that repeat what is kept change nothing.
proof fn repeated_network(
    all: AuthenticationsModel,
    nets: Seq<ListedModel<Text, Seq<NetworkMatchModel>>>,
    i: int,
)
    requires
        0 <= i <= nets.len(),
        forall|j: int|
            0 <= j < nets.len() ==> all.contains_key((#[trigger] nets[j]).namespace)
                && all[nets[j].namespace].network.contains_pair(nets[j].key, nets[j].value),
    ensures
        with_all_network(all, nets.take(i)) == all,
    decreases i,
{
    if i > 0 {
        repeated_network(all, nets, i - 1);
        assert(nets.take(i).drop_last() =~= nets.take(i - 1));
        let last = nets[i - 1];
        assert(with_network(all, last.namespace, last.key, last.value) =~~= all);
    }
}

/// A change of the authentications alone leaves every namespace with its pods, its
/// external groups and its policy resources as they were given, whether or not
/// everything is configured anew.
pub proof fn authentications_change_no_resources(
    before: IndexModel,
    after: IndexModel,
    anew: bool,
    ns: Text,
    name: Text,
)
    requires
        before.followed_authentications(after, anew),
    ensures
        after.cluster == before.cluster,
        after.namespaces.by_ns.contains_key(ns) == before.namespaces.by_ns.contains_key(ns),
        before.namespaces.by_ns.contains_key(ns) ==> {
            let b = before.namespaces.by_ns[ns];
            let a = after.namespaces.by_ns[ns];
            &&& a.policy == b.policy
            &&& a.pods.contains_key(name) == b.pods.contains_key(name)
            &&& b.pods.contains_key(name) ==> {
                &&& a.pods[name].meta == b.pods[name].meta
                &&& a.pods[name].port_names == b.pods[name].port_names
                &&& a.pods[name].probes == b.pods[name].probes
            }
            &&& a.external.contains_key(name) == b.external.contains_key(name)
            &&& b.external.contains_key(name) ==> {
                &&& a.external[name].meta == b.external[name].meta
                &&& a.external[name].ports == b.external[name].ports
            }
        },
        !anew ==> after.namespaces == before.namespaces,
{
    if anew && before.namespaces.by_ns.contains_key(ns) {
        let b = before.namespaces.by_ns[ns];
        let a = after.namespaces.by_ns[ns];
        assert(b.reindexed(a, after.authentications));
        assert(a.pods.dom().contains(name) == b.pods.dom().contains(name));
        assert(a.external.dom().contains(name) == b.external.dom().contains(name));
        if b.pods.contains_key(name) {
            assert(b.pods[name].reindexed(a.pods[name], b.policy, after.authentications));
        }
        if b.external.contains_key(name) {
            assert(b.external[name].reindexed(
                a.external[name],
                b.policy,
                after.authentications,
                name,
            ));
        }
    }
    assert(after.namespaces.by_ns.dom().contains(ns) == before.namespaces.by_ns.dom().contains(ns));
}

} // verus!
