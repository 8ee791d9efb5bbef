//! What the operations of an index do, of whatever index and with whatever
//! arguments: where a call has come back, this holds of what it was given, what it
//! gave back and what it made of the index.
use crate::authorization_policy::Spec;
use crate::authz::{IdentityMatch, NetworkMatch};
use crate::cluster::ClusterInfo;
use crate::external::PortsChanged;
use crate::inbound::InboundServer;
use crate::index::{Index, IndexModel, NotFound};
use crate::laws::authentications::{
    applied_meshtls_is_kept, applied_network_is_kept, deleted_meshtls_are_gone,
    deleted_network_is_gone, listed_meshtls_are_kept, listed_networks_are_kept,
};
use crate::laws::listings::{
    listed_at, routes_go_by_group_and_kind, valid_start_ends_at_the_first_fault,
};
use crate::laws::resources::{
    applied_policy_is_kept, applied_route_is_kept, applied_server_authorization_is_kept,
    applied_server_is_kept, deleted_policy_is_gone, deleted_route_is_gone,
    deleted_server_authorization_is_gone, deleted_server_is_gone, listed_policy_is_kept,
    listed_route_is_kept, listed_server_authorization_is_kept, listed_server_is_kept,
    other_namespaces_are_left_alone,
};
use crate::laws::workloads::{
    applied_group_is_known_as_given, applied_group_leaves_the_rest, applied_pod_is_known_as_given,
    applied_pod_leaves_the_rest, deleted_group_takes_nothing_along,
    deleted_pod_takes_nothing_along, group_publishes_what_is_asked, pod_publishes_what_is_asked,
};
use crate::listing::{updates_by_ns, valid, valid_start, Listed};
use crate::meta::{MetaModel, ObjectMeta};
use crate::pod::PortNamesChanged;
use crate::ports::PortSet;
use crate::route::{GroupKindName, GroupKindNameModel, RouteBinding};
use crate::server::Server;
use crate::server_authorization::ServerAuthz;
use crate::table::{NameTable, PortTable};
use crate::value::Text;
use crate::watching::{is_open, subscription, PortEnd};
use std::sync::Arc;
use tokio::sync::watch;
use vstd::prelude::*;

verus! {

/// A new index knows nothing but what is configured for the cluster.
pub proof fn new_index_knows_nothing(cluster: Arc<ClusterInfo>, r: Index, ns: Text)
    requires
        call_ensures(Index::new, (cluster,), r),
    ensures
        r.deep_view().cluster == cluster.deep_view(),
        r.deep_view().namespaces.cluster == cluster.deep_view(),
        !r.deep_view().namespaces.by_ns.contains_key(ns),
        !r.deep_view().authentications.contains_key(ns),
{
}

/// Where only one namespace may have changed, every other one is as it was, and so
/// are the authentications and what is configured for the cluster.
pub open spec fn rest_is_left_alone(before: IndexModel, after: IndexModel, ns: Text) -> bool {
    &&& after.cluster == before.cluster
    &&& after.authentications == before.authentications
    &&& forall|other: Text|
        #![trigger after.namespaces.by_ns.contains_key(other)]
        #![trigger before.namespaces.by_ns.contains_key(other)]
        other != ns ==> {
            &&& after.namespaces.by_ns.contains_key(other)
                == before.namespaces.by_ns.contains_key(other)
            &&& before.namespaces.by_ns.contains_key(other) ==> after.namespaces.by_ns[other]
                == before.namespaces.by_ns[other]
        }
}

/// Where only one namespace has changed, the rest is left alone.
proof fn only_ns_leaves_the_rest(before: IndexModel, after: IndexModel, ns: Text)
    requires
        before.only_ns(after, ns),
    ensures
        rest_is_left_alone(before, after, ns),
{
    assert forall|other: Text|
        #![trigger after.namespaces.by_ns.contains_key(other)]
        #![trigger before.namespaces.by_ns.contains_key(other)]
        other != ns implies {
        &&& after.namespaces.by_ns.contains_key(other) == before.namespaces.by_ns.contains_key(
            other,
        )
        &&& before.namespaces.by_ns.contains_key(other) ==> after.namespaces.by_ns[other]
            == before.namespaces.by_ns[other]
    } by {
        other_namespaces_are_left_alone(before, after, ns, other);
    }
}

/// A `Server` that is applied is kept, as it was given, in its namespace. Every
/// other one there is as it was, and other namespaces are left alone.
pub proof fn apply_keeps_the_server(
    index: &mut Index,
    namespace: String,
    key: String,
    value: Server,
    other: Text,
)
    requires
        call_ensures(Index::apply::<Server>, (index, namespace, key, value), ()),
    ensures
        ({
            let before = old(index).deep_view();
            let after = final(index).deep_view();
            let now = after.namespaces.by_ns[namespace@].policy.servers;
            let was = before.namespaces.by_ns[namespace@].policy.servers;
            let known = before.namespaces.by_ns.contains_key(namespace@);
            &&& after.namespaces.by_ns.contains_key(namespace@)
            &&& now.contains_pair(key@, value.deep_view())
            &&& other != key@ ==> {
                &&& now.contains_key(other) == (known && was.contains_key(other))
                &&& now.contains_key(other) ==> now[other] == was[other]
            }
            &&& rest_is_left_alone(before, after, namespace@)
        }),
{
    let before = old(index).deep_view();
    let after = final(index).deep_view();
    applied_server_is_kept(before, after, namespace@, key@, value.deep_view(), other);
    only_ns_leaves_the_rest(before, after, namespace@);
}

/// A `Server` that is deleted is not kept any more. Every other one of its
/// namespace is as it was, as long as the namespace is known, and other namespaces
/// are left alone.
pub proof fn delete_forgets_the_server(
    index: &mut Index,
    namespace: String,
    key: String,
    other: Text,
)
    requires
        call_ensures(Index::delete::<Server>, (index, namespace, key), ()),
    ensures
        ({
            let before = old(index).deep_view();
            let after = final(index).deep_view();
            let now = after.namespaces.by_ns[namespace@].policy.servers;
            let was = before.namespaces.by_ns[namespace@].policy.servers;
            let known = before.namespaces.by_ns.contains_key(namespace@);
            &&& after.namespaces.by_ns.contains_key(namespace@) ==> {
                &&& known
                &&& !now.contains_key(key@)
                &&& other != key@ ==> now.contains_key(other) == was.contains_key(other)
                &&& other != key@ && was.contains_key(other) ==> now[other] == was[other]
            }
            &&& known && was.contains_key(other) && other != key@
                ==> after.namespaces.by_ns.contains_key(namespace@)
            &&& rest_is_left_alone(before, after, namespace@)
        }),
{
    let before = old(index).deep_view();
    let after = final(index).deep_view();
    deleted_server_is_gone(before, after, namespace@, key@, other);
    only_ns_leaves_the_rest(before, after, namespace@);
}

/// After a listing of `Server`s, a namespace in which valid ones are listed keeps
/// each as it was listed last, forgets the others that are deleted and keeps the
/// rest. One of which some are deleted and none is listed forgets all of them, and
/// any other is as it was.
pub proof fn reset_keeps_each_listed_server(
    index: &mut Index,
    listed: Vec<Listed<String, Option<Server>>>,
    deleted: NameTable<Vec<String>>,
    ns: Text,
    key: Text,
)
    requires
        call_ensures(Index::reset::<Server>, (index, listed, deleted), ()),
    ensures
        ({
            let before = old(index).deep_view();
            let after = final(index).deep_view();
            let there = valid(listed.deep_view());
            let gone = deleted.deep_view();
            let was = before.namespaces.by_ns[ns].policy.servers;
            let now = after.namespaces.by_ns[ns].policy.servers;
            let was_kept = before.namespaces.by_ns.contains_key(ns) && was.contains_key(key);
            let known = after.namespaces.by_ns.contains_key(ns);
            let some_listed = exists|i: int|
                0 <= i < there.len() && (#[trigger] there[i]).namespace == ns;
            &&& after.authentications == before.authentications
            &&& after.cluster == before.cluster
            &&& forall|i: int|
                {
                    &&& 0 <= i < there.len()
                    &&& #[trigger] listed_at(there, ns, key, i)
                    &&& forall|j: int|
                        i < j < there.len() ==> !#[trigger] listed_at(there, ns, key, j)
                } ==> known && now.contains_pair(key, there[i].value)
            &&& some_listed && (forall|i: int|
                0 <= i < there.len() ==> !#[trigger] listed_at(there, ns, key, i)) ==> {
                &&& known
                &&& now.contains_key(key) <==> was_kept && !(gone.contains_key(ns) && exists|i: int|
                    0 <= i < gone[ns].len() && #[trigger] gone[ns][i] == key)
                &&& now.contains_key(key) ==> now[key] == was[key]
            }
            &&& !some_listed && gone.contains_key(ns) ==> !(known && now.contains_key(key))
            &&& !some_listed && !gone.contains_key(ns) ==> {
                &&& known == before.namespaces.by_ns.contains_key(ns)
                &&& known ==> after.namespaces.by_ns[ns] == before.namespaces.by_ns[ns]
            }
        }),
{
    let before = old(index).deep_view();
    let after = final(index).deep_view();
    let there = valid(listed.deep_view());
    let gone = deleted.deep_view();
    assert(before.ns_reset::<Server>(after, ns, updates_by_ns(there, gone)));
    listed_server_is_kept(before, after, ns, there, gone, key);
    if exists|i: int| 0 <= i < there.len() && #[trigger] listed_at(there, ns, key, i) {
        let i = choose|i: int| 0 <= i < there.len() && #[trigger] listed_at(there, ns, key, i);
        assert(there[i].namespace == ns);
    }
}

/// A `ServerAuthorization` that is applied is kept, as it was given, in its
/// namespace. Every other one there is as it was, and other namespaces are left
/// alone.
pub proof fn apply_keeps_the_server_authorization(
    index: &mut Index,
    namespace: String,
    key: String,
    value: ServerAuthz,
    other: Text,
)
    requires
        call_ensures(Index::apply::<ServerAuthz>, (index, namespace, key, value), ()),
    ensures
        ({
            let before = old(index).deep_view();
            let after = final(index).deep_view();
            let now = after.namespaces.by_ns[namespace@].policy.server_authorizations;
            let was = before.namespaces.by_ns[namespace@].policy.server_authorizations;
            let known = before.namespaces.by_ns.contains_key(namespace@);
            &&& after.namespaces.by_ns.contains_key(namespace@)
            &&& now.contains_pair(key@, value.deep_view())
            &&& other != key@ ==> {
                &&& now.contains_key(other) == (known && was.contains_key(other))
                &&& now.contains_key(other) ==> now[other] == was[other]
            }
            &&& rest_is_left_alone(before, after, namespace@)
        }),
{
    let before = old(index).deep_view();
    let after = final(index).deep_view();
    applied_server_authorization_is_kept(before, after, namespace@, key@, value.deep_view(), other);
    only_ns_leaves_the_rest(before, after, namespace@);
}

/// A `ServerAuthorization` that is deleted is not kept any more. Every other one of
/// its namespace is as it was, as long as the namespace is known, and other
/// namespaces are left alone.
pub proof fn delete_forgets_the_server_authorization(
    index: &mut Index,
    namespace: String,
    key: String,
    other: Text,
)
    requires
        call_ensures(Index::delete::<ServerAuthz>, (index, namespace, key), ()),
    ensures
        ({
            let before = old(index).deep_view();
            let after = final(index).deep_view();
            let now = after.namespaces.by_ns[namespace@].policy.server_authorizations;
            let was = before.namespaces.by_ns[namespace@].policy.server_authorizations;
            let known = before.namespaces.by_ns.contains_key(namespace@);
            &&& after.namespaces.by_ns.contains_key(namespace@) ==> {
                &&& known
                &&& !now.contains_key(key@)
                &&& other != key@ ==> now.contains_key(other) == was.contains_key(other)
                &&& other != key@ && was.contains_key(other) ==> now[other] == was[other]
            }
            &&& known && was.contains_key(other) && other != key@
                ==> after.namespaces.by_ns.contains_key(namespace@)
            &&& rest_is_left_alone(before, after, namespace@)
        }),
{
    let before = old(index).deep_view();
    let after = final(index).deep_view();
    deleted_server_authorization_is_gone(before, after, namespace@, key@, other);
    only_ns_leaves_the_rest(before, after, namespace@);
}

/// After a listing of `ServerAuthorization`s, a namespace in which valid ones are
/// listed keeps each as it was listed last, forgets the others that are deleted and
/// keeps the rest. One of which some are deleted and none is listed forgets all of
/// them, and any other is as it was.
pub proof fn reset_keeps_each_listed_server_authorization(
    index: &mut Index,
    listed: Vec<Listed<String, Option<ServerAuthz>>>,
    deleted: NameTable<Vec<String>>,
    ns: Text,
    key: Text,
)
    requires
        call_ensures(Index::reset::<ServerAuthz>, (index, listed, deleted), ()),
    ensures
        ({
            let before = old(index).deep_view();
            let after = final(index).deep_view();
            let there = valid(listed.deep_view());
            let gone = deleted.deep_view();
            let was = before.namespaces.by_ns[ns].policy.server_authorizations;
            let now = after.namespaces.by_ns[ns].policy.server_authorizations;
            let was_kept = before.namespaces.by_ns.contains_key(ns) && was.contains_key(key);
            let known = after.namespaces.by_ns.contains_key(ns);
            let some_listed = exists|i: int|
                0 <= i < there.len() && (#[trigger] there[i]).namespace == ns;
            &&& after.authentications == before.authentications
            &&& after.cluster == before.cluster
            &&& forall|i: int|
                {
                    &&& 0 <= i < there.len()
                    &&& #[trigger] listed_at(there, ns, key, i)
                    &&& forall|j: int|
                        i < j < there.len() ==> !#[trigger] listed_at(there, ns, key, j)
                } ==> known && now.contains_pair(key, there[i].value)
            &&& some_listed && (forall|i: int|
                0 <= i < there.len() ==> !#[trigger] listed_at(there, ns, key, i)) ==> {
                &&& known
                &&& now.contains_key(key) <==> was_kept && !(gone.contains_key(ns) && exists|i: int|
                    0 <= i < gone[ns].len() && #[trigger] gone[ns][i] == key)
                &&& now.contains_key(key) ==> now[key] == was[key]
            }
            &&& !some_listed && gone.contains_key(ns) ==> !(known && now.contains_key(key))
            &&& !some_listed && !gone.contains_key(ns) ==> {
                &&& known == before.namespaces.by_ns.contains_key(ns)
                &&& known ==> after.namespaces.by_ns[ns] == before.namespaces.by_ns[ns]
            }
        }),
{
    let before = old(index).deep_view();
    let after = final(index).deep_view();
    let there = valid(listed.deep_view());
    let gone = deleted.deep_view();
    assert(before.ns_reset::<ServerAuthz>(after, ns, updates_by_ns(there, gone)));
    listed_server_authorization_is_kept(before, after, ns, there, gone, key);
    if exists|i: int| 0 <= i < there.len() && #[trigger] listed_at(there, ns, key, i) {
        let i = choose|i: int| 0 <= i < there.len() && #[trigger] listed_at(there, ns, key, i);
        assert(there[i].namespace == ns);
    }
}

/// An `AuthorizationPolicy` that is applied is kept, as it was given, in its
/// namespace. Every other one there is as it was, and other namespaces are left
/// alone.
pub proof fn apply_keeps_the_policy(
    index: &mut Index,
    namespace: String,
    key: String,
    value: Spec,
    other: Text,
)
    requires
        call_ensures(Index::apply::<Spec>, (index, namespace, key, value), ()),
    ensures
        ({
            let before = old(index).deep_view();
            let after = final(index).deep_view();
            let now = after.namespaces.by_ns[namespace@].policy.authorization_policies;
            let was = before.namespaces.by_ns[namespace@].policy.authorization_policies;
            let known = before.namespaces.by_ns.contains_key(namespace@);
            &&& after.namespaces.by_ns.contains_key(namespace@)
            &&& now.contains_pair(key@, value.deep_view())
            &&& other != key@ ==> {
                &&& now.contains_key(other) == (known && was.contains_key(other))
                &&& now.contains_key(other) ==> now[other] == was[other]
            }
            &&& rest_is_left_alone(before, after, namespace@)
        }),
{
    let before = old(index).deep_view();
    let after = final(index).deep_view();
    applied_policy_is_kept(before, after, namespace@, key@, value.deep_view(), other);
    only_ns_leaves_the_rest(before, after, namespace@);
}

/// An `AuthorizationPolicy` that is deleted is not kept any more. Every other one
/// of its namespace is as it was, as long as the namespace is known, and other
/// namespaces are left alone.
pub proof fn delete_forgets_the_policy(
    index: &mut Index,
    namespace: String,
    key: String,
    other: Text,
)
    requires
        call_ensures(Index::delete::<Spec>, (index, namespace, key), ()),
    ensures
        ({
            let before = old(index).deep_view();
            let after = final(index).deep_view();
            let now = after.namespaces.by_ns[namespace@].policy.authorization_policies;
            let was = before.namespaces.by_ns[namespace@].policy.authorization_policies;
            let known = before.namespaces.by_ns.contains_key(namespace@);
            &&& after.namespaces.by_ns.contains_key(namespace@) ==> {
                &&& known
                &&& !now.contains_key(key@)
                &&& other != key@ ==> now.contains_key(other) == was.contains_key(other)
                &&& other != key@ && was.contains_key(other) ==> now[other] == was[other]
            }
            &&& known && was.contains_key(other) && other != key@
                ==> after.namespaces.by_ns.contains_key(namespace@)
            &&& rest_is_left_alone(before, after, namespace@)
        }),
{
    let before = old(index).deep_view();
    let after = final(index).deep_view();
    deleted_policy_is_gone(before, after, namespace@, key@, other);
    only_ns_leaves_the_rest(before, after, namespace@);
}

/// After a listing of `AuthorizationPolicy`s, a namespace in which valid ones are
/// listed keeps each as it was listed last, forgets the others that are deleted and
/// keeps the rest. One of which some are deleted and none is listed forgets all of
/// them, and any other is as it was.
pub proof fn reset_keeps_each_listed_policy(
    index: &mut Index,
    listed: Vec<Listed<String, Option<Spec>>>,
    deleted: NameTable<Vec<String>>,
    ns: Text,
    key: Text,
)
    requires
        call_ensures(Index::reset::<Spec>, (index, listed, deleted), ()),
    ensures
        ({
            let before = old(index).deep_view();
            let after = final(index).deep_view();
            let there = valid(listed.deep_view());
            let gone = deleted.deep_view();
            let was = before.namespaces.by_ns[ns].policy.authorization_policies;
            let now = after.namespaces.by_ns[ns].policy.authorization_policies;
            let was_kept = before.namespaces.by_ns.contains_key(ns) && was.contains_key(key);
            let known = after.namespaces.by_ns.contains_key(ns);
            let some_listed = exists|i: int|
                0 <= i < there.len() && (#[trigger] there[i]).namespace == ns;
            &&& after.authentications == before.authentications
            &&& after.cluster == before.cluster
            &&& forall|i: int|
                {
                    &&& 0 <= i < there.len()
                    &&& #[trigger] listed_at(there, ns, key, i)
                    &&& forall|j: int|
                        i < j < there.len() ==> !#[trigger] listed_at(there, ns, key, j)
                } ==> known && now.contains_pair(key, there[i].value)
            &&& some_listed && (forall|i: int|
                0 <= i < there.len() ==> !#[trigger] listed_at(there, ns, key, i)) ==> {
                &&& known
                &&& now.contains_key(key) <==> was_kept && !(gone.contains_key(ns) && exists|i: int|
                    0 <= i < gone[ns].len() && #[trigger] gone[ns][i] == key)
                &&& now.contains_key(key) ==> now[key] == was[key]
            }
            &&& !some_listed && gone.contains_key(ns) ==> !(known && now.contains_key(key))
            &&& !some_listed && !gone.contains_key(ns) ==> {
                &&& known == before.namespaces.by_ns.contains_key(ns)
                &&& known ==> after.namespaces.by_ns[ns] == before.namespaces.by_ns[ns]
            }
        }),
{
    let before = old(index).deep_view();
    let after = final(index).deep_view();
    let there = valid(listed.deep_view());
    let gone = deleted.deep_view();
    assert(before.ns_reset::<Spec>(after, ns, updates_by_ns(there, gone)));
    listed_policy_is_kept(before, after, ns, there, gone, key);
    if exists|i: int| 0 <= i < there.len() && #[trigger] listed_at(there, ns, key, i) {
        let i = choose|i: int| 0 <= i < there.len() && #[trigger] listed_at(there, ns, key, i);
        assert(there[i].namespace == ns);
    }
}

/// A route that is applied is kept, as it was given, in its namespace. Every other
/// one there is as it was, and other namespaces are left alone.
pub proof fn apply_keeps_the_route(
    index: &mut Index,
    namespace: String,
    key: GroupKindName,
    value: RouteBinding,
    other: GroupKindNameModel,
)
    requires
        call_ensures(Index::apply::<RouteBinding>, (index, namespace, key, value), ()),
    ensures
        ({
            let before = old(index).deep_view();
            let after = final(index).deep_view();
            let now = after.namespaces.by_ns[namespace@].policy.http_routes;
            let was = before.namespaces.by_ns[namespace@].policy.http_routes;
            let known = before.namespaces.by_ns.contains_key(namespace@);
            &&& after.namespaces.by_ns.contains_key(namespace@)
            &&& now.contains_pair(key.deep_view(), value.deep_view())
            &&& other != key.deep_view() ==> {
                &&& now.contains_key(other) == (known && was.contains_key(other))
                &&& now.contains_key(other) ==> now[other] == was[other]
            }
            &&& rest_is_left_alone(before, after, namespace@)
        }),
{
    let before = old(index).deep_view();
    let after = final(index).deep_view();
    applied_route_is_kept(before, after, namespace@, key.deep_view(), value.deep_view(), other);
    only_ns_leaves_the_rest(before, after, namespace@);
}

/// A route that is deleted is not kept any more. Every other one of its namespace
/// is as it was, as long as the namespace is known, and other namespaces are left
/// alone.
pub proof fn delete_forgets_the_route(
    index: &mut Index,
    namespace: String,
    key: GroupKindName,
    other: GroupKindNameModel,
)
    requires
        call_ensures(Index::delete::<RouteBinding>, (index, namespace, key), ()),
    ensures
        ({
            let before = old(index).deep_view();
            let after = final(index).deep_view();
            let now = after.namespaces.by_ns[namespace@].policy.http_routes;
            let was = before.namespaces.by_ns[namespace@].policy.http_routes;
            let known = before.namespaces.by_ns.contains_key(namespace@);
            &&& after.namespaces.by_ns.contains_key(namespace@) ==> {
                &&& known
                &&& !now.contains_key(key.deep_view())
                &&& other != key.deep_view() ==> now.contains_key(other) == was.contains_key(other)
                &&& other != key.deep_view() && was.contains_key(other) ==> now[other] == was[other]
            }
            &&& known && was.contains_key(other) && other != key.deep_view()
                ==> after.namespaces.by_ns.contains_key(namespace@)
            &&& rest_is_left_alone(before, after, namespace@)
        }),
{
    let before = old(index).deep_view();
    let after = final(index).deep_view();
    deleted_route_is_gone(before, after, namespace@, key.deep_view(), other);
    only_ns_leaves_the_rest(before, after, namespace@);
}

/// After a listing of routes, a namespace in which valid ones are listed keeps each
/// as it was listed last, forgets the others that are deleted and keeps the rest.
/// One of which some are deleted and none is listed forgets all of them, and any
/// other is as it was.
pub proof fn reset_keeps_each_listed_route(
    index: &mut Index,
    listed: Vec<Listed<GroupKindName, Option<RouteBinding>>>,
    deleted: NameTable<Vec<GroupKindName>>,
    ns: Text,
    key: GroupKindNameModel,
)
    requires
        call_ensures(Index::reset::<RouteBinding>, (index, listed, deleted), ()),
    ensures
        ({
            let before = old(index).deep_view();
            let after = final(index).deep_view();
            let there = valid(listed.deep_view());
            let gone = deleted.deep_view();
            let was = before.namespaces.by_ns[ns].policy.http_routes;
            let now = after.namespaces.by_ns[ns].policy.http_routes;
            let was_kept = before.namespaces.by_ns.contains_key(ns) && was.contains_key(key);
            let known = after.namespaces.by_ns.contains_key(ns);
            let some_listed = exists|i: int|
                0 <= i < there.len() && (#[trigger] there[i]).namespace == ns;
            &&& after.authentications == before.authentications
            &&& after.cluster == before.cluster
            &&& forall|i: int|
                {
                    &&& 0 <= i < there.len()
                    &&& #[trigger] listed_at(there, ns, key, i)
                    &&& forall|j: int|
                        i < j < there.len() ==> !#[trigger] listed_at(there, ns, key, j)
                } ==> known && now.contains_pair(key, there[i].value)
            &&& some_listed && (forall|i: int|
                0 <= i < there.len() ==> !#[trigger] listed_at(there, ns, key, i)) ==> {
                &&& known
                &&& now.contains_key(key) <==> was_kept && !(gone.contains_key(ns) && exists|i: int|
                    0 <= i < gone[ns].len() && #[trigger] gone[ns][i] == key)
                &&& now.contains_key(key) ==> now[key] == was[key]
            }
            &&& !some_listed && gone.contains_key(ns) ==> !(known && now.contains_key(key))
            &&& !some_listed && !gone.contains_key(ns) ==> {
                &&& known == before.namespaces.by_ns.contains_key(ns)
                &&& known ==> after.namespaces.by_ns[ns] == before.namespaces.by_ns[ns]
            }
        }),
{
    let before = old(index).deep_view();
    let after = final(index).deep_view();
    let there = valid(listed.deep_view());
    let gone = deleted.deep_view();
    assert(before.ns_reset::<RouteBinding>(after, ns, updates_by_ns(there, gone)));
    listed_route_is_kept(before, after, ns, there, gone, key);
    if exists|i: int| 0 <= i < there.len() && #[trigger] listed_at(there, ns, key, i) {
        let i = choose|i: int| 0 <= i < there.len() && #[trigger] listed_at(there, ns, key, i);
        assert(there[i].namespace == ns);
    }
}

/// A route that is applied is kept, as it was given, and one that is deleted is not.
pub proof fn routes_come_and_go(
    index: &mut Index,
    namespace: String,
    gkn: GroupKindName,
    route: RouteBinding,
)
    ensures
        call_ensures(Index::apply_route, (index, namespace, gkn, route), ()) ==> {
            let after = final(index).deep_view();
            &&& after.namespaces.by_ns.contains_key(namespace@)
            &&& after.namespaces.by_ns[namespace@].policy.http_routes.contains_pair(
                gkn.deep_view(),
                route.deep_view(),
            )
            &&& rest_is_left_alone(old(index).deep_view(), after, namespace@)
        },
        call_ensures(Index::delete_route, (index, namespace, gkn), ()) ==> {
            let after = final(index).deep_view();
            &&& after.namespaces.by_ns.contains_key(namespace@)
                ==> !after.namespaces.by_ns[namespace@].policy.http_routes.contains_key(
                gkn.deep_view(),
            )
            &&& rest_is_left_alone(old(index).deep_view(), after, namespace@)
        },
{
    let before = old(index).deep_view();
    let after = final(index).deep_view();
    let key = gkn.deep_view();
    if call_ensures(Index::apply_route, (index, namespace, gkn, route), ()) {
        applied_route_is_kept(before, after, namespace@, key, route.deep_view(), key);
        only_ns_leaves_the_rest(before, after, namespace@);
    }
    if call_ensures(Index::delete_route, (index, namespace, gkn), ()) {
        deleted_route_is_gone(before, after, namespace@, key, key);
        only_ns_leaves_the_rest(before, after, namespace@);
    }
}

/// After a listing of the routes of an API group and kind, each valid one is kept as
/// it was listed last; where some are listed, one that is not is forgotten exactly
/// if it is of that group and kind and its name is among the deleted ones.
pub proof fn reset_route_goes_by_group_and_kind(
    index: &mut Index,
    routes: Vec<Listed<GroupKindName, Option<RouteBinding>>>,
    group: &String,
    kind: &String,
    deleted: NameTable<Vec<String>>,
    ns: Text,
    gkn: GroupKindNameModel,
)
    requires
        call_ensures(Index::reset_route, (index, routes, group, kind, deleted), ()),
    ensures
        ({
            let before = old(index).deep_view();
            let after = final(index).deep_view();
            let there = valid(routes.deep_view());
            let gone = deleted.deep_view();
            let was = before.namespaces.by_ns[ns].policy.http_routes;
            let now = after.namespaces.by_ns[ns].policy.http_routes;
            let some_listed = exists|i: int|
                0 <= i < there.len() && (#[trigger] there[i]).namespace == ns;
            &&& forall|i: int|
                {
                    &&& 0 <= i < there.len()
                    &&& #[trigger] listed_at(there, ns, gkn, i)
                    &&& forall|j: int|
                        i < j < there.len() ==> !#[trigger] listed_at(there, ns, gkn, j)
                } ==> after.namespaces.by_ns.contains_key(ns) && now.contains_pair(
                    gkn,
                    there[i].value,
                )
            &&& some_listed && (forall|i: int|
                0 <= i < there.len() ==> !#[trigger] listed_at(there, ns, gkn, i)) ==> {
                now.contains_key(gkn) <==> before.namespaces.by_ns.contains_key(ns)
                    && was.contains_key(gkn) && !(gkn.group == group@ && gkn.kind == kind@
                    && gone.contains_key(ns) && exists|i: int|
                    0 <= i < gone[ns].len() && #[trigger] gone[ns][i] == gkn.name)
            }
        }),
{
    let before = old(index).deep_view();
    let after = final(index).deep_view();
    let there = valid(routes.deep_view());
    let names = deleted.deep_view();
    let gone = crate::index::routes_named(group@, kind@, names);
    assert(before.ns_reset::<RouteBinding>(after, ns, updates_by_ns(there, gone)));
    listed_route_is_kept(before, after, ns, there, gone, gkn);
    routes_go_by_group_and_kind(group@, kind@, names, ns);
    if exists|i: int| 0 <= i < there.len() && #[trigger] listed_at(there, ns, gkn, i) {
        let i = choose|i: int| 0 <= i < there.len() && #[trigger] listed_at(there, ns, gkn, i);
        assert(there[i].namespace == ns);
    }
    if names.contains_key(ns) {
        if exists|i: int| 0 <= i < gone[ns].len() && #[trigger] gone[ns][i] == gkn {
            let i = choose|i: int| 0 <= i < gone[ns].len() && #[trigger] gone[ns][i] == gkn;
            assert(names[ns][i] == gkn.name);
        }
        if gkn.group == group@ && gkn.kind == kind@ && exists|i: int|
            0 <= i < names[ns].len() && #[trigger] names[ns][i] == gkn.name {
            let i = choose|i: int| 0 <= i < names[ns].len() && #[trigger] names[ns][i] == gkn.name;
            assert(gone[ns][i] == gkn);
        }
    }
}

/// A pod that is applied is refused exactly if it is known by other port names, and
/// then nothing of it changes. Else it has the labels and settings that the metadata
/// given stands for, and the port names given. Other pods are as they were.
pub proof fn apply_pod_takes_over_its_metadata(
    index: &mut Index,
    namespace: String,
    name: String,
    metadata: ObjectMeta,
    port_names: NameTable<PortSet>,
    probes: PortTable<Vec<String>>,
    r: Result<(), PortNamesChanged>,
    other: Text,
    port: u16,
)
    requires
        call_ensures(
            Index::apply_pod,
            (index, namespace, name, metadata, port_names, probes),
            r,
        ),
    ensures
        ({
            let before = old(index).deep_view();
            let after = final(index).deep_view();
            let b = before.namespaces.by_ns[namespace@];
            let a = after.namespaces.by_ns[namespace@];
            let ns_known = before.namespaces.by_ns.contains_key(namespace@);
            let known = ns_known && b.pods.contains_key(name@);
            &&& r is Err <==> known && b.pods[name@].port_names != port_names.deep_view()
            &&& r matches Err(e) ==> e.pod@ == name@ && a == b
            &&& r is Ok ==> {
                &&& after.namespaces.by_ns.contains_key(namespace@)
                &&& a.pods.contains_key(name@)
                &&& a.pods[name@].meta == MetaModel::from_metadata(metadata.deep_view())
                &&& a.pods[name@].port_names == port_names.deep_view()
                &&& a.pods[name@].probes == if known {
                    b.pods[name@].probes
                } else {
                    probes.deep_view()
                }
            }
            &&& ns_known ==> a.external == b.external && a.policy == b.policy
            &&& ns_known && other != name@ ==> a.pods.contains_key(other) == b.pods.contains_key(
                other,
            )
            &&& ns_known && other != name@ && b.pods.contains_key(other) ==> a.pods[other]
                == b.pods[other]
            &&& known && b.pods[name@].port_servers.contains_key(port) ==> {
                &&& a.pods[name@].port_servers.contains_key(port)
                &&& a.pods[name@].port_servers[port].channel.id
                    == b.pods[name@].port_servers[port].channel.id
            }
            &&& rest_is_left_alone(before, after, namespace@)
        }),
{
    let before = old(index).deep_view();
    let after = final(index).deep_view();
    applied_pod_is_known_as_given(
        before,
        after,
        namespace@,
        name@,
        metadata.deep_view(),
        port_names.deep_view(),
        probes.deep_view(),
        port,
    );
    if before.namespaces.by_ns.contains_key(namespace@) {
        applied_pod_leaves_the_rest(
            before,
            after,
            namespace@,
            name@,
            metadata.deep_view(),
            port_names.deep_view(),
            probes.deep_view(),
            other,
        );
    }
    only_ns_leaves_the_rest(before, after, namespace@);
}

/// An external group that is applied is refused exactly if it is known with other
/// ports, and then nothing of it changes. Else it has the labels and settings that
/// the metadata given stands for, and the ports given. Other groups are as they were.
pub proof fn apply_external_group_takes_over_its_metadata(
    index: &mut Index,
    namespace: String,
    name: String,
    metadata: ObjectMeta,
    ports: Vec<u16>,
    r: Result<(), PortsChanged>,
    other: Text,
    port: u16,
)
    requires
        call_ensures(Index::apply_external_group, (index, namespace, name, metadata, ports), r),
    ensures
        ({
            let before = old(index).deep_view();
            let after = final(index).deep_view();
            let b = before.namespaces.by_ns[namespace@];
            let a = after.namespaces.by_ns[namespace@];
            let ns_known = before.namespaces.by_ns.contains_key(namespace@);
            let known = ns_known && b.external.contains_key(name@);
            &&& r is Err <==> known && b.external[name@].ports != ports@
            &&& r matches Err(e) ==> e.group@ == name@ && a == b
            &&& r is Ok ==> {
                &&& after.namespaces.by_ns.contains_key(namespace@)
                &&& a.external.contains_key(name@)
                &&& a.external[name@].meta == MetaModel::from_metadata(metadata.deep_view())
                &&& a.external[name@].ports == ports@
            }
            &&& ns_known ==> a.pods == b.pods && a.policy == b.policy
            &&& ns_known && other != name@ ==> a.external.contains_key(other)
                == b.external.contains_key(other)
            &&& ns_known && other != name@ && b.external.contains_key(other) ==> a.external[other]
                == b.external[other]
            &&& known && b.external[name@].port_servers.contains_key(port) ==> {
                &&& a.external[name@].port_servers.contains_key(port)
                &&& a.external[name@].port_servers[port].channel.id
                    == b.external[name@].port_servers[port].channel.id
            }
            &&& rest_is_left_alone(before, after, namespace@)
        }),
{
    let before = old(index).deep_view();
    let after = final(index).deep_view();
    applied_group_is_known_as_given(
        before,
        after,
        namespace@,
        name@,
        metadata.deep_view(),
        ports@,
        port,
    );
    if before.namespaces.by_ns.contains_key(namespace@) {
        applied_group_leaves_the_rest(
            before,
            after,
            namespace@,
            name@,
            metadata.deep_view(),
            ports@,
            other,
        );
    }
    only_ns_leaves_the_rest(before, after, namespace@);
}

/// A pod that is deleted is gone, and what is handed back is a closed end of each of
/// its known ports, with what was published there last; nothing is if the pod was
/// not known. Other pods are as they were.
pub proof fn delete_pod_closes_its_ports(
    index: &mut Index,
    namespace: String,
    name: String,
    closed: Option<PortTable<PortEnd>>,
    other: Text,
    port: u16,
)
    requires
        call_ensures(Index::delete_pod, (index, namespace, name), closed),
    ensures
        ({
            let before = old(index).deep_view();
            let after = final(index).deep_view();
            let b = before.namespaces.by_ns[namespace@];
            let a = after.namespaces.by_ns[namespace@];
            let ns_known = before.namespaces.by_ns.contains_key(namespace@);
            let known = ns_known && b.pods.contains_key(name@);
            let ports = b.pods[name@].port_servers;
            &&& !(after.namespaces.by_ns.contains_key(namespace@) && a.pods.contains_key(name@))
            &&& closed is Some <==> known
            &&& known ==> closed->0.deep_view().contains_key(port) == ports.contains_key(port)
            &&& known && ports.contains_key(port) ==> {
                let end = closed->0.deep_view()[port];
                &&& !end.open
                &&& end.channel == ports[port].channel
            }
            &&& ns_known && other != name@ && b.pods.contains_key(other) ==> {
                &&& after.namespaces.by_ns.contains_key(namespace@)
                &&& a.pods.contains_key(other)
                &&& a.pods[other] == b.pods[other]
            }
            &&& after.namespaces.by_ns.contains_key(namespace@) ==> ns_known && a.external
                == b.external && a.policy == b.policy
            &&& rest_is_left_alone(before, after, namespace@)
        }),
{
    let before = old(index).deep_view();
    let after = final(index).deep_view();
    deleted_pod_takes_nothing_along(before, after, namespace@, name@, namespace@, other);
    only_ns_leaves_the_rest(before, after, namespace@);
    let b = before.namespaces.by_ns[namespace@];
    if before.namespaces.by_ns.contains_key(namespace@) && other != name@ && b.pods.contains_key(
        other,
    ) {
        assert(b.pods.remove(name@).contains_key(other));
    }
}

/// An external group that is deleted is gone, and what is handed back is a closed end
/// of each of its known ports, with what was published there last; nothing is if the
/// group was not known. Other groups are as they were.
pub proof fn delete_external_group_closes_its_ports(
    index: &mut Index,
    namespace: String,
    name: String,
    closed: Option<PortTable<PortEnd>>,
    other: Text,
    port: u16,
)
    requires
        call_ensures(Index::delete_external_group, (index, namespace, name), closed),
    ensures
        ({
            let before = old(index).deep_view();
            let after = final(index).deep_view();
            let b = before.namespaces.by_ns[namespace@];
            let a = after.namespaces.by_ns[namespace@];
            let ns_known = before.namespaces.by_ns.contains_key(namespace@);
            let known = ns_known && b.external.contains_key(name@);
            let ports = b.external[name@].port_servers;
            &&& !(after.namespaces.by_ns.contains_key(namespace@) && a.external.contains_key(
                name@,
            ))
            &&& closed is Some <==> known
            &&& known ==> closed->0.deep_view().contains_key(port) == ports.contains_key(port)
            &&& known && ports.contains_key(port) ==> {
                let end = closed->0.deep_view()[port];
                &&& !end.open
                &&& end.channel == ports[port].channel
            }
            &&& ns_known && other != name@ && b.external.contains_key(other) ==> {
                &&& after.namespaces.by_ns.contains_key(namespace@)
                &&& a.external.contains_key(other)
                &&& a.external[other] == b.external[other]
            }
            &&& after.namespaces.by_ns.contains_key(namespace@) ==> ns_known && a.pods == b.pods
                && a.policy == b.policy
            &&& rest_is_left_alone(before, after, namespace@)
        }),
{
    let before = old(index).deep_view();
    let after = final(index).deep_view();
    deleted_group_takes_nothing_along(before, after, namespace@, name@, namespace@, other);
    only_ns_leaves_the_rest(before, after, namespace@);
    let b = before.namespaces.by_ns[namespace@];
    if before.namespaces.by_ns.contains_key(namespace@) && other != name@
        && b.external.contains_key(other) {
        assert(b.external.remove(name@).contains_key(other));
    }
}

/// A `MeshTLSAuthentication` that is applied is kept with its identities. Every other
/// authentication, of whatever kind and namespace, is as it was. From a kept index in
/// which that changes anything, a consistent one comes.
pub proof fn apply_keeps_the_meshtls_authentication(
    index: &mut Index,
    namespace: String,
    name: String,
    ids: Vec<IdentityMatch>,
    other_ns: Text,
    other: Text,
)
    requires
        call_ensures(Index::apply_meshtls_authentication, (index, namespace, name, ids), ()),
    ensures
        ({
            let before = old(index).deep_view().authentications;
            let after = final(index).deep_view().authentications;
            let other_meshtls = other_ns != namespace@ || other != name@;
            &&& after.contains_key(namespace@)
            &&& after[namespace@].meshtls.contains_pair(name@, ids.deep_view())
            &&& other_meshtls ==> (after.contains_key(other_ns)
                && after[other_ns].meshtls.contains_key(other)) == (before.contains_key(other_ns)
                && before[other_ns].meshtls.contains_key(other))
            &&& other_meshtls && before.contains_key(other_ns)
                && before[other_ns].meshtls.contains_key(other)
                ==> after[other_ns].meshtls[other] == before[other_ns].meshtls[other]
            &&& (after.contains_key(other_ns) && after[other_ns].network.contains_key(other)) == (
            before.contains_key(other_ns) && before[other_ns].network.contains_key(other))
            &&& before.contains_key(other_ns) && before[other_ns].network.contains_key(other)
                ==> after[other_ns].network[other] == before[other_ns].network[other]
            &&& old(index).deep_view().kept() && after != before
                ==> final(index).deep_view().consistent()
        }),
{
    applied_meshtls_is_kept(
        old(index).deep_view().authentications,
        namespace@,
        name@,
        ids.deep_view(),
        other_ns,
        other,
    );
}

/// A `NetworkAuthentication` that is applied is kept with its networks. Every other
/// authentication, of whatever kind and namespace, is as it was. From a kept index in
/// which that changes anything, a consistent one comes.
pub proof fn apply_keeps_the_network_authentication(
    index: &mut Index,
    namespace: String,
    name: String,
    nets: Vec<NetworkMatch>,
    other_ns: Text,
    other: Text,
)
    requires
        call_ensures(Index::apply_network_authentication, (index, namespace, name, nets), ()),
    ensures
        ({
            let before = old(index).deep_view().authentications;
            let after = final(index).deep_view().authentications;
            let other_network = other_ns != namespace@ || other != name@;
            &&& after.contains_key(namespace@)
            &&& after[namespace@].network.contains_pair(name@, nets.deep_view())
            &&& other_network ==> (after.contains_key(other_ns)
                && after[other_ns].network.contains_key(other)) == (before.contains_key(other_ns)
                && before[other_ns].network.contains_key(other))
            &&& other_network && before.contains_key(other_ns)
                && before[other_ns].network.contains_key(other)
                ==> after[other_ns].network[other] == before[other_ns].network[other]
            &&& (after.contains_key(other_ns) && after[other_ns].meshtls.contains_key(other)) == (
            before.contains_key(other_ns) && before[other_ns].meshtls.contains_key(other))
            &&& before.contains_key(other_ns) && before[other_ns].meshtls.contains_key(other)
                ==> after[other_ns].meshtls[other] == before[other_ns].meshtls[other]
            &&& old(index).deep_view().kept() && after != before
                ==> final(index).deep_view().consistent()
        }),
{
    applied_network_is_kept(
        old(index).deep_view().authentications,
        namespace@,
        name@,
        nets.deep_view(),
        other_ns,
        other,
    );
}

/// After the deletion of an authentication of either kind, the
/// `NetworkAuthentication` of that name is not kept. Every other one is as it was,
/// and so are all `MeshTLSAuthentication`s.
pub proof fn delete_forgets_the_network_authentication(
    index: &mut Index,
    namespace: String,
    name: String,
    other_ns: Text,
    other: Text,
)
    requires
        call_ensures(Index::delete_network_authentication, (index, namespace, name), ())
            || call_ensures(Index::delete_meshtls_authentication, (index, namespace, name), ()),
    ensures
        ({
            let before = old(index).deep_view().authentications;
            let after = final(index).deep_view().authentications;
            let other_network = other_ns != namespace@ || other != name@;
            &&& !(after.contains_key(namespace@) && after[namespace@].network.contains_key(name@))
            &&& other_network ==> (after.contains_key(other_ns)
                && after[other_ns].network.contains_key(other)) == (before.contains_key(other_ns)
                && before[other_ns].network.contains_key(other))
            &&& other_network && before.contains_key(other_ns)
                && before[other_ns].network.contains_key(other)
                ==> after[other_ns].network[other] == before[other_ns].network[other]
            &&& (after.contains_key(other_ns) && after[other_ns].meshtls.contains_key(other)) == (
            before.contains_key(other_ns) && before[other_ns].meshtls.contains_key(other))
            &&& before.contains_key(other_ns) && before[other_ns].meshtls.contains_key(other)
                ==> after[other_ns].meshtls[other] == before[other_ns].meshtls[other]
            &&& old(index).deep_view().kept() && before.contains_key(namespace@)
                ==> final(index).deep_view().consistent()
        }),
{
    deleted_network_is_gone(
        old(index).deep_view().authentications,
        namespace@,
        name@,
        other_ns,
        other,
    );
}

/// After a listing of `MeshTLSAuthentication`s, one whose name is deleted is not kept.
/// Of the others, one that is listed is kept as it was listed last, and one that is
/// not as it was. All `NetworkAuthentication`s are as they were.
pub proof fn reset_keeps_each_listed_meshtls_authentication(
    index: &mut Index,
    listed: Vec<Listed<String, Option<Vec<IdentityMatch>>>>,
    deleted: NameTable<Vec<String>>,
    ns: Text,
    name: Text,
)
    requires
        call_ensures(Index::reset_meshtls_authentications, (index, listed, deleted), ()),
    ensures
        ({
            let before = old(index).deep_view().authentications;
            let after = final(index).deep_view().authentications;
            let there = valid(listed.deep_view());
            let gone = deleted.deep_view();
            let is_gone = gone.contains_key(ns) && exists|i: int|
                0 <= i < gone[ns].len() && #[trigger] gone[ns][i] == name;
            let was_kept = before.contains_key(ns) && before[ns].meshtls.contains_key(name);
            let is_kept = after.contains_key(ns) && after[ns].meshtls.contains_key(name);
            &&& is_gone ==> !is_kept
            &&& !is_gone ==> forall|i: int|
                {
                    &&& 0 <= i < there.len()
                    &&& #[trigger] listed_at(there, ns, name, i)
                    &&& forall|j: int|
                        i < j < there.len() ==> !#[trigger] listed_at(there, ns, name, j)
                } ==> is_kept && after[ns].meshtls[name] == there[i].value
            &&& !is_gone && (forall|i: int|
                0 <= i < there.len() ==> !#[trigger] listed_at(there, ns, name, i)) ==> {
                &&& is_kept == was_kept
                &&& is_kept ==> after[ns].meshtls[name] == before[ns].meshtls[name]
            }
            &&& (after.contains_key(ns) && after[ns].network.contains_key(name)) == (
            before.contains_key(ns) && before[ns].network.contains_key(name))
            &&& before.contains_key(ns) && before[ns].network.contains_key(name)
                ==> after[ns].network[name] == before[ns].network[name]
        }),
{
    let before = old(index).deep_view().authentications;
    let there = valid(listed.deep_view());
    let updated = crate::authentications::with_all_meshtls(before, there);
    listed_meshtls_are_kept(before, there, ns, name);
    deleted_meshtls_are_gone(updated, deleted.deep_view(), ns, name);
}

/// After a listing of `NetworkAuthentication`s, those before the first that is not
/// valid are kept as they were listed last, and one that is not listed there as it
/// was. `MeshTLSAuthentication`s are as they were, but for those whose name is
/// deleted by a listing that is valid throughout: they are not kept.
pub proof fn reset_keeps_each_listed_network_authentication(
    index: &mut Index,
    listed: Vec<Listed<String, Option<Vec<NetworkMatch>>>>,
    deleted: NameTable<Vec<String>>,
    ns: Text,
    name: Text,
    n: int,
)
    requires
        call_ensures(Index::reset_network_authentications, (index, listed, deleted), ()),
        0 <= n <= listed.deep_view().len(),
        forall|i: int| 0 <= i < n ==> (#[trigger] listed.deep_view()[i]).value is Some,
        n < listed.deep_view().len() ==> listed.deep_view()[n].value is None,
    ensures
        ({
            let before = old(index).deep_view().authentications;
            let after = final(index).deep_view().authentications;
            let there = valid(listed.deep_view().take(n));
            let gone = deleted.deep_view();
            let is_gone = n == listed.deep_view().len() && gone.contains_key(ns) && exists|i: int|
                0 <= i < gone[ns].len() && #[trigger] gone[ns][i] == name;
            let was_kept = before.contains_key(ns) && before[ns].network.contains_key(name);
            let is_kept = after.contains_key(ns) && after[ns].network.contains_key(name);
            &&& forall|i: int|
                {
                    &&& 0 <= i < there.len()
                    &&& #[trigger] listed_at(there, ns, name, i)
                    &&& forall|j: int|
                        i < j < there.len() ==> !#[trigger] listed_at(there, ns, name, j)
                } ==> is_kept && after[ns].network[name] == there[i].value
            &&& (forall|i: int|
                0 <= i < there.len() ==> !#[trigger] listed_at(there, ns, name, i)) ==> {
                &&& is_kept == was_kept
                &&& is_kept ==> after[ns].network[name] == before[ns].network[name]
            }
            &&& (after.contains_key(ns) && after[ns].meshtls.contains_key(name)) == (
            before.contains_key(ns) && before[ns].meshtls.contains_key(name) && !is_gone)
            &&& after.contains_key(ns) && after[ns].meshtls.contains_key(name)
                ==> after[ns].meshtls[name] == before[ns].meshtls[name]
        }),
{
    let before = old(index).deep_view().authentications;
    let all = listed.deep_view();
    valid_start_ends_at_the_first_fault(all);
    if n < valid_start(all) {
        assert(all[n].value is Some);
    }
    if valid_start(all) < n {
        assert(all[valid_start(all) as int].value is Some);
    }
    let there = valid(all.take(n));
    let updated = crate::authentications::with_all_network(before, there);
    listed_networks_are_kept(before, there, ns, name);
    deleted_meshtls_are_gone(updated, deleted.deep_view(), ns, name);
}

/// A port of a pod is found exactly if the pod is known. What is handed out follows
/// the channel of that port, is open and, where the index is consistent, shows what
/// is asked for the port. A port that was known stays on its channel as it was, and
/// so does every other port; of the rest nothing changes.
pub proof fn pod_server_rx_follows_the_port(
    index: &mut Index,
    namespace: &str,
    pod: &str,
    port: u16,
    r: Result<watch::Receiver<InboundServer>, NotFound>,
    other: Text,
    other_port: u16,
)
    requires
        call_ensures(Index::pod_server_rx, (index, namespace, pod, port), r),
    ensures
        ({
            let before = old(index).deep_view();
            let after = final(index).deep_view();
            let b = before.namespaces.by_ns[namespace@];
            let a = after.namespaces.by_ns[namespace@];
            let ns_known = before.namespaces.by_ns.contains_key(namespace@);
            let known = ns_known && b.pods.contains_key(pod@);
            &&& r is Ok <==> known
            &&& !known ==> after == before
            &&& r matches Err(NotFound::Namespace { namespace: missing }) ==> !ns_known && missing@
                == namespace@
            &&& r matches Err(NotFound::Pod { namespace: missing_in, pod: missing }) ==> {
                &&& ns_known
                &&& missing_in@ == namespace@
                &&& missing@ == pod@
            }
            &&& !(r matches Err(NotFound::Workload { .. }))
            &&& r matches Ok(rx) ==> {
                &&& is_open(rx)
                &&& a.pods[pod@].port_servers.contains_key(port)
                &&& subscription(rx) == a.pods[pod@].port_servers[port].channel
                &&& before.consistent() ==> subscription(rx).value == b.pods[pod@].asked(
                    b.policy,
                    before.authentications,
                    port,
                )
                &&& b.pods[pod@].port_servers.contains_key(other_port)
                    ==> a.pods[pod@].port_servers.contains_key(other_port)
                    && a.pods[pod@].port_servers[other_port]
                    == b.pods[pod@].port_servers[other_port]
                &&& a.pods[pod@].meta == b.pods[pod@].meta
                &&& a.pods[pod@].port_names == b.pods[pod@].port_names
                &&& a.pods[pod@].probes == b.pods[pod@].probes
                &&& a.external == b.external
                &&& a.policy == b.policy
                &&& other != pod@ ==> a.pods.contains_key(other) == b.pods.contains_key(other)
                &&& other != pod@ && b.pods.contains_key(other) ==> a.pods[other] == b.pods[other]
            }
            &&& rest_is_left_alone(before, after, namespace@)
        }),
{
    let before = old(index).deep_view();
    if before.consistent() && before.find_pod(namespace@, pod@) is Ok {
        pod_publishes_what_is_asked(before, namespace@, pod@, port);
    }
}

/// A port of an external group is found exactly if the group is known. What is handed
/// out follows the channel of that port, is open and, where the index is consistent,
/// shows what is asked for the port. A port that was known stays on its channel as it
/// was, and so does every other port; of the rest nothing changes.
pub proof fn external_server_rx_follows_the_port(
    index: &mut Index,
    namespace: &str,
    name: &str,
    port: u16,
    r: Result<watch::Receiver<InboundServer>, NotFound>,
    other: Text,
    other_port: u16,
)
    requires
        call_ensures(Index::external_server_rx, (index, namespace, name, port), r),
    ensures
        ({
            let before = old(index).deep_view();
            let after = final(index).deep_view();
            let b = before.namespaces.by_ns[namespace@];
            let a = after.namespaces.by_ns[namespace@];
            let ns_known = before.namespaces.by_ns.contains_key(namespace@);
            let known = ns_known && b.external.contains_key(name@);
            &&& r is Ok <==> known
            &&& !known ==> after == before
            &&& r matches Err(NotFound::Namespace { namespace: missing }) ==> !ns_known && missing@
                == namespace@
            &&& r matches Err(NotFound::Workload { namespace: missing_in, name: missing }) ==> {
                &&& ns_known
                &&& missing_in@ == namespace@
                &&& missing@ == name@
            }
            &&& !(r matches Err(NotFound::Pod { .. }))
            &&& r matches Ok(rx) ==> {
                &&& is_open(rx)
                &&& a.external[name@].port_servers.contains_key(port)
                &&& subscription(rx) == a.external[name@].port_servers[port].channel
                &&& before.consistent() ==> subscription(rx).value == b.external[name@].asked(
                    b.policy,
                    before.authentications,
                    name@,
                    port,
                )
                &&& b.external[name@].port_servers.contains_key(other_port)
                    ==> a.external[name@].port_servers.contains_key(other_port)
                    && a.external[name@].port_servers[other_port]
                    == b.external[name@].port_servers[other_port]
                &&& a.external[name@].meta == b.external[name@].meta
                &&& a.external[name@].ports == b.external[name@].ports
                &&& a.pods == b.pods
                &&& a.policy == b.policy
                &&& other != name@ ==> a.external.contains_key(other) == b.external.contains_key(
                    other,
                )
                &&& other != name@ && b.external.contains_key(other) ==> a.external[other]
                    == b.external[other]
            }
            &&& rest_is_left_alone(before, after, namespace@)
        }),
{
    let before = old(index).deep_view();
    if before.consistent() && before.find_group(namespace@, name@) is Ok {
        group_publishes_what_is_asked(before, namespace@, name@, port);
    }
}

/// A consistent index stays so, whatever policy resource comes or goes.
pub proof fn policy_resources_leave_an_index_consistent<T: crate::policy::PolicyResource>(
    index: &mut Index,
    namespace: String,
    key: T::Key,
    value: T,
    listed: Vec<Listed<T::Key, Option<T>>>,
    deleted: NameTable<Vec<T::Key>>,
)
    requires
        old(index).deep_view().consistent(),
        call_ensures(Index::apply::<T>, (index, namespace, key, value), ()) || call_ensures(
            Index::delete::<T>,
            (index, namespace, key),
            (),
        ) || call_ensures(Index::reset::<T>, (index, listed, deleted), ()),
    ensures
        final(index).deep_view().consistent(),
{
}

} // verus!
