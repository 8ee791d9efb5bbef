//! What applying, deleting and listing policy resources makes of an index.
use crate::authorization_policy::{Spec, SpecModel};
use crate::external::ExternalGroupModel;
use crate::index::IndexModel;
use crate::laws::listings::{
    change_is_reported, last_listed_counts, listed_at, namespace_is_listed_by_its_resources,
};
use crate::listing::{listed_in, updates_by_ns, with_all, ChangeModel, ListedModel};
use crate::namespace::NamespaceModel;
use crate::pod::PodModel;
use crate::policy::{PolicyChangeModel, PolicyResource};
use crate::route::{GroupKindNameModel, RouteBinding, RouteBindingModel};
use crate::server::{Server, ServerModel};
use crate::server_authorization::{ServerAuthz, ServerAuthzModel};
use crate::value::Text;
use vstd::prelude::*;

verus! {

/// Where a namespace follows a change of its policy resources, they are as the
/// change leaves them, however they are met from then on.
proof fn followed_is_changed(
    before: NamespaceModel,
    after: NamespaceModel,
    change: PolicyChangeModel,
    authns: crate::authentications::AuthenticationsModel,
)
    requires
        before.followed(after, change, authns),
    ensures
        after.policy == before.policy.changed(change, after.policy.walk),
        after.pods.dom() == before.pods.dom(),
        after.external.dom() == before.external.dom(),
        forall|name: Text| #[trigger]
            before.pods.contains_key(name) ==> {
                &&& after.pods[name].meta == before.pods[name].meta
                &&& after.pods[name].port_names == before.pods[name].port_names
                &&& after.pods[name].probes == before.pods[name].probes
            },
        forall|name: Text| #[trigger]
            before.external.contains_key(name) ==> {
                &&& after.external[name].meta == before.external[name].meta
                &&& after.external[name].ports == before.external[name].ports
            },
{
    before.policy.unreported_is_none(change);
    if before.policy.reports(change) {
        let changed = before.changed(change, after.policy.walk);
        assert forall|name: Text| #[trigger]
            before.pods.contains_key(name) implies changed.pods[name].reindexed(
            after.pods[name],
            changed.policy,
            authns,
        ) by {
            assert(changed.pods.contains_key(name));
        }
        assert forall|name: Text| #[trigger]
            before.external.contains_key(name) implies changed.external[name].reindexed(
            after.external[name],
            changed.policy,
            authns,
            name,
        ) by {
            assert(changed.external.contains_key(name));
        }
    }
}

/// A change of the policy resources of a namespace leaves its pods and external
/// groups what they were told to be, and neither adds nor takes any away.
pub proof fn policy_change_leaves_workloads(
    before: NamespaceModel,
    after: NamespaceModel,
    change: PolicyChangeModel,
    authns: crate::authentications::AuthenticationsModel,
    name: Text,
)
    requires
        before.followed(after, change, authns),
    ensures
        after.pods.contains_key(name) == before.pods.contains_key(name),
        before.pods.contains_key(name) ==> {
            &&& after.pods[name].meta == before.pods[name].meta
            &&& after.pods[name].port_names == before.pods[name].port_names
            &&& after.pods[name].probes == before.pods[name].probes
        },
        after.external.contains_key(name) == before.external.contains_key(name),
        before.external.contains_key(name) ==> {
            &&& after.external[name].meta == before.external[name].meta
            &&& after.external[name].ports == before.external[name].ports
        },
        after.policy.namespace == before.policy.namespace,
        after.policy.cluster == before.policy.cluster,
{
    followed_is_changed(before, after, change, authns);
    assert(after.pods.dom().contains(name) == before.pods.dom().contains(name));
    assert(after.external.dom().contains(name) == before.external.dom().contains(name));
}

/// Where only one namespace changes, every other one is as it was, and so are the
/// authentications and what is configured for the cluster.
pub proof fn other_namespaces_are_left_alone(
    before: IndexModel,
    after: IndexModel,
    ns: Text,
    other: Text,
)
    requires
        before.only_ns(after, ns),
        other != ns,
    ensures
        after.cluster == before.cluster,
        after.authentications == before.authentications,
        after.namespaces.by_ns.contains_key(other) == before.namespaces.by_ns.contains_key(other),
        before.namespaces.by_ns.contains_key(other) ==> after.namespaces.by_ns[other]
            == before.namespaces.by_ns[other],
{
    assert(before.ns_same(after, other));
}

/// A `Server` that is applied is kept as it was given. All other `Server`s of its
/// namespace are kept as they were, and so are its other policy resources.
pub proof fn applied_server_is_kept(
    before: IndexModel,
    after: IndexModel,
    ns: Text,
    key: Text,
    value: ServerModel,
    other: Text,
)
    requires
        before.ns_or_default_changed(
            after,
            ns,
            <Server as PolicyResource>::change_of(ChangeModel::Update(key, value)),
        ),
    ensures
        after.namespaces.by_ns.contains_key(ns),
        ({
            let b = before.namespaces.get_or_default(ns);
            let a = after.namespaces.by_ns[ns];
            let was = b.policy.servers;
            let now = a.policy.servers;
            &&& now.contains_pair(key, value)
            &&& other != key ==> {
                &&& now.contains_key(other) == was.contains_key(other)
                &&& was.contains_key(other) ==> now[other] == was[other]
            }
            &&& a.policy.server_authorizations == b.policy.server_authorizations
            &&& a.policy.authorization_policies == b.policy.authorization_policies
            &&& a.policy.http_routes == b.policy.http_routes
        }),
        before.namespaces.by_ns.contains_key(ns) ==> before.namespaces.get_or_default(ns)
            == before.namespaces.by_ns[ns],
{
    followed_is_changed(
        before.namespaces.get_or_default(ns),
        after.namespaces.by_ns[ns],
        <Server as PolicyResource>::change_of(ChangeModel::Update(key, value)),
        before.authentications,
    );
}

/// A `Server` that is deleted is not kept. All other `Server`s of its namespace are
/// kept as they were, and so are its other policy resources, unless the namespace
/// is forgotten because nothing is left of it. A namespace that is not known stays
/// so.
pub proof fn deleted_server_is_gone(
    before: IndexModel,
    after: IndexModel,
    ns: Text,
    key: Text,
    other: Text,
)
    requires
        before.ns_changed(
            after,
            ns,
            <Server as PolicyResource>::change_of(ChangeModel::Remove(key)),
        ),
    ensures
        after.namespaces.by_ns.contains_key(ns) ==> before.namespaces.by_ns.contains_key(ns) && {
            let b = before.namespaces.by_ns[ns];
            let a = after.namespaces.by_ns[ns];
            let was = b.policy.servers;
            let now = a.policy.servers;
            &&& !now.contains_key(key)
            &&& other != key ==> {
                &&& now.contains_key(other) == was.contains_key(other)
                &&& was.contains_key(other) ==> now[other] == was[other]
            }
            &&& a.policy.server_authorizations == b.policy.server_authorizations
            &&& a.policy.authorization_policies == b.policy.authorization_policies
            &&& a.policy.http_routes == b.policy.http_routes
        },
        before.namespaces.by_ns.contains_key(ns) && !after.namespaces.by_ns.contains_key(ns) ==> {
            let b = before.namespaces.by_ns[ns];
            &&& b.pods == Map::<Text, PodModel>::empty()
            &&& b.external == Map::<Text, ExternalGroupModel>::empty()
            &&& b.policy.servers.contains_key(other) ==> other == key
            &&& b.policy.server_authorizations == Map::<Text, ServerAuthzModel>::empty()
            &&& b.policy.authorization_policies == Map::<Text, SpecModel>::empty()
            &&& b.policy.http_routes == Map::<GroupKindNameModel, RouteBindingModel>::empty()
        },
{
    let change = <Server as PolicyResource>::change_of(ChangeModel::Remove(key));
    let b = before.namespaces.by_ns[ns];
    if before.namespaces.by_ns.contains_key(ns) {
        assert(before.namespaces.by_ns.get(ns) == Some(b));
        if after.namespaces.by_ns.contains_key(ns) {
            assert(after.namespaces.by_ns.get(ns) == Some(after.namespaces.by_ns[ns]));
            followed_is_changed(b, after.namespaces.by_ns[ns], change, before.authentications);
        } else if b.policy.servers.contains_key(other) && other != key {
            let left = b.policy.changed(change, b.policy.walk);
            assert(left.servers.contains_key(other));
        }
    } else {
        assert(after.namespaces.by_ns.get(ns) is None);
    }
}

/// After a listing of `Server`s, a namespace in which some are listed has each of
/// them as it was listed last, none of the others that are deleted, and the rest as
/// they were. One in which none is listed but some are deleted has none left, and
/// any other is as it was. Other policy resources are left alone.
pub proof fn listed_server_is_kept(
    before: IndexModel,
    after: IndexModel,
    ns: Text,
    listed: Seq<ListedModel<Text, ServerModel>>,
    deleted: Map<Text, Seq<Text>>,
    key: Text,
)
    requires
        before.ns_reset::<Server>(after, ns, updates_by_ns(listed, deleted)),
    ensures
        ({
            let b = before.namespaces.get_or_default(ns);
            let a = after.namespaces.by_ns[ns];
            let was = b.policy.servers;
            let now = a.policy.servers;
            let known = after.namespaces.by_ns.contains_key(ns);
            let some_listed = exists|i: int|
                0 <= i < listed.len() && (#[trigger] listed[i]).namespace == ns;
            let is_gone = deleted.contains_key(ns) && exists|i: int|
                0 <= i < deleted[ns].len() && #[trigger] deleted[ns][i] == key;
            &&& some_listed ==> {
                &&& known
                &&& forall|i: int|
                    {
                        &&& 0 <= i < listed.len()
                        &&& #[trigger] listed_at(listed, ns, key, i)
                        &&& forall|j: int|
                            i < j < listed.len() ==> !#[trigger] listed_at(listed, ns, key, j)
                    } ==> now.contains_pair(key, listed[i].value)
                &&& (forall|i: int|
                    0 <= i < listed.len() ==> !#[trigger] listed_at(listed, ns, key, i)) ==> {
                    &&& now.contains_key(key) <==> was.contains_key(key) && !is_gone
                    &&& now.contains_key(key) ==> now[key] == was[key]
                }
            }
            &&& !some_listed && deleted.contains_key(ns) && known ==> {
                &&& before.namespaces.by_ns.contains_key(ns)
                &&& !now.contains_key(key)
            }
            &&& !some_listed && !deleted.contains_key(ns) ==> {
                &&& known == before.namespaces.by_ns.contains_key(ns)
                &&& known ==> a == before.namespaces.by_ns[ns]
            }
            &&& known ==> {
                &&& a.policy.server_authorizations == b.policy.server_authorizations
                &&& a.policy.authorization_policies == b.policy.authorization_policies
                &&& a.policy.http_routes == b.policy.http_routes
            }
        }),
{
    let updates = updates_by_ns(listed, deleted);
    let b = before.namespaces.get_or_default(ns);
    let a = after.namespaces.by_ns[ns];
    namespace_is_listed_by_its_resources(listed, ns);
    if !updates.contains_key(ns) {
        assert(before.ns_same(after, ns));
        if before.namespaces.by_ns.contains_key(ns) {
            assert(before.namespaces.by_ns.get(ns) == Some(b));
            assert(after.namespaces.by_ns.get(ns) == Some(b));
        } else {
            assert(before.namespaces.by_ns.get(ns) is None);
        }
    } else if updates[ns].added.len() == 0 {
        let change = <Server as PolicyResource>::change_of(ChangeModel::Clear);
        assert(before.ns_changed(after, ns, change));
        if after.namespaces.by_ns.contains_key(ns) {
            assert(after.namespaces.by_ns.get(ns) == Some(a));
            assert(before.namespaces.by_ns.get(ns) == Some(b));
            followed_is_changed(b, a, change, before.authentications);
        }
    } else {
        let change = <Server as PolicyResource>::change_of(ChangeModel::Replace(updates[ns]));
        assert(before.ns_or_default_changed(after, ns, change));
        followed_is_changed(b, a, change, before.authentications);
        let removed = updates[ns].removed;
        let was = b.policy.servers;
        let left = was.remove_keys(removed.to_set());
        assert(a.policy.servers == with_all(left, listed_in(listed, ns)));
        last_listed_counts(left, listed, ns, key);
        assert(removed.to_set().contains(key) == removed.contains(key));
        if removed.contains(key) {
            let i = choose|i: int| 0 <= i < removed.len() && removed[i] == key;
            assert(deleted.contains_key(ns) && deleted[ns][i] == key);
        }
        assert(left.contains_key(key) <==> was.contains_key(key) && !removed.contains(key));
    }
}

/// A change of the `Server`s of a namespace is followed by the ports of the
/// namespace exactly if it is reported, and one that leaves the `Server`s other
/// than they were is.
pub proof fn change_of_servers_is_reported(
    before: NamespaceModel,
    change: ChangeModel<Text, ServerModel>,
)
    ensures
        ({
            let was = before.policy.servers;
            let whole = <Server as PolicyResource>::change_of(change);
            let reported = before.policy.reports(whole);
            &&& reported <==> change.reported(was)
            &&& change.of(was) != was ==> reported
        }),
{
    change_is_reported(before.policy.servers, change);
}

/// A `ServerAuthorization` that is applied is kept as it was given. All other
/// `ServerAuthorization`s of its namespace are kept as they were, and so are its
/// other policy resources.
pub proof fn applied_server_authorization_is_kept(
    before: IndexModel,
    after: IndexModel,
    ns: Text,
    key: Text,
    value: ServerAuthzModel,
    other: Text,
)
    requires
        before.ns_or_default_changed(
            after,
            ns,
            <ServerAuthz as PolicyResource>::change_of(ChangeModel::Update(key, value)),
        ),
    ensures
        after.namespaces.by_ns.contains_key(ns),
        ({
            let b = before.namespaces.get_or_default(ns);
            let a = after.namespaces.by_ns[ns];
            let was = b.policy.server_authorizations;
            let now = a.policy.server_authorizations;
            &&& now.contains_pair(key, value)
            &&& other != key ==> {
                &&& now.contains_key(other) == was.contains_key(other)
                &&& was.contains_key(other) ==> now[other] == was[other]
            }
            &&& a.policy.servers == b.policy.servers
            &&& a.policy.authorization_policies == b.policy.authorization_policies
            &&& a.policy.http_routes == b.policy.http_routes
        }),
        before.namespaces.by_ns.contains_key(ns) ==> before.namespaces.get_or_default(ns)
            == before.namespaces.by_ns[ns],
{
    followed_is_changed(
        before.namespaces.get_or_default(ns),
        after.namespaces.by_ns[ns],
        <ServerAuthz as PolicyResource>::change_of(ChangeModel::Update(key, value)),
        before.authentications,
    );
}

/// A `ServerAuthorization` that is deleted is not kept. All other
/// `ServerAuthorization`s of its namespace are kept as they were, and so are its
/// other policy resources, unless the namespace is forgotten because nothing is
/// left of it. A namespace that is not known stays so.
pub proof fn deleted_server_authorization_is_gone(
    before: IndexModel,
    after: IndexModel,
    ns: Text,
    key: Text,
    other: Text,
)
    requires
        before.ns_changed(
            after,
            ns,
            <ServerAuthz as PolicyResource>::change_of(ChangeModel::Remove(key)),
        ),
    ensures
        after.namespaces.by_ns.contains_key(ns) ==> before.namespaces.by_ns.contains_key(ns) && {
            let b = before.namespaces.by_ns[ns];
            let a = after.namespaces.by_ns[ns];
            let was = b.policy.server_authorizations;
            let now = a.policy.server_authorizations;
            &&& !now.contains_key(key)
            &&& other != key ==> {
                &&& now.contains_key(other) == was.contains_key(other)
                &&& was.contains_key(other) ==> now[other] == was[other]
            }
            &&& a.policy.servers == b.policy.servers
            &&& a.policy.authorization_policies == b.policy.authorization_policies
            &&& a.policy.http_routes == b.policy.http_routes
        },
        before.namespaces.by_ns.contains_key(ns) && !after.namespaces.by_ns.contains_key(ns) ==> {
            let b = before.namespaces.by_ns[ns];
            &&& b.pods == Map::<Text, PodModel>::empty()
            &&& b.external == Map::<Text, ExternalGroupModel>::empty()
            &&& b.policy.server_authorizations.contains_key(other) ==> other == key
            &&& b.policy.servers == Map::<Text, ServerModel>::empty()
            &&& b.policy.authorization_policies == Map::<Text, SpecModel>::empty()
            &&& b.policy.http_routes == Map::<GroupKindNameModel, RouteBindingModel>::empty()
        },
{
    let change = <ServerAuthz as PolicyResource>::change_of(ChangeModel::Remove(key));
    let b = before.namespaces.by_ns[ns];
    if before.namespaces.by_ns.contains_key(ns) {
        assert(before.namespaces.by_ns.get(ns) == Some(b));
        if after.namespaces.by_ns.contains_key(ns) {
            assert(after.namespaces.by_ns.get(ns) == Some(after.namespaces.by_ns[ns]));
            followed_is_changed(b, after.namespaces.by_ns[ns], change, before.authentications);
        } else if b.policy.server_authorizations.contains_key(other) && other != key {
            let left = b.policy.changed(change, b.policy.walk);
            assert(left.server_authorizations.contains_key(other));
        }
    } else {
        assert(after.namespaces.by_ns.get(ns) is None);
    }
}

/// After a listing of `ServerAuthorization`s, a namespace in which some are listed
/// has each of them as it was listed last, none of the others that are deleted, and
/// the rest as they were. One in which none is listed but some are deleted has none
/// left, and any other is as it was. Other policy resources are left alone.
pub proof fn listed_server_authorization_is_kept(
    before: IndexModel,
    after: IndexModel,
    ns: Text,
    listed: Seq<ListedModel<Text, ServerAuthzModel>>,
    deleted: Map<Text, Seq<Text>>,
    key: Text,
)
    requires
        before.ns_reset::<ServerAuthz>(after, ns, updates_by_ns(listed, deleted)),
    ensures
        ({
            let b = before.namespaces.get_or_default(ns);
            let a = after.namespaces.by_ns[ns];
            let was = b.policy.server_authorizations;
            let now = a.policy.server_authorizations;
            let known = after.namespaces.by_ns.contains_key(ns);
            let some_listed = exists|i: int|
                0 <= i < listed.len() && (#[trigger] listed[i]).namespace == ns;
            let is_gone = deleted.contains_key(ns) && exists|i: int|
                0 <= i < deleted[ns].len() && #[trigger] deleted[ns][i] == key;
            &&& some_listed ==> {
                &&& known
                &&& forall|i: int|
                    {
                        &&& 0 <= i < listed.len()
                        &&& #[trigger] listed_at(listed, ns, key, i)
                        &&& forall|j: int|
                            i < j < listed.len() ==> !#[trigger] listed_at(listed, ns, key, j)
                    } ==> now.contains_pair(key, listed[i].value)
                &&& (forall|i: int|
                    0 <= i < listed.len() ==> !#[trigger] listed_at(listed, ns, key, i)) ==> {
                    &&& now.contains_key(key) <==> was.contains_key(key) && !is_gone
                    &&& now.contains_key(key) ==> now[key] == was[key]
                }
            }
            &&& !some_listed && deleted.contains_key(ns) && known ==> {
                &&& before.namespaces.by_ns.contains_key(ns)
                &&& !now.contains_key(key)
            }
            &&& !some_listed && !deleted.contains_key(ns) ==> {
                &&& known == before.namespaces.by_ns.contains_key(ns)
                &&& known ==> a == before.namespaces.by_ns[ns]
            }
            &&& known ==> {
                &&& a.policy.servers == b.policy.servers
                &&& a.policy.authorization_policies == b.policy.authorization_policies
                &&& a.policy.http_routes == b.policy.http_routes
            }
        }),
{
    let updates = updates_by_ns(listed, deleted);
    let b = before.namespaces.get_or_default(ns);
    let a = after.namespaces.by_ns[ns];
    namespace_is_listed_by_its_resources(listed, ns);
    if !updates.contains_key(ns) {
        assert(before.ns_same(after, ns));
        if before.namespaces.by_ns.contains_key(ns) {
            assert(before.namespaces.by_ns.get(ns) == Some(b));
            assert(after.namespaces.by_ns.get(ns) == Some(b));
        } else {
            assert(before.namespaces.by_ns.get(ns) is None);
        }
    } else if updates[ns].added.len() == 0 {
        let change = <ServerAuthz as PolicyResource>::change_of(ChangeModel::Clear);
        assert(before.ns_changed(after, ns, change));
        if after.namespaces.by_ns.contains_key(ns) {
            assert(after.namespaces.by_ns.get(ns) == Some(a));
            assert(before.namespaces.by_ns.get(ns) == Some(b));
            followed_is_changed(b, a, change, before.authentications);
        }
    } else {
        let change = <ServerAuthz as PolicyResource>::change_of(ChangeModel::Replace(updates[ns]));
        assert(before.ns_or_default_changed(after, ns, change));
        followed_is_changed(b, a, change, before.authentications);
        let removed = updates[ns].removed;
        let was = b.policy.server_authorizations;
        let left = was.remove_keys(removed.to_set());
        assert(a.policy.server_authorizations == with_all(left, listed_in(listed, ns)));
        last_listed_counts(left, listed, ns, key);
        assert(removed.to_set().contains(key) == removed.contains(key));
        if removed.contains(key) {
            let i = choose|i: int| 0 <= i < removed.len() && removed[i] == key;
            assert(deleted.contains_key(ns) && deleted[ns][i] == key);
        }
        assert(left.contains_key(key) <==> was.contains_key(key) && !removed.contains(key));
    }
}

/// A change of the `ServerAuthorization`s of a namespace is followed by the ports
/// of the namespace exactly if it is reported, and one that leaves the
/// `ServerAuthorization`s other than they were is.
pub proof fn change_of_server_authorizations_is_reported(
    before: NamespaceModel,
    change: ChangeModel<Text, ServerAuthzModel>,
)
    ensures
        ({
            let was = before.policy.server_authorizations;
            let whole = <ServerAuthz as PolicyResource>::change_of(change);
            let reported = before.policy.reports(whole);
            &&& reported <==> change.reported(was)
            &&& change.of(was) != was ==> reported
        }),
{
    change_is_reported(before.policy.server_authorizations, change);
}

/// An `AuthorizationPolicy` that is applied is kept as it was given. All other
/// `AuthorizationPolicy`s of its namespace are kept as they were, and so are its
/// other policy resources.
pub proof fn applied_policy_is_kept(
    before: IndexModel,
    after: IndexModel,
    ns: Text,
    key: Text,
    value: SpecModel,
    other: Text,
)
    requires
        before.ns_or_default_changed(
            after,
            ns,
            <Spec as PolicyResource>::change_of(ChangeModel::Update(key, value)),
        ),
    ensures
        after.namespaces.by_ns.contains_key(ns),
        ({
            let b = before.namespaces.get_or_default(ns);
            let a = after.namespaces.by_ns[ns];
            let was = b.policy.authorization_policies;
            let now = a.policy.authorization_policies;
            &&& now.contains_pair(key, value)
            &&& other != key ==> {
                &&& now.contains_key(other) == was.contains_key(other)
                &&& was.contains_key(other) ==> now[other] == was[other]
            }
            &&& a.policy.servers == b.policy.servers
            &&& a.policy.server_authorizations == b.policy.server_authorizations
            &&& a.policy.http_routes == b.policy.http_routes
        }),
        before.namespaces.by_ns.contains_key(ns) ==> before.namespaces.get_or_default(ns)
            == before.namespaces.by_ns[ns],
{
    followed_is_changed(
        before.namespaces.get_or_default(ns),
        after.namespaces.by_ns[ns],
        <Spec as PolicyResource>::change_of(ChangeModel::Update(key, value)),
        before.authentications,
    );
}

/// An `AuthorizationPolicy` that is deleted is not kept. All other
/// `AuthorizationPolicy`s of its namespace are kept as they were, and so are its
/// other policy resources, unless the namespace is forgotten because nothing is
/// left of it. A namespace that is not known stays so.
pub proof fn deleted_policy_is_gone(
    before: IndexModel,
    after: IndexModel,
    ns: Text,
    key: Text,
    other: Text,
)
    requires
        before.ns_changed(
            after,
            ns,
            <Spec as PolicyResource>::change_of(ChangeModel::Remove(key)),
        ),
    ensures
        after.namespaces.by_ns.contains_key(ns) ==> before.namespaces.by_ns.contains_key(ns) && {
            let b = before.namespaces.by_ns[ns];
            let a = after.namespaces.by_ns[ns];
            let was = b.policy.authorization_policies;
            let now = a.policy.authorization_policies;
            &&& !now.contains_key(key)
            &&& other != key ==> {
                &&& now.contains_key(other) == was.contains_key(other)
                &&& was.contains_key(other) ==> now[other] == was[other]
            }
            &&& a.policy.servers == b.policy.servers
            &&& a.policy.server_authorizations == b.policy.server_authorizations
            &&& a.policy.http_routes == b.policy.http_routes
        },
        before.namespaces.by_ns.contains_key(ns) && !after.namespaces.by_ns.contains_key(ns) ==> {
            let b = before.namespaces.by_ns[ns];
            &&& b.pods == Map::<Text, PodModel>::empty()
            &&& b.external == Map::<Text, ExternalGroupModel>::empty()
            &&& b.policy.authorization_policies.contains_key(other) ==> other == key
            &&& b.policy.servers == Map::<Text, ServerModel>::empty()
            &&& b.policy.server_authorizations == Map::<Text, ServerAuthzModel>::empty()
            &&& b.policy.http_routes == Map::<GroupKindNameModel, RouteBindingModel>::empty()
        },
{
    let change = <Spec as PolicyResource>::change_of(ChangeModel::Remove(key));
    let b = before.namespaces.by_ns[ns];
    if before.namespaces.by_ns.contains_key(ns) {
        assert(before.namespaces.by_ns.get(ns) == Some(b));
        if after.namespaces.by_ns.contains_key(ns) {
            assert(after.namespaces.by_ns.get(ns) == Some(after.namespaces.by_ns[ns]));
            followed_is_changed(b, after.namespaces.by_ns[ns], change, before.authentications);
        } else if b.policy.authorization_policies.contains_key(other) && other != key {
            let left = b.policy.changed(change, b.policy.walk);
            assert(left.authorization_policies.contains_key(other));
        }
    } else {
        assert(after.namespaces.by_ns.get(ns) is None);
    }
}

/// After a listing of `AuthorizationPolicy`s, a namespace in which some are listed
/// has each of them as it was listed last, none of the others that are deleted, and
/// the rest as they were. One in which none is listed but some are deleted has none
/// left, and any other is as it was. Other policy resources are left alone.
pub proof fn listed_policy_is_kept(
    before: IndexModel,
    after: IndexModel,
    ns: Text,
    listed: Seq<ListedModel<Text, SpecModel>>,
    deleted: Map<Text, Seq<Text>>,
    key: Text,
)
    requires
        before.ns_reset::<Spec>(after, ns, updates_by_ns(listed, deleted)),
    ensures
        ({
            let b = before.namespaces.get_or_default(ns);
            let a = after.namespaces.by_ns[ns];
            let was = b.policy.authorization_policies;
            let now = a.policy.authorization_policies;
            let known = after.namespaces.by_ns.contains_key(ns);
            let some_listed = exists|i: int|
                0 <= i < listed.len() && (#[trigger] listed[i]).namespace == ns;
            let is_gone = deleted.contains_key(ns) && exists|i: int|
                0 <= i < deleted[ns].len() && #[trigger] deleted[ns][i] == key;
            &&& some_listed ==> {
                &&& known
                &&& forall|i: int|
                    {
                        &&& 0 <= i < listed.len()
                        &&& #[trigger] listed_at(listed, ns, key, i)
                        &&& forall|j: int|
                            i < j < listed.len() ==> !#[trigger] listed_at(listed, ns, key, j)
                    } ==> now.contains_pair(key, listed[i].value)
                &&& (forall|i: int|
                    0 <= i < listed.len() ==> !#[trigger] listed_at(listed, ns, key, i)) ==> {
                    &&& now.contains_key(key) <==> was.contains_key(key) && !is_gone
                    &&& now.contains_key(key) ==> now[key] == was[key]
                }
            }
            &&& !some_listed && deleted.contains_key(ns) && known ==> {
                &&& before.namespaces.by_ns.contains_key(ns)
                &&& !now.contains_key(key)
            }
            &&& !some_listed && !deleted.contains_key(ns) ==> {
                &&& known == before.namespaces.by_ns.contains_key(ns)
                &&& known ==> a == before.namespaces.by_ns[ns]
            }
            &&& known ==> {
                &&& a.policy.servers == b.policy.servers
                &&& a.policy.server_authorizations == b.policy.server_authorizations
                &&& a.policy.http_routes == b.policy.http_routes
            }
        }),
{
    let updates = updates_by_ns(listed, deleted);
    let b = before.namespaces.get_or_default(ns);
    let a = after.namespaces.by_ns[ns];
    namespace_is_listed_by_its_resources(listed, ns);
    if !updates.contains_key(ns) {
        assert(before.ns_same(after, ns));
        if before.namespaces.by_ns.contains_key(ns) {
            assert(before.namespaces.by_ns.get(ns) == Some(b));
            assert(after.namespaces.by_ns.get(ns) == Some(b));
        } else {
            assert(before.namespaces.by_ns.get(ns) is None);
        }
    } else if updates[ns].added.len() == 0 {
        let change = <Spec as PolicyResource>::change_of(ChangeModel::Clear);
        assert(before.ns_changed(after, ns, change));
        if after.namespaces.by_ns.contains_key(ns) {
            assert(after.namespaces.by_ns.get(ns) == Some(a));
            assert(before.namespaces.by_ns.get(ns) == Some(b));
            followed_is_changed(b, a, change, before.authentications);
        }
    } else {
        let change = <Spec as PolicyResource>::change_of(ChangeModel::Replace(updates[ns]));
        assert(before.ns_or_default_changed(after, ns, change));
        followed_is_changed(b, a, change, before.authentications);
        let removed = updates[ns].removed;
        let was = b.policy.authorization_policies;
        let left = was.remove_keys(removed.to_set());
        assert(a.policy.authorization_policies == with_all(left, listed_in(listed, ns)));
        last_listed_counts(left, listed, ns, key);
        assert(removed.to_set().contains(key) == removed.contains(key));
        if removed.contains(key) {
            let i = choose|i: int| 0 <= i < removed.len() && removed[i] == key;
            assert(deleted.contains_key(ns) && deleted[ns][i] == key);
        }
        assert(left.contains_key(key) <==> was.contains_key(key) && !removed.contains(key));
    }
}

/// A change of the `AuthorizationPolicy`s of a namespace is followed by the ports
/// of the namespace exactly if it is reported, and one that leaves the
/// `AuthorizationPolicy`s other than they were is.
pub proof fn change_of_authorization_policies_is_reported(
    before: NamespaceModel,
    change: ChangeModel<Text, SpecModel>,
)
    ensures
        ({
            let was = before.policy.authorization_policies;
            let whole = <Spec as PolicyResource>::change_of(change);
            let reported = before.policy.reports(whole);
            &&& reported <==> change.reported(was)
            &&& change.of(was) != was ==> reported
        }),
{
    change_is_reported(before.policy.authorization_policies, change);
}

/// A route that is applied is kept as it was given. All other routes of its
/// namespace are kept as they were, and so are its other policy resources.
pub proof fn applied_route_is_kept(
    before: IndexModel,
    after: IndexModel,
    ns: Text,
    key: GroupKindNameModel,
    value: RouteBindingModel,
    other: GroupKindNameModel,
)
    requires
        before.ns_or_default_changed(
            after,
            ns,
            <RouteBinding as PolicyResource>::change_of(ChangeModel::Update(key, value)),
        ),
    ensures
        after.namespaces.by_ns.contains_key(ns),
        ({
            let b = before.namespaces.get_or_default(ns);
            let a = after.namespaces.by_ns[ns];
            let was = b.policy.http_routes;
            let now = a.policy.http_routes;
            &&& now.contains_pair(key, value)
            &&& other != key ==> {
                &&& now.contains_key(other) == was.contains_key(other)
                &&& was.contains_key(other) ==> now[other] == was[other]
            }
            &&& a.policy.servers == b.policy.servers
            &&& a.policy.server_authorizations == b.policy.server_authorizations
            &&& a.policy.authorization_policies == b.policy.authorization_policies
        }),
        before.namespaces.by_ns.contains_key(ns) ==> before.namespaces.get_or_default(ns)
            == before.namespaces.by_ns[ns],
{
    followed_is_changed(
        before.namespaces.get_or_default(ns),
        after.namespaces.by_ns[ns],
        <RouteBinding as PolicyResource>::change_of(ChangeModel::Update(key, value)),
        before.authentications,
    );
}

/// A route that is deleted is not kept. All other routes of its namespace are kept
/// as they were, and so are its other policy resources, unless the namespace is
/// forgotten because nothing is left of it. A namespace that is not known stays so.
pub proof fn deleted_route_is_gone(
    before: IndexModel,
    after: IndexModel,
    ns: Text,
    key: GroupKindNameModel,
    other: GroupKindNameModel,
)
    requires
        before.ns_changed(
            after,
            ns,
            <RouteBinding as PolicyResource>::change_of(ChangeModel::Remove(key)),
        ),
    ensures
        after.namespaces.by_ns.contains_key(ns) ==> before.namespaces.by_ns.contains_key(ns) && {
            let b = before.namespaces.by_ns[ns];
            let a = after.namespaces.by_ns[ns];
            let was = b.policy.http_routes;
            let now = a.policy.http_routes;
            &&& !now.contains_key(key)
            &&& other != key ==> {
                &&& now.contains_key(other) == was.contains_key(other)
                &&& was.contains_key(other) ==> now[other] == was[other]
            }
            &&& a.policy.servers == b.policy.servers
            &&& a.policy.server_authorizations == b.policy.server_authorizations
            &&& a.policy.authorization_policies == b.policy.authorization_policies
        },
        before.namespaces.by_ns.contains_key(ns) && !after.namespaces.by_ns.contains_key(ns) ==> {
            let b = before.namespaces.by_ns[ns];
            &&& b.pods == Map::<Text, PodModel>::empty()
            &&& b.external == Map::<Text, ExternalGroupModel>::empty()
            &&& b.policy.http_routes.contains_key(other) ==> other == key
            &&& b.policy.servers == Map::<Text, ServerModel>::empty()
            &&& b.policy.server_authorizations == Map::<Text, ServerAuthzModel>::empty()
            &&& b.policy.authorization_policies == Map::<Text, SpecModel>::empty()
        },
{
    let change = <RouteBinding as PolicyResource>::change_of(ChangeModel::Remove(key));
    let b = before.namespaces.by_ns[ns];
    if before.namespaces.by_ns.contains_key(ns) {
        assert(before.namespaces.by_ns.get(ns) == Some(b));
        if after.namespaces.by_ns.contains_key(ns) {
            assert(after.namespaces.by_ns.get(ns) == Some(after.namespaces.by_ns[ns]));
            followed_is_changed(b, after.namespaces.by_ns[ns], change, before.authentications);
        } else if b.policy.http_routes.contains_key(other) && other != key {
            let left = b.policy.changed(change, b.policy.walk);
            assert(left.http_routes.contains_key(other));
        }
    } else {
        assert(after.namespaces.by_ns.get(ns) is None);
    }
}

/// After a listing of routes, a namespace in which some are listed has each of them
/// as it was listed last, none of the others that are deleted, and the rest as they
/// were. One in which none is listed but some are deleted has none left, and any
/// other is as it was. Other policy resources are left alone.
pub proof fn listed_route_is_kept(
    before: IndexModel,
    after: IndexModel,
    ns: Text,
    listed: Seq<ListedModel<GroupKindNameModel, RouteBindingModel>>,
    deleted: Map<Text, Seq<GroupKindNameModel>>,
    key: GroupKindNameModel,
)
    requires
        before.ns_reset::<RouteBinding>(after, ns, updates_by_ns(listed, deleted)),
    ensures
        ({
            let b = before.namespaces.get_or_default(ns);
            let a = after.namespaces.by_ns[ns];
            let was = b.policy.http_routes;
            let now = a.policy.http_routes;
            let known = after.namespaces.by_ns.contains_key(ns);
            let some_listed = exists|i: int|
                0 <= i < listed.len() && (#[trigger] listed[i]).namespace == ns;
            let is_gone = deleted.contains_key(ns) && exists|i: int|
                0 <= i < deleted[ns].len() && #[trigger] deleted[ns][i] == key;
            &&& some_listed ==> {
                &&& known
                &&& forall|i: int|
                    {
                        &&& 0 <= i < listed.len()
                        &&& #[trigger] listed_at(listed, ns, key, i)
                        &&& forall|j: int|
                            i < j < listed.len() ==> !#[trigger] listed_at(listed, ns, key, j)
                    } ==> now.contains_pair(key, listed[i].value)
                &&& (forall|i: int|
                    0 <= i < listed.len() ==> !#[trigger] listed_at(listed, ns, key, i)) ==> {
                    &&& now.contains_key(key) <==> was.contains_key(key) && !is_gone
                    &&& now.contains_key(key) ==> now[key] == was[key]
                }
            }
            &&& !some_listed && deleted.contains_key(ns) && known ==> {
                &&& before.namespaces.by_ns.contains_key(ns)
                &&& !now.contains_key(key)
            }
            &&& !some_listed && !deleted.contains_key(ns) ==> {
                &&& known == before.namespaces.by_ns.contains_key(ns)
                &&& known ==> a == before.namespaces.by_ns[ns]
            }
            &&& known ==> {
                &&& a.policy.servers == b.policy.servers
                &&& a.policy.server_authorizations == b.policy.server_authorizations
                &&& a.policy.authorization_policies == b.policy.authorization_policies
            }
        }),
{
    let updates = updates_by_ns(listed, deleted);
    let b = before.namespaces.get_or_default(ns);
    let a = after.namespaces.by_ns[ns];
    namespace_is_listed_by_its_resources(listed, ns);
    if !updates.contains_key(ns) {
        assert(before.ns_same(after, ns));
        if before.namespaces.by_ns.contains_key(ns) {
            assert(before.namespaces.by_ns.get(ns) == Some(b));
            assert(after.namespaces.by_ns.get(ns) == Some(b));
        } else {
            assert(before.namespaces.by_ns.get(ns) is None);
        }
    } else if updates[ns].added.len() == 0 {
        let change = <RouteBinding as PolicyResource>::change_of(ChangeModel::Clear);
        assert(before.ns_changed(after, ns, change));
        if after.namespaces.by_ns.contains_key(ns) {
            assert(after.namespaces.by_ns.get(ns) == Some(a));
            assert(before.namespaces.by_ns.get(ns) == Some(b));
            followed_is_changed(b, a, change, before.authentications);
        }
    } else {
        let change = <RouteBinding as PolicyResource>::change_of(ChangeModel::Replace(updates[ns]));
        assert(before.ns_or_default_changed(after, ns, change));
        followed_is_changed(b, a, change, before.authentications);
        let removed = updates[ns].removed;
        let was = b.policy.http_routes;
        let left = was.remove_keys(removed.to_set());
        assert(a.policy.http_routes == with_all(left, listed_in(listed, ns)));
        last_listed_counts(left, listed, ns, key);
        assert(removed.to_set().contains(key) == removed.contains(key));
        if removed.contains(key) {
            let i = choose|i: int| 0 <= i < removed.len() && removed[i] == key;
            assert(deleted.contains_key(ns) && deleted[ns][i] == key);
        }
        assert(left.contains_key(key) <==> was.contains_key(key) && !removed.contains(key));
    }
}

/// A change of the routes of a namespace is followed by the ports of the namespace
/// exactly if it is reported, and one that leaves the routes other than they were
/// is.
pub proof fn change_of_http_routes_is_reported(
    before: NamespaceModel,
    change: ChangeModel<GroupKindNameModel, RouteBindingModel>,
)
    ensures
        ({
            let was = before.policy.http_routes;
            let whole = <RouteBinding as PolicyResource>::change_of(change);
            let reported = before.policy.reports(whole);
            &&& reported <==> change.reported(was)
            &&& change.of(was) != was ==> reported
        }),
{
    change_is_reported(before.policy.http_routes, change);
}

} // verus!
