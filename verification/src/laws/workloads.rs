//! What becomes of pods and external groups, and what their ports publish.
use crate::authentications::AuthenticationsModel;
use crate::authorization_policy::SpecModel;
use crate::authz::{IdentityMatchModel, NetworkMatchModel};
use crate::cluster::ClusterInfoModel;
use crate::external::{updated_group, ExternalGroupModel};
use crate::inbound::{InboundServer, InboundServerModel};
use crate::index::{IndexModel, NotFoundModel};
use crate::meta::{MetaModel, ObjectMetaModel};
use crate::pod::{updated_pod, PodModel};
use crate::policy::PolicyModel;
use crate::route::{GroupKindNameModel, RouteBindingModel};
use crate::search::{first, first_has_a_place, first_is_one};
use crate::server::ServerModel;
use crate::server_authorization::ServerAuthzModel;
use crate::value::Text;
use crate::watching::{assigned, closed_ends, defaulted, replace, PortServerModel};
use vstd::prelude::*;

verus! {

/// A pod is found exactly if it is known in its namespace. What is missing is told
/// otherwise: the namespace, or the pod in it.
pub proof fn pod_is_found_if_known(index: IndexModel, ns: Text, name: Text)
    ensures
        match index.find_pod(ns, name) {
            Ok(pod) => index.namespaces.by_ns.contains_key(ns)
                && index.namespaces.by_ns[ns].pods.contains_pair(name, pod),
            Err(NotFoundModel::Namespace { namespace }) => namespace == ns
                && !index.namespaces.by_ns.contains_key(ns),
            Err(NotFoundModel::Pod { namespace, pod }) => namespace == ns && pod == name
                && index.namespaces.by_ns.contains_key(ns)
                && !index.namespaces.by_ns[ns].pods.contains_key(name),
            Err(NotFoundModel::Workload { .. }) => false,
        },
{
}

/// An external group is found exactly if it is known in its namespace. What is
/// missing is told otherwise: the namespace, or the group in it.
pub proof fn group_is_found_if_known(index: IndexModel, ns: Text, name: Text)
    ensures
        match index.find_group(ns, name) {
            Ok(group) => index.namespaces.by_ns.contains_key(ns)
                && index.namespaces.by_ns[ns].external.contains_pair(name, group),
            Err(NotFoundModel::Namespace { namespace }) => namespace == ns
                && !index.namespaces.by_ns.contains_key(ns),
            Err(NotFoundModel::Workload { namespace, name: missing }) => namespace == ns && missing
                == name && index.namespaces.by_ns.contains_key(ns)
                && !index.namespaces.by_ns[ns].external.contains_key(name),
            Err(NotFoundModel::Pod { .. }) => false,
        },
{
}

/// An application of a pod is refused exactly if the pod is known by other port
/// names. Else the pod is known, and its labels and settings are those that its
/// metadata stands for, whether it is new or not; so are its port names. A pod that
/// is new expects the probes given, and one that is known those it always did. One
/// that is known keeps its known ports, each on its channel.
pub proof fn applied_pod_is_known_as_given(
    before: IndexModel,
    after: IndexModel,
    ns: Text,
    name: Text,
    metadata: ObjectMetaModel,
    port_names: Map<Text, Set<u16>>,
    probes: Map<u16, Seq<Text>>,
    port: u16,
)
    requires
        after.namespaces.by_ns.contains_key(ns),
        before.namespaces.get_or_default(ns).pod_applied(
            after.namespaces.by_ns[ns],
            name,
            updated_pod(
                before.namespaces.get_or_default(ns).pods,
                name,
                MetaModel::from_metadata(metadata),
                port_names,
                probes,
            ),
            before.authentications,
        ),
    ensures
        ({
            let known = before.namespaces.by_ns.contains_key(ns)
                && before.namespaces.by_ns[ns].pods.contains_key(name);
            let was = before.namespaces.by_ns[ns].pods[name];
            let pod = after.namespaces.by_ns[ns].pods[name];
            let refused = known && was.port_names != port_names;
            &&& refused <==> updated_pod(
                before.namespaces.get_or_default(ns).pods,
                name,
                MetaModel::from_metadata(metadata),
                port_names,
                probes,
            ) is Err
            &&& refused ==> after.namespaces.by_ns[ns] == before.namespaces.by_ns[ns]
            &&& !refused ==> {
                &&& after.namespaces.by_ns[ns].pods.contains_key(name)
                &&& pod.meta == MetaModel::from_metadata(metadata)
                &&& pod.port_names == port_names
                &&& known ==> pod.probes == was.probes
                &&& !known ==> pod.probes == probes
            }
            &&& known && was.port_servers.contains_key(port) ==> {
                &&& pod.port_servers.contains_key(port)
                &&& pod.port_servers[port].channel.id == was.port_servers[port].channel.id
            }
        }),
{
    let b = before.namespaces.get_or_default(ns);
    let a = after.namespaces.by_ns[ns];
    let update = updated_pod(
        b.pods,
        name,
        MetaModel::from_metadata(metadata),
        port_names,
        probes,
    );
    if let Ok(Some(pod)) = update {
        assert(pod.port_reindexed(
            a.pods[name].port_servers,
            b.policy,
            before.authentications,
            port,
        ));
    }
}

/// An application of a pod leaves all other pods of the namespace, its external
/// groups and its policy resources as they were.
pub proof fn applied_pod_leaves_the_rest(
    before: IndexModel,
    after: IndexModel,
    ns: Text,
    name: Text,
    metadata: ObjectMetaModel,
    port_names: Map<Text, Set<u16>>,
    probes: Map<u16, Seq<Text>>,
    other: Text,
)
    requires
        before.namespaces.by_ns.contains_key(ns),
        after.namespaces.by_ns.contains_key(ns),
        before.namespaces.get_or_default(ns).pod_applied(
            after.namespaces.by_ns[ns],
            name,
            updated_pod(
                before.namespaces.get_or_default(ns).pods,
                name,
                MetaModel::from_metadata(metadata),
                port_names,
                probes,
            ),
            before.authentications,
        ),
    ensures
        ({
            let b = before.namespaces.by_ns[ns];
            let a = after.namespaces.by_ns[ns];
            &&& a.external == b.external
            &&& a.policy == b.policy
            &&& other != name ==> {
                &&& a.pods.contains_key(other) == b.pods.contains_key(other)
                &&& b.pods.contains_key(other) ==> a.pods[other] == b.pods[other]
            }
        }),
{
}

/// An application of an external group is refused exactly if the group is known with
/// other ports. Else the group is known, and its labels and settings are those that
/// its metadata stands for, whether it is new or not; so are its ports. One that is
/// known keeps its known ports, each on its channel.
pub proof fn applied_group_is_known_as_given(
    before: IndexModel,
    after: IndexModel,
    ns: Text,
    name: Text,
    metadata: ObjectMetaModel,
    ports: Seq<u16>,
    port: u16,
)
    requires
        after.namespaces.by_ns.contains_key(ns),
        before.namespaces.get_or_default(ns).group_applied(
            after.namespaces.by_ns[ns],
            name,
            updated_group(
                before.namespaces.get_or_default(ns).external,
                name,
                MetaModel::from_metadata(metadata),
                ports,
            ),
            before.authentications,
        ),
    ensures
        ({
            let known = before.namespaces.by_ns.contains_key(ns)
                && before.namespaces.by_ns[ns].external.contains_key(name);
            let was = before.namespaces.by_ns[ns].external[name];
            let group = after.namespaces.by_ns[ns].external[name];
            let refused = known && was.ports != ports;
            &&& refused <==> updated_group(
                before.namespaces.get_or_default(ns).external,
                name,
                MetaModel::from_metadata(metadata),
                ports,
            ) is Err
            &&& refused ==> after.namespaces.by_ns[ns] == before.namespaces.by_ns[ns]
            &&& !refused ==> {
                &&& after.namespaces.by_ns[ns].external.contains_key(name)
                &&& group.meta == MetaModel::from_metadata(metadata)
                &&& group.ports == ports
            }
            &&& known && was.port_servers.contains_key(port) ==> {
                &&& group.port_servers.contains_key(port)
                &&& group.port_servers[port].channel.id == was.port_servers[port].channel.id
            }
        }),
{
    let b = before.namespaces.get_or_default(ns);
    let a = after.namespaces.by_ns[ns];
    let update = updated_group(b.external, name, MetaModel::from_metadata(metadata), ports);
    if let Ok(Some(group)) = update {
        assert(group.port_reindexed(
            a.external[name].port_servers,
            b.policy,
            before.authentications,
            name,
            port,
        ));
    }
}

/// An application of an external group leaves all other groups of the namespace, its
/// pods and its policy resources as they were.
pub proof fn applied_group_leaves_the_rest(
    before: IndexModel,
    after: IndexModel,
    ns: Text,
    name: Text,
    metadata: ObjectMetaModel,
    ports: Seq<u16>,
    other: Text,
)
    requires
        before.namespaces.by_ns.contains_key(ns),
        after.namespaces.by_ns.contains_key(ns),
        before.namespaces.get_or_default(ns).group_applied(
            after.namespaces.by_ns[ns],
            name,
            updated_group(
                before.namespaces.get_or_default(ns).external,
                name,
                MetaModel::from_metadata(metadata),
                ports,
            ),
            before.authentications,
        ),
    ensures
        ({
            let b = before.namespaces.by_ns[ns];
            let a = after.namespaces.by_ns[ns];
            &&& a.pods == b.pods
            &&& a.policy == b.policy
            &&& other != name ==> {
                &&& a.external.contains_key(other) == b.external.contains_key(other)
                &&& b.external.contains_key(other) ==> a.external[other] == b.external[other]
            }
        }),
{
}

/// What is applied to a namespace that is not known finds there only what it brings:
/// no pods, no external groups and no policy resources, under the name and in the
/// cluster that it is in.
pub proof fn new_namespace_has_nothing(index: IndexModel, ns: Text)
    requires
        !index.namespaces.by_ns.contains_key(ns),
    ensures
        ({
            let fresh = index.namespaces.get_or_default(ns);
            &&& fresh.pods == Map::<Text, PodModel>::empty()
            &&& fresh.external == Map::<Text, ExternalGroupModel>::empty()
            &&& fresh.policy.namespace == ns
            &&& fresh.policy.cluster == index.namespaces.cluster
            &&& fresh.policy.servers == Map::<Text, ServerModel>::empty()
            &&& fresh.policy.server_authorizations == Map::<Text, ServerAuthzModel>::empty()
            &&& fresh.policy.authorization_policies == Map::<Text, SpecModel>::empty()
            &&& fresh.policy.http_routes
                == Map::<GroupKindNameModel, RouteBindingModel>::empty()
        }),
{
}

/// In an index that is kept, a namespace that is known has a resource.
pub proof fn known_namespace_has_something(index: IndexModel, ns: Text)
    requires
        index.kept(),
        index.namespaces.by_ns.contains_key(ns),
    ensures
        ({
            let known = index.namespaces.by_ns[ns];
            ||| known.pods != Map::<Text, PodModel>::empty()
            ||| known.external != Map::<Text, ExternalGroupModel>::empty()
            ||| known.policy.servers != Map::<Text, ServerModel>::empty()
            ||| known.policy.server_authorizations != Map::<Text, ServerAuthzModel>::empty()
            ||| known.policy.authorization_policies != Map::<Text, SpecModel>::empty()
            ||| known.policy.http_routes
                != Map::<GroupKindNameModel, RouteBindingModel>::empty()
        }),
{
}

/// What is asked for a port of a pod is the configuration of the first server that
/// selects it, in the order in which the servers are met, with the probes that the
/// pod expects on that port; or, where no server selects it, the default.
pub proof fn first_server_that_selects_is_asked(
    pod: PodModel,
    policy: PolicyModel,
    authns: AuthenticationsModel,
    port: u16,
)
    ensures
        ({
            let paths = if pod.probes.contains_key(port) {
                pod.probes[port]
            } else {
                Seq::empty()
            };
            let walk = policy.walk;
            &&& forall|i: int|
                {
                    &&& 0 <= i < walk.len()
                    &&& pod.selected(policy, #[trigger] walk[i], port)
                    &&& forall|j: int|
                        0 <= j < i ==> !pod.selected(policy, #[trigger] walk[j], port)
                } ==> pod.asked(policy, authns, port) == policy.inbound_server(
                    walk[i],
                    policy.servers[walk[i]],
                    authns,
                    paths,
                )
            &&& (forall|i: int|
                0 <= i < walk.len() ==> !pod.selected(policy, #[trigger] walk[i], port))
                ==> pod.asked(policy, authns, port) == pod.default_server(port, policy.cluster)
        }),
{
    let walk = policy.walk;
    let f = pod.candidates(policy, port);
    first_is_one(f, walk.len());
    assert forall|i: int| 0 <= i < walk.len() implies (#[trigger] f(i) is Some) == pod.selected(
        policy,
        walk[i],
        port,
    ) by {}
    if first(walk.len(), f) is Some {
        let k = first_has_a_place(f, walk.len());
        assert(pod.selected(policy, walk[k], port));
        assert forall|i: int|
            {
                &&& 0 <= i < walk.len()
                &&& pod.selected(policy, #[trigger] walk[i], port)
                &&& forall|j: int| 0 <= j < i ==> !pod.selected(policy, #[trigger] walk[j], port)
            } implies i == k by {
            assert(f(i) is Some);
            if k < i {
                assert(!pod.selected(policy, walk[k], port));
            }
        }
    } else {
        assert forall|i: int| 0 <= i < walk.len() implies !pod.selected(
            policy,
            #[trigger] walk[i],
            port,
        ) by {
            assert(f(i) is None);
        }
    }
}

/// What is asked for a port of an external group is a configuration of its own if
/// the group lists the port, and else the default.
pub proof fn listed_port_is_asked(
    group: ExternalGroupModel,
    policy: PolicyModel,
    authns: AuthenticationsModel,
    name: Text,
    port: u16,
)
    ensures
        (exists|i: int| 0 <= i < group.ports.len() && #[trigger] group.ports[i] == port)
            ==> group.asked(policy, authns, name, port) == ExternalGroupModel::configured(
            policy,
            authns,
            name,
            port,
        ),
        (forall|i: int| 0 <= i < group.ports.len() ==> #[trigger] group.ports[i] != port)
            ==> group.asked(policy, authns, name, port) == group.default_server(
            port,
            policy.cluster,
        ),
{
}

/// In a consistent index every known port of a pod publishes what is asked for it,
/// with the policy resources of its namespace and all authentications as they are;
/// every port that a server selects is known; and a port goes by the name of its
/// server, or by none.
pub proof fn pod_publishes_what_is_asked(index: IndexModel, ns: Text, name: Text, port: u16)
    requires
        index.consistent(),
        index.namespaces.by_ns.contains_key(ns),
        index.namespaces.by_ns[ns].pods.contains_key(name),
    ensures
        ({
            let policy = index.namespaces.by_ns[ns].policy;
            let pod = index.namespaces.by_ns[ns].pods[name];
            let selects = |server: Text|
                policy.servers.contains_key(server) && pod.selected(policy, server, port);
            &&& pod.port_servers.contains_key(port) ==> {
                &&& pod.port_servers[port].channel.value == pod.asked(
                    policy,
                    index.authentications,
                    port,
                )
                &&& pod.port_servers[port].name matches Some(server) ==> selects(server)
                &&& pod.port_servers[port].name is None ==> forall|server: Text|
                    #![trigger policy.servers.contains_key(server)]
                    !selects(server)
            }
            &&& forall|server: Text|
                #![trigger policy.servers.contains_key(server)]
                selects(server) ==> pod.port_servers.contains_key(port)
            &&& policy.namespace == ns
            &&& policy.cluster == index.cluster
            &&& index.asked_of_pod(ns, name, port) == pod.asked(
                policy,
                index.authentications,
                port,
            )
        }),
{
    let policy = index.namespaces.by_ns[ns].policy;
    let pod = index.namespaces.by_ns[ns].pods[name];
    assert(index.namespaces.by_ns[ns].kept(ns, index.cluster));
    assert(index.namespaces.by_ns[ns].settled(index.authentications));
    assert(pod.port_settled(policy, index.authentications, port));
    pod.server_of_selects(policy, port);
}

/// In a consistent index every known port of an external group publishes what is
/// asked for it; every port that the group lists is known; and a port goes by the
/// name of the group exactly if the group lists it, and else by none.
pub proof fn group_publishes_what_is_asked(index: IndexModel, ns: Text, name: Text, port: u16)
    requires
        index.consistent(),
        index.namespaces.by_ns.contains_key(ns),
        index.namespaces.by_ns[ns].external.contains_key(name),
    ensures
        ({
            let policy = index.namespaces.by_ns[ns].policy;
            let group = index.namespaces.by_ns[ns].external[name];
            let listed = exists|i: int|
                0 <= i < group.ports.len() && #[trigger] group.ports[i] == port;
            &&& group.port_servers.contains_key(port) ==> {
                &&& group.port_servers[port].channel.value == group.asked(
                    policy,
                    index.authentications,
                    name,
                    port,
                )
                &&& group.port_servers[port].name == if listed {
                    Some(name)
                } else {
                    None
                }
            }
            &&& listed ==> group.port_servers.contains_key(port)
            &&& policy.namespace == ns
            &&& policy.cluster == index.cluster
            &&& index.asked_of_group(ns, name, port) == group.asked(
                policy,
                index.authentications,
                name,
                port,
            )
        }),
{
    let policy = index.namespaces.by_ns[ns].policy;
    let group = index.namespaces.by_ns[ns].external[name];
    assert(index.namespaces.by_ns[ns].kept(ns, index.cluster));
    assert(index.namespaces.by_ns[ns].settled(index.authentications));
    assert(group.port_settled(policy, index.authentications, name, port));
}

/// A pod that is configured anew stays what it was told to be, knows every port that
/// it knew, and comes to know the ports that a server selects and no others.
pub proof fn configured_pod_knows_its_ports(
    pod: PodModel,
    after: PodModel,
    policy: PolicyModel,
    authns: AuthenticationsModel,
    port: u16,
)
    requires
        policy.well_formed(),
        pod.reindexed(after, policy, authns),
    ensures
        after.meta == pod.meta,
        after.port_names == pod.port_names,
        after.probes == pod.probes,
        after.port_servers.contains_key(port) <==> pod.port_servers.contains_key(port)
            || exists|server: Text| #[trigger]
            policy.servers.contains_key(server) && pod.selected(policy, server, port),
        after.port_servers.contains_key(port) ==> after.port_servers[port].channel.value
            == pod.asked(policy, authns, port),
{
    assert(pod.port_reindexed(after.port_servers, policy, authns, port));
    pod.server_of_selects(policy, port);
}

/// An external group that is configured anew stays what it was told to be, knows
/// every port that it knew, and comes to know the ports that it lists and no others.
pub proof fn configured_group_knows_its_ports(
    group: ExternalGroupModel,
    after: ExternalGroupModel,
    policy: PolicyModel,
    authns: AuthenticationsModel,
    name: Text,
    port: u16,
)
    requires
        group.reindexed(after, policy, authns, name),
    ensures
        after.meta == group.meta,
        after.ports == group.ports,
        after.port_servers.contains_key(port) <==> group.port_servers.contains_key(port)
            || exists|i: int| 0 <= i < group.ports.len() && #[trigger] group.ports[i] == port,
        after.port_servers.contains_key(port) ==> after.port_servers[port].channel.value
            == group.asked(policy, authns, name, port),
{
    assert(group.port_reindexed(after.port_servers, policy, authns, name, port));
}

/// To ask for a port of a pod makes it known. One that was not known publishes the
/// default under no name, and nobody has been told anything yet; one that was is as
/// it was. So are all other ports, and what the pod was told to be.
pub proof fn asked_port_of_pod_is_known(
    pod: PodModel,
    after: PodModel,
    port: u16,
    cluster: ClusterInfoModel,
    other: u16,
)
    requires
        pod.port_discovered(after, port, cluster),
    ensures
        after.meta == pod.meta,
        after.port_names == pod.port_names,
        after.probes == pod.probes,
        after.port_servers.contains_key(port),
        !pod.port_servers.contains_key(port) ==> {
            &&& after.port_servers[port].name is None
            &&& after.port_servers[port].channel.value == pod.default_server(port, cluster)
            &&& after.port_servers[port].channel.updates == 0
        },
        other != port || pod.port_servers.contains_key(port) ==> after.port_servers.contains_key(
            other,
        ) == pod.port_servers.contains_key(other),
        pod.port_servers.contains_key(other) ==> after.port_servers[other]
            == pod.port_servers[other],
{
}

/// To ask for a port of an external group makes it known. One that was not known
/// publishes the default under no name, and nobody has been told anything yet; one
/// that was is as it was. So are all other ports, and what the group was told to be.
pub proof fn asked_port_of_group_is_known(
    group: ExternalGroupModel,
    after: ExternalGroupModel,
    port: u16,
    cluster: ClusterInfoModel,
    other: u16,
)
    requires
        group.port_discovered(after, port, cluster),
    ensures
        after.meta == group.meta,
        after.ports == group.ports,
        after.port_servers.contains_key(port),
        !group.port_servers.contains_key(port) ==> {
            &&& after.port_servers[port].name is None
            &&& after.port_servers[port].channel.value == group.default_server(port, cluster)
            &&& after.port_servers[port].channel.updates == 0
        },
        other != port || group.port_servers.contains_key(port) ==> after.port_servers.contains_key(
            other,
        ) == group.port_servers.contains_key(other),
        group.port_servers.contains_key(other) ==> after.port_servers[other]
            == group.port_servers[other],
{
}

/// Where a pod is replaced, no other pod is, nor anything else of the index.
pub proof fn replaced_pod_leaves_the_rest(
    index: IndexModel,
    ns: Text,
    name: Text,
    pod: PodModel,
    other_ns: Text,
    other: Text,
)
    requires
        index.namespaces.by_ns.contains_key(ns),
    ensures
        ({
            let after = index.with_pod(ns, name, pod);
            &&& after.cluster == index.cluster
            &&& after.authentications == index.authentications
            &&& after.namespaces.cluster == index.namespaces.cluster
            &&& after.namespaces.by_ns.contains_key(other_ns)
                == index.namespaces.by_ns.contains_key(other_ns)
            &&& index.namespaces.by_ns.contains_key(other_ns) ==> {
                let b = index.namespaces.by_ns[other_ns];
                let a = after.namespaces.by_ns[other_ns];
                &&& a.external == b.external
                &&& a.policy == b.policy
                &&& other_ns != ns || other != name ==> {
                    &&& a.pods.contains_key(other) == b.pods.contains_key(other)
                    &&& b.pods.contains_key(other) ==> a.pods[other] == b.pods[other]
                }
            }
            &&& after.namespaces.by_ns[ns].pods.contains_pair(name, pod)
        }),
{
}

/// Where an external group is replaced, no other group is, nor anything else of the
/// index.
pub proof fn replaced_group_leaves_the_rest(
    index: IndexModel,
    ns: Text,
    name: Text,
    group: ExternalGroupModel,
    other_ns: Text,
    other: Text,
)
    requires
        index.namespaces.by_ns.contains_key(ns),
    ensures
        ({
            let after = index.with_group(ns, name, group);
            &&& after.cluster == index.cluster
            &&& after.authentications == index.authentications
            &&& after.namespaces.cluster == index.namespaces.cluster
            &&& after.namespaces.by_ns.contains_key(other_ns)
                == index.namespaces.by_ns.contains_key(other_ns)
            &&& index.namespaces.by_ns.contains_key(other_ns) ==> {
                let b = index.namespaces.by_ns[other_ns];
                let a = after.namespaces.by_ns[other_ns];
                &&& a.pods == b.pods
                &&& a.policy == b.policy
                &&& other_ns != ns || other != name ==> {
                    &&& a.external.contains_key(other) == b.external.contains_key(other)
                    &&& b.external.contains_key(other) ==> a.external[other] == b.external[other]
                }
            }
            &&& after.namespaces.by_ns[ns].external.contains_pair(name, group)
        }),
{
}

/// A pod that is deleted is gone, and nothing else is: not another pod, an external
/// group or a policy resource of its namespace, unless the namespace is forgotten
/// because it had nothing but the pod; and nothing of another namespace.
pub proof fn deleted_pod_takes_nothing_along(
    before: IndexModel,
    after: IndexModel,
    ns: Text,
    name: Text,
    other_ns: Text,
    other: Text,
)
    requires
        before.pod_deleted(after, ns, name),
    ensures
        after.cluster == before.cluster,
        after.authentications == before.authentications,
        !(after.namespaces.by_ns.contains_key(ns) && after.namespaces.by_ns[ns].pods.contains_key(
            name,
        )),
        after.namespaces.by_ns.contains_key(other_ns) ==> before.namespaces.by_ns.contains_key(
            other_ns,
        ),
        before.namespaces.by_ns.contains_key(other_ns) ==> {
            let b = before.namespaces.by_ns[other_ns];
            let a = after.namespaces.by_ns[other_ns];
            &&& other_ns != ns ==> after.namespaces.by_ns.contains_key(other_ns) && a == b
            &&& after.namespaces.by_ns.contains_key(other_ns) ==> {
                &&& a.external == b.external
                &&& a.policy == b.policy
                &&& other_ns != ns || other != name ==> {
                    &&& a.pods.contains_key(other) == b.pods.contains_key(other)
                    &&& b.pods.contains_key(other) ==> a.pods[other] == b.pods[other]
                }
            }
            &&& !after.namespaces.by_ns.contains_key(other_ns) ==> {
                &&& other_ns == ns
                &&& b.pods.contains_key(name)
                &&& b.pods.remove(name) == Map::<Text, PodModel>::empty()
                &&& b.external == Map::<Text, ExternalGroupModel>::empty()
                &&& b.policy.servers == Map::<Text, ServerModel>::empty()
                &&& b.policy.server_authorizations == Map::<Text, ServerAuthzModel>::empty()
                &&& b.policy.authorization_policies == Map::<Text, SpecModel>::empty()
                &&& b.policy.http_routes
                    == Map::<GroupKindNameModel, RouteBindingModel>::empty()
            }
        },
{
    if other_ns != ns {
        assert(before.ns_same(after, other_ns));
    }
    assert(after.namespaces.by_ns.contains_key(other_ns) == (after.namespaces.by_ns.get(other_ns)
        is Some));
    assert(before.namespaces.by_ns.contains_key(other_ns) == (before.namespaces.by_ns.get(other_ns)
        is Some));
    if before.namespaces.by_ns.contains_key(ns) {
        assert(before.namespaces.by_ns.get(ns) == Some(before.namespaces.by_ns[ns]));
    }
    if after.namespaces.by_ns.contains_key(ns) {
        assert(after.namespaces.by_ns.get(ns) == Some(after.namespaces.by_ns[ns]));
    }
}

/// An external group that is deleted is gone, and nothing else is: not another
/// group, a pod or a policy resource of its namespace, unless the namespace is
/// forgotten because it had nothing but the group; and nothing of another namespace.
pub proof fn deleted_group_takes_nothing_along(
    before: IndexModel,
    after: IndexModel,
    ns: Text,
    name: Text,
    other_ns: Text,
    other: Text,
)
    requires
        before.group_deleted(after, ns, name),
    ensures
        after.cluster == before.cluster,
        after.authentications == before.authentications,
        !(after.namespaces.by_ns.contains_key(ns)
            && after.namespaces.by_ns[ns].external.contains_key(name)),
        after.namespaces.by_ns.contains_key(other_ns) ==> before.namespaces.by_ns.contains_key(
            other_ns,
        ),
        before.namespaces.by_ns.contains_key(other_ns) ==> {
            let b = before.namespaces.by_ns[other_ns];
            let a = after.namespaces.by_ns[other_ns];
            &&& other_ns != ns ==> after.namespaces.by_ns.contains_key(other_ns) && a == b
            &&& after.namespaces.by_ns.contains_key(other_ns) ==> {
                &&& a.pods == b.pods
                &&& a.policy == b.policy
                &&& other_ns != ns || other != name ==> {
                    &&& a.external.contains_key(other) == b.external.contains_key(other)
                    &&& b.external.contains_key(other) ==> a.external[other] == b.external[other]
                }
            }
            &&& !after.namespaces.by_ns.contains_key(other_ns) ==> {
                &&& other_ns == ns
                &&& b.external.contains_key(name)
                &&& b.external.remove(name) == Map::<Text, ExternalGroupModel>::empty()
                &&& b.pods == Map::<Text, PodModel>::empty()
                &&& b.policy.servers == Map::<Text, ServerModel>::empty()
                &&& b.policy.server_authorizations == Map::<Text, ServerAuthzModel>::empty()
                &&& b.policy.authorization_policies == Map::<Text, SpecModel>::empty()
                &&& b.policy.http_routes
                    == Map::<GroupKindNameModel, RouteBindingModel>::empty()
            }
        },
{
    if other_ns != ns {
        assert(before.ns_same(after, other_ns));
    }
    assert(after.namespaces.by_ns.contains_key(other_ns) == (after.namespaces.by_ns.get(other_ns)
        is Some));
    assert(before.namespaces.by_ns.contains_key(other_ns) == (before.namespaces.by_ns.get(other_ns)
        is Some));
    if before.namespaces.by_ns.contains_key(ns) {
        assert(before.namespaces.by_ns.get(ns) == Some(before.namespaces.by_ns[ns]));
    }
    if after.namespaces.by_ns.contains_key(ns) {
        assert(after.namespaces.by_ns.get(ns) == Some(after.namespaces.by_ns[ns]));
    }
}

/// What is left of a workload that is deleted is, for each of its known ports and
/// for no other, an end of its channel, closed, with what was published last.
pub proof fn closed_ends_hold_what_was_published(ports: Map<u16, PortServerModel>, port: u16)
    ensures
        closed_ends(ports).contains_key(port) <==> ports.contains_key(port),
        ports.contains_key(port) ==> {
            &&& !closed_ends(ports)[port].open
            &&& closed_ends(ports)[port].channel.id == ports[port].channel.id
            &&& closed_ends(ports)[port].channel.value == ports[port].channel.value
            &&& closed_ends(ports)[port].channel.updates == ports[port].channel.updates
        },
{
}

/// A port that comes to be configured publishes exactly what it is configured with.
/// It goes by the name of the resource that configures it or, under the default,
/// by none unless it published that already. Whoever followed it goes on following
/// it and is told if what is published changes; of a port that is new nobody has
/// been told anything yet.
pub proof fn configured_port_publishes(
    before: Option<PortServerModel>,
    after: PortServerModel,
    name: Text,
    server: InboundServerModel,
)
    ensures
        assigned(before, after, name, server) ==> after.name == Some(name),
        defaulted(before, after, server) ==> after.name is None || before == Some(after),
        assigned(before, after, name, server) || defaulted(before, after, server) ==> {
            &&& after.channel.value == server
            &&& before is None ==> after.channel.updates == 0
            &&& before matches Some(b) ==> {
                &&& after.channel.id == b.channel.id
                &&& b.channel.value != server ==> after.channel.updates == b.channel.updates + 1
                &&& after == b ==> after.channel.updates == b.channel.updates
                &&& after != b ==> after.channel.updates == b.channel.updates + 1
            }
        },
{
}

/// In an index that is kept, a namespace of which authentications are known has one.
pub proof fn namespace_of_authentications_has_one(index: IndexModel, ns: Text)
    requires
        index.kept(),
        index.authentications.contains_key(ns),
    ensures
        ({
            let known = index.authentications[ns];
            ||| known.meshtls != Map::<Text, Seq<IdentityMatchModel>>::empty()
            ||| known.network != Map::<Text, Seq<NetworkMatchModel>>::empty()
        }),
{
}

/// A server is put in the place of another exactly if that means something else or it
/// is forced, and what is there then means what was given.
pub proof fn replace_puts_the_server_in_place(
    current: &mut InboundServer,
    server: InboundServer,
    forced: bool,
    modified: bool,
)
    requires
        call_ensures(replace, (current, server, forced), modified),
    ensures
        modified <==> forced || old(current).deep_view() != server.deep_view(),
        final(current).deep_view() == server.deep_view(),
        !modified ==> final(current).deep_view() == old(current).deep_view(),
{
}

} // verus!
