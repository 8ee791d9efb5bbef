//! What the questions that an index answers are answered with: where a call has come
//! back, this holds of what it was asked and what it answered.
use crate::authentications::AuthenticationNsIndex;
use crate::authorization_policy::{AuthenticationTargetModel, Spec, TargetModel};
use crate::authz::{
    AuthorizationRef, AuthorizationRefModel, ClientAuthenticationModel, ClientAuthorization,
    IdentityMatch, IdentityMatchModel, IpNet, NetworkMatch, NetworkMatchModel,
};
use crate::cluster::{ClusterInfo, DefaultPolicy, InvalidPolicy};
use crate::inbound::{InboundServer, ServerRefModel};
use crate::labels::{Labels, Selector};
use crate::laws::authentications::{
    applied_meshtls_is_kept, applied_network_is_kept, deleted_meshtls_are_gone,
    deleted_network_is_gone, what_is_kept_is_found,
};
use crate::laws::authorizations::{
    legal_policy_is_unambiguous, meshtls_authentication_gives_its_identities,
    network_authentication_gives_its_networks, nothing_else_lets_clients_in,
    policy_lets_in_clients_of_routes, policy_lets_in_clients_of_workloads,
    policy_lets_in_its_clients, server_authorization_lets_in_its_clients,
    service_account_gives_its_identity, what_is_not_asked_is_not_required,
};
use crate::laws::defaults::{
    default_policy_is_annotated, default_policy_is_named_after_its_clients, labels_are_those_given,
    ports_are_annotated,
};
use crate::laws::routes::{
    attached_route_is_offered_whole, default_route_takes_every_request,
    default_routes_are_those_of_the_cluster, default_routes_stand_in, offered_route_is_attached,
    probe_route_takes_probes,
};
use crate::laws::selection::selector_asks_for_all;
use crate::meta::{Meta, ObjectMeta};
use crate::pod::{PodIndex, PortNamesChanged};
use crate::policy::{IllegalPolicy, PolicyIndex};
use crate::ports::{parse_portset, portset_of, InvalidPorts, PortSet};
use crate::route::{
    gkn_for_gateway_http_route, gkn_for_linkerd_http_route, GroupKindName, HttpRoute, HttpRouteRef,
    HttpRouteRefModel, ParentRefModel, PathMatchModel,
};
use crate::server::Server;
use crate::server_authorization::ServerSelectorModel;
use crate::table::{CodeTable, NameTable};
use crate::value::Text;
use vstd::prelude::*;

verus! {

/// A policy lets clients in exactly if all authentications that it asks for are kept
/// and it asks neither for two identities nor for two networks. Then it lets in, for
/// each that it asks for, exactly the identities or the networks that are kept under
/// that name, or the identity of the service account.
pub proof fn policy_client_authz_resolves_the_policy(
    policy: &PolicyIndex,
    spec: &Spec,
    authns: &AuthenticationNsIndex,
    r: Result<ClientAuthorization, IllegalPolicy>,
    target: AuthenticationTargetModel,
)
    requires
        call_ensures(PolicyIndex::policy_client_authz, (policy, spec, authns), r),
        spec.deep_view().authentications.contains(target),
    ensures
        r matches Ok(authz) ==> {
            let p = policy.deep_view();
            let all = authns.deep_view();
            match target {
                AuthenticationTargetModel::MeshTLS { namespace, name } => {
                    let ns = if namespace is Some {
                        namespace->0
                    } else {
                        p.namespace
                    };
                    &&& all.contains_key(ns)
                    &&& all[ns].meshtls.contains_key(name)
                    &&& authz.deep_view().authentication
                        == ClientAuthenticationModel::TlsAuthenticated(all[ns].meshtls[name])
                },
                AuthenticationTargetModel::Network { namespace, name } => {
                    let ns = if namespace is Some {
                        namespace->0
                    } else {
                        p.namespace
                    };
                    &&& all.contains_key(ns)
                    &&& all[ns].network.contains_key(name)
                    &&& authz.deep_view().networks == all[ns].network[name]
                },
                AuthenticationTargetModel::ServiceAccount { namespace, name } => {
                    let ns = if namespace is Some {
                        namespace->0
                    } else {
                        p.namespace
                    };
                    authz.deep_view().authentication == ClientAuthenticationModel::TlsAuthenticated(
                        seq![
                            IdentityMatchModel::Exact(
                                name + "."@ + ns + ".serviceaccount.identity."@
                                    + p.cluster.control_plane_ns + "."@ + p.cluster.identity_domain,
                            ),
                        ],
                    )
                },
            }
        },
{
    let p = policy.deep_view();
    let all = authns.deep_view();
    if r is Ok {
        match target {
            AuthenticationTargetModel::MeshTLS { namespace, name } => {
                meshtls_authentication_gives_its_identities(
                    p,
                    spec.deep_view(),
                    all,
                    namespace,
                    name,
                );
            },
            AuthenticationTargetModel::Network { namespace, name } => {
                network_authentication_gives_its_networks(
                    p,
                    spec.deep_view(),
                    all,
                    namespace,
                    name,
                );
            },
            AuthenticationTargetModel::ServiceAccount { namespace, name } => {
                service_account_gives_its_identity(p, spec.deep_view(), all, namespace, name);
            },
        }
    }
}

/// A policy that asks for nothing lets in everyone, from everywhere.
pub proof fn policy_without_authentications_is_open(
    policy: &PolicyIndex,
    spec: &Spec,
    authns: &AuthenticationNsIndex,
    r: Result<ClientAuthorization, IllegalPolicy>,
)
    requires
        call_ensures(PolicyIndex::policy_client_authz, (policy, spec, authns), r),
        spec.deep_view().authentications.len() == 0,
    ensures
        r matches Ok(authz) && {
            &&& authz.deep_view().authentication == ClientAuthenticationModel::Unauthenticated
            &&& authz.deep_view().networks == seq![
                NetworkMatchModel { net: IpNet::V4 { addr: 0, prefix: 0 }, except: Seq::empty() },
                NetworkMatchModel { net: IpNet::V6 { addr: 0, prefix: 0 }, except: Seq::empty() },
            ]
        },
{
    legal_policy_is_unambiguous(policy.deep_view(), spec.deep_view(), authns.deep_view());
    what_is_not_asked_is_not_required(policy.deep_view(), spec.deep_view(), authns.deep_view());
}

/// A server is talked to under each `ServerAuthorization` that selects it, with what
/// that gives, and under each legal policy that targets it or its namespace, with
/// what that resolves to; and under nothing else.
pub proof fn client_authzs_are_those_of_the_server(
    policy: &PolicyIndex,
    name: &String,
    server: &Server,
    authns: &AuthenticationNsIndex,
    r: CodeTable<AuthorizationRef, ClientAuthorization>,
    by: AuthorizationRefModel,
)
    requires
        call_ensures(PolicyIndex::client_authzs, (policy, name, server, authns), r),
    ensures
        ({
            let p = policy.deep_view();
            let authzs = r.deep_view();
            match by {
                AuthorizationRefModel::Default(_) => !authzs.contains_key(by),
                AuthorizationRefModel::ServerAuthorization(saz) => {
                    &&& authzs.contains_key(by) <==> p.server_authorizations.contains_key(saz)
                        && match p.server_authorizations[saz].server_selector {
                        ServerSelectorModel::Name(wanted) => wanted == name@,
                        ServerSelectorModel::Selector(selector) => selector.matches(
                            server.deep_view().labels,
                        ),
                    }
                    &&& authzs.contains_key(by) ==> authzs[by]
                        == p.server_authorizations[saz].authz
                },
                AuthorizationRefModel::AuthorizationPolicy(authz) => {
                    let spec = p.authorization_policies[authz];
                    let resolved = p.policy_client_authz(spec, authns.deep_view());
                    &&& authzs.contains_key(by) <==> {
                        &&& p.authorization_policies.contains_key(authz)
                        &&& spec.target == TargetModel::Server(name@) || spec.target
                            == TargetModel::Namespace
                        &&& resolved is Ok
                    }
                    &&& authzs.contains_key(by) ==> authzs[by] == resolved->Ok_0
                },
            }
        }),
{
    let p = policy.deep_view();
    let s = server.deep_view();
    let all = authns.deep_view();
    match by {
        AuthorizationRefModel::Default(other) => {
            let gkn = crate::route::GroupKindNameModel {
                group: other,
                kind: other,
                name: other,
            };
            nothing_else_lets_clients_in(p, name@, s, 0, gkn, all, other);
        },
        AuthorizationRefModel::ServerAuthorization(saz) => {
            server_authorization_lets_in_its_clients(p, name@, s, all, saz);
        },
        AuthorizationRefModel::AuthorizationPolicy(authz) => {
            policy_lets_in_its_clients(p, name@, s, all, authz);
        },
    }
}

/// A port of an external group is talked to under each legal policy that targets it
/// or its namespace, with what that resolves to; and under nothing else.
pub proof fn workload_authzs_are_those_of_the_port(
    policy: &PolicyIndex,
    name: &String,
    port: u16,
    authns: &AuthenticationNsIndex,
    r: CodeTable<AuthorizationRef, ClientAuthorization>,
    by: AuthorizationRefModel,
)
    requires
        call_ensures(PolicyIndex::workload_authzs, (policy, name, port, authns), r),
    ensures
        ({
            let p = policy.deep_view();
            let authzs = r.deep_view();
            match by {
                AuthorizationRefModel::AuthorizationPolicy(authz) => {
                    let spec = p.authorization_policies[authz];
                    let resolved = p.policy_client_authz(spec, authns.deep_view());
                    &&& authzs.contains_key(by) <==> {
                        &&& p.authorization_policies.contains_key(authz)
                        &&& spec.target == TargetModel::ExternalGroup((name@, Some(port)))
                            || spec.target == TargetModel::Namespace
                        &&& resolved is Ok
                    }
                    &&& authzs.contains_key(by) ==> authzs[by] == resolved->Ok_0
                },
                _ => !authzs.contains_key(by),
            }
        }),
{
    if let AuthorizationRefModel::AuthorizationPolicy(authz) = by {
        policy_lets_in_clients_of_workloads(
            policy.deep_view(),
            name@,
            port,
            authns.deep_view(),
            authz,
        );
    }
}

/// A route is used under each legal policy that targets a route of its name, with
/// what that resolves to; and under nothing else.
pub proof fn route_client_authzs_are_those_of_the_route(
    policy: &PolicyIndex,
    gkn: &GroupKindName,
    authns: &AuthenticationNsIndex,
    r: CodeTable<AuthorizationRef, ClientAuthorization>,
    by: AuthorizationRefModel,
)
    requires
        call_ensures(PolicyIndex::route_client_authzs, (policy, gkn, authns), r),
    ensures
        ({
            let p = policy.deep_view();
            let authzs = r.deep_view();
            match by {
                AuthorizationRefModel::AuthorizationPolicy(authz) => {
                    let spec = p.authorization_policies[authz];
                    let resolved = p.policy_client_authz(spec, authns.deep_view());
                    &&& authzs.contains_key(by) <==> {
                        &&& p.authorization_policies.contains_key(authz)
                        &&& spec.target matches TargetModel::HttpRoute(target) && target.matches(
                            gkn.deep_view(),
                        )
                        &&& resolved is Ok
                    }
                    &&& authzs.contains_key(by) ==> authzs[by] == resolved->Ok_0
                },
                _ => !authzs.contains_key(by),
            }
        }),
{
    if let AuthorizationRefModel::AuthorizationPolicy(authz) = by {
        policy_lets_in_clients_of_routes(
            policy.deep_view(),
            gkn.deep_view(),
            authns.deep_view(),
            authz,
        );
    }
}

/// A server offers each route resource that asks for it and that it has accepted, with
/// the hosts, the rules and the time of creation of the resource and with who may use
/// it by the policies; and no other.
pub proof fn http_routes_offer_what_is_attached(
    policy: &PolicyIndex,
    name: &String,
    authns: &AuthenticationNsIndex,
    probe_paths: &Vec<String>,
    r: CodeTable<HttpRouteRef, HttpRoute>,
    gkn: crate::route::GroupKindNameModel,
)
    requires
        call_ensures(PolicyIndex::http_routes, (policy, name, authns, probe_paths), r),
    ensures
        ({
            let p = policy.deep_view();
            let routes = r.deep_view();
            let reference = HttpRouteRefModel::Linkerd(gkn);
            let parent = ParentRefModel::Server(name@);
            let binding = p.http_routes[gkn];
            &&& routes.contains_key(reference) <==> {
                &&& p.http_routes.contains_key(gkn)
                &&& exists|i: int|
                    0 <= i < binding.parents.len() && #[trigger] binding.parents[i] == parent
                &&& exists|i: int|
                    0 <= i < binding.statuses.len() && (#[trigger] binding.statuses[i]).parent
                        == parent && binding.statuses[i].accepted
            }
            &&& routes.contains_key(reference) ==> {
                &&& routes[reference].hostnames == binding.route.hostnames
                &&& routes[reference].rules == binding.route.rules
                &&& routes[reference].creation_timestamp == binding.route.creation_timestamp
                &&& routes[reference].authorizations == p.route_client_authzs(
                    gkn,
                    authns.deep_view(),
                )
            }
        }),
{
    let p = policy.deep_view();
    let all = authns.deep_view();
    let paths = probe_paths.deep_view();
    let parent = ParentRefModel::Server(name@);
    let binding = p.http_routes[gkn];
    if r.deep_view().contains_key(HttpRouteRefModel::Linkerd(gkn)) {
        offered_route_is_attached(p, name@, all, paths, gkn);
    }
    if p.http_routes.contains_key(gkn) && (exists|i: int|
        0 <= i < binding.parents.len() && #[trigger] binding.parents[i] == parent) && (exists|
        i: int,
    |
        0 <= i < binding.statuses.len() && (#[trigger] binding.statuses[i]).parent == parent
            && binding.statuses[i].accepted) {
        let i = choose|i: int|
            0 <= i < binding.parents.len() && #[trigger] binding.parents[i] == parent;
        let j = choose|j: int|
            0 <= j < binding.statuses.len() && (#[trigger] binding.statuses[j]).parent == parent
                && binding.statuses[j].accepted;
        attached_route_is_offered_whole(p, name@, all, paths, gkn, i, j);
    }
}

/// A server to which no route resource is attached offers a route for every request
/// and, where probes are expected and may come from somewhere, one for them. One to
/// which some are attached offers neither.
pub proof fn http_routes_offer_defaults_instead(
    policy: &PolicyIndex,
    name: &String,
    authns: &AuthenticationNsIndex,
    probe_paths: &Vec<String>,
    r: CodeTable<HttpRouteRef, HttpRoute>,
    default: Text,
)
    requires
        call_ensures(PolicyIndex::http_routes, (policy, name, authns, probe_paths), r),
    ensures
        ({
            let p = policy.deep_view();
            let routes = r.deep_view();
            let route = routes[HttpRouteRefModel::Default(default)];
            let attached = exists|gkn: crate::route::GroupKindNameModel| #[trigger]
                p.http_routes.contains_key(gkn) && p.http_routes[gkn].selects_server(name@)
                    && p.http_routes[gkn].accepted_by_server(name@);
            &&& routes.contains_key(HttpRouteRefModel::Default(default)) <==> !attached && (default
                == "default"@ || (default == "probe"@ && p.cluster.probe_networks.len() > 0
                && probe_paths.deep_view().len() > 0))
            &&& default == "default"@ && !attached ==> {
                &&& route.rules.len() == 1
                &&& route.rules[0].matches.len() == 1
                &&& route.rules[0].matches[0].path == Some(PathMatchModel::Prefix("/"@))
                &&& route.rules[0].matches[0].method is None
            }
            &&& default == "probe"@ && routes.contains_key(HttpRouteRefModel::Default(default))
                ==> {
                &&& route.rules.len() == 1
                &&& route.rules[0].matches.len() == probe_paths.deep_view().len()
                &&& forall|i: int|
                    0 <= i < probe_paths.deep_view().len()
                        ==> (#[trigger] route.rules[0].matches[i]).path == Some(
                        PathMatchModel::Exact(probe_paths.deep_view()[i]),
                    )
            }
        }),
{
    let p = policy.deep_view();
    let paths = probe_paths.deep_view();
    default_routes_stand_in(p, name@, authns.deep_view(), paths, default);
    default_route_takes_every_request(p.cluster, paths);
    if r.deep_view().contains_key(HttpRouteRefModel::Default(default)) {
        default_routes_are_those_of_the_cluster(p, name@, authns.deep_view(), paths, default);
    }
    reveal_strlit("default");
    reveal_strlit("probe");
    assert("default"@.len() != "probe"@.len());
    if p.cluster.probe_networks.len() > 0 && paths.len() > 0 {
        probe_route_takes_probes(p.cluster, paths);
    }
}

/// A port that a server selects publishes that server: its name, its protocol, who may
/// talk to it and what it offers.
pub proof fn inbound_server_is_that_of_the_server(
    policy: &PolicyIndex,
    name: String,
    server: &Server,
    authns: &AuthenticationNsIndex,
    probe_paths: &Vec<String>,
    r: InboundServer,
    authzs: CodeTable<AuthorizationRef, ClientAuthorization>,
    routes: CodeTable<HttpRouteRef, HttpRoute>,
)
    requires
        call_ensures(
            PolicyIndex::inbound_server,
            (policy, name, server, authns, probe_paths),
            r,
        ),
        call_ensures(PolicyIndex::client_authzs, (policy, &name, server, authns), authzs),
        call_ensures(PolicyIndex::http_routes, (policy, &name, authns, probe_paths), routes),
    ensures
        r.deep_view().reference == ServerRefModel::Server(name@),
        r.deep_view().protocol == server.protocol,
        r.deep_view().authorizations == authzs.deep_view(),
        r.deep_view().http_routes == routes.deep_view(),
{
}

/// An authentication is answered with exactly if it is kept, and then with what is
/// kept.
pub proof fn authentications_are_looked_up(
    authns: &AuthenticationNsIndex,
    namespace: &String,
    name: &String,
    ids: Option<&Vec<IdentityMatch>>,
    nets: Option<&Vec<NetworkMatch>>,
)
    ensures
        ({
            let all = authns.deep_view();
            let (ns, n) = (namespace@, name@);
            &&& call_ensures(AuthenticationNsIndex::meshtls, (authns, namespace, name), ids) ==> {
                &&& ids is Some <==> all.contains_key(ns) && all[ns].meshtls.contains_key(n)
                &&& ids is Some ==> ids->0.deep_view() == all[ns].meshtls[n]
            }
            &&& call_ensures(AuthenticationNsIndex::network, (authns, namespace, name), nets) ==> {
                &&& nets is Some <==> all.contains_key(ns) && all[ns].network.contains_key(n)
                &&& nets is Some ==> nets->0.deep_view() == all[ns].network[n]
            }
        }),
{
    what_is_kept_is_found(authns.deep_view(), namespace@, name@);
}

/// A `MeshTLSAuthentication` that is set is kept, and every other one as it was. It is
/// told whether that changed anything.
pub proof fn update_meshtls_sets_one(
    authns: &mut AuthenticationNsIndex,
    namespace: String,
    name: String,
    ids: Vec<IdentityMatch>,
    changed: bool,
    other_ns: Text,
    other: Text,
)
    requires
        call_ensures(
            AuthenticationNsIndex::update_meshtls,
            (authns, namespace, name, ids),
            changed,
        ),
    ensures
        ({
            let before = old(authns).deep_view();
            let after = final(authns).deep_view();
            let was_kept = before.contains_key(other_ns) && before[other_ns].meshtls.contains_key(
                other,
            );
            &&& after.contains_key(namespace@)
            &&& after[namespace@].meshtls.contains_pair(name@, ids.deep_view())
            &&& other_ns != namespace@ || other != name@ ==> {
                &&& (after.contains_key(other_ns) && after[other_ns].meshtls.contains_key(other))
                    == was_kept
                &&& was_kept ==> after[other_ns].meshtls[other] == before[other_ns].meshtls[other]
            }
            &&& changed <==> after != before
        }),
{
    applied_meshtls_is_kept(
        old(authns).deep_view(),
        namespace@,
        name@,
        ids.deep_view(),
        other_ns,
        other,
    );
}

/// A `NetworkAuthentication` that is set is kept, and every other one as it was. It is
/// told whether that changed anything.
pub proof fn update_network_sets_one(
    authns: &mut AuthenticationNsIndex,
    namespace: String,
    name: String,
    nets: Vec<NetworkMatch>,
    changed: bool,
    other_ns: Text,
    other: Text,
)
    requires
        call_ensures(
            AuthenticationNsIndex::update_network,
            (authns, namespace, name, nets),
            changed,
        ),
    ensures
        ({
            let before = old(authns).deep_view();
            let after = final(authns).deep_view();
            let was_kept = before.contains_key(other_ns) && before[other_ns].network.contains_key(
                other,
            );
            &&& after.contains_key(namespace@)
            &&& after[namespace@].network.contains_pair(name@, nets.deep_view())
            &&& other_ns != namespace@ || other != name@ ==> {
                &&& (after.contains_key(other_ns) && after[other_ns].network.contains_key(other))
                    == was_kept
                &&& was_kept ==> after[other_ns].network[other] == before[other_ns].network[other]
            }
            &&& changed <==> after != before
        }),
{
    applied_network_is_kept(
        old(authns).deep_view(),
        namespace@,
        name@,
        nets.deep_view(),
        other_ns,
        other,
    );
}

/// The pod that is handed out after an update is the one of that name, with the
/// metadata given. It is refused exactly if it is known by other port names, and none
/// is handed out exactly if it is known with that metadata already. Other pods are as
/// they were, whatever is done to the one that is handed out.
pub proof fn update_hands_out_the_pod(
    pods: &mut PodIndex,
    name: &String,
    meta: Meta,
    port_names: NameTable<PortSet>,
    probes: crate::table::PortTable<Vec<String>>,
    r: Result<Option<&mut crate::pod::Pod>, PortNamesChanged>,
    other: Text,
)
    requires
        call_ensures(PodIndex::update, (pods, name, meta, port_names, probes), r),
    ensures
        ({
            let before = old(pods).deep_view();
            let after = final(pods).deep_view();
            let known = before.contains_key(name@);
            let was = before[name@];
            &&& r is Err <==> known && was.port_names != port_names.deep_view()
            &&& r is Ok && r->Ok_0 is None <==> known && was.port_names == port_names.deep_view()
                && was.meta == meta.deep_view()
            &&& r matches Ok(Some(pod)) ==> {
                &&& pod.deep_view().meta == meta.deep_view()
                &&& pod.deep_view().port_names == port_names.deep_view()
                &&& pod.deep_view().probes == if known {
                    was.probes
                } else {
                    probes.deep_view()
                }
                &&& known ==> pod.deep_view().port_servers == was.port_servers
                &&& after.contains_key(name@)
            }
            &&& other != name@ ==> after.contains_key(other) == before.contains_key(other)
            &&& other != name@ && before.contains_key(other) ==> after[other] == before[other]
        }),
{
}

/// Route resources of the two APIs go by the name given, as routes of their group, and
/// never by the same name.
pub proof fn routes_are_named_by_their_api(
    name: String,
    linkerd: GroupKindName,
    other: String,
    gateway: GroupKindName,
)
    requires
        call_ensures(gkn_for_linkerd_http_route, (name,), linkerd),
        call_ensures(gkn_for_gateway_http_route, (other,), gateway),
    ensures
        linkerd.deep_view().name == name@,
        gateway.deep_view().name == other@,
        linkerd.deep_view().group == "policy.linkerd.io"@,
        gateway.deep_view().group == "gateway.networking.k8s.io"@,
        linkerd.deep_view().kind == "HTTPRoute"@,
        gateway.deep_view().kind == "HTTPRoute"@,
        linkerd.deep_view() != gateway.deep_view(),
{
    reveal_strlit("policy.linkerd.io");
    reveal_strlit("gateway.networking.k8s.io");
    assert("policy.linkerd.io"@.len() != "gateway.networking.k8s.io"@.len());
}

/// The name of a default policy says from where and how it lets clients in, and is read
/// as that policy.
pub proof fn default_policy_reads_its_name(
    authenticated_only: bool,
    cluster_only: bool,
    name: &'static str,
    read: Result<DefaultPolicy, InvalidPolicy>,
)
    requires
        call_ensures(
            DefaultPolicy::as_str,
            (&DefaultPolicy::Allow { authenticated_only, cluster_only },),
            name,
        ),
        call_ensures(DefaultPolicy::parse, (name,), read),
    ensures
        name@ == (if cluster_only {
            "cluster-"@
        } else {
            "all-"@
        }) + (if authenticated_only {
            "authenticated"@
        } else {
            "unauthenticated"@
        }),
        read == Ok::<_, InvalidPolicy>(DefaultPolicy::Allow { authenticated_only, cluster_only }),
{
    default_policy_is_named_after_its_clients(authenticated_only, cluster_only);
}

/// The identity of a service account is its name in its namespace, as the control plane
/// hands it out.
pub proof fn service_account_identity_is_by_name(
    cluster: &ClusterInfo,
    namespace: &str,
    name: &str,
    r: String,
)
    requires
        call_ensures(ClusterInfo::service_account_identity, (cluster, namespace, name), r),
    ensures
        r@ == name@ + "."@ + namespace@ + ".serviceaccount.identity."@ + cluster.control_plane_ns@
            + "."@ + cluster.identity_domain@,
{
}

/// What is known of a workload from its metadata are its labels, the default policy that
/// it is annotated with, and the ports that it is annotated to be opaque or to ask for
/// an identity.
pub proof fn metadata_is_read(
    metadata: ObjectMeta,
    r: Meta,
    key: Text,
    policy: DefaultPolicy,
    port: u16,
)
    requires
        call_ensures(Meta::from_metadata, (metadata,), r),
    ensures
        ({
            let given = metadata.deep_view();
            let meta = r.deep_view();
            let listed = |annotation: Text|
                {
                    &&& given.annotations is Some
                    &&& given.annotations->0.contains_key(annotation)
                    &&& portset_of(given.annotations->0[annotation]) is Some
                    &&& portset_of(given.annotations->0[annotation])->0.contains(port)
                };
            &&& meta.labels.contains_key(key) <==> given.labels is Some
                && given.labels->0.contains_key(key)
            &&& meta.labels.contains_key(key) ==> meta.labels[key] == given.labels->0[key]
            &&& meta.settings.default_policy == Some(policy) <==> given.annotations is Some
                && given.annotations->0.contains_pair(
                "config.linkerd.io/default-inbound-policy"@,
                policy.name(),
            )
            &&& meta.settings.opaque_ports.contains(port) <==> listed(
                "config.linkerd.io/opaque-ports"@,
            )
            &&& meta.settings.require_id_ports.contains(port) <==> listed(
                "config.linkerd.io/proxy-require-identity-inbound-ports"@,
            )
        }),
{
    labels_are_those_given(metadata.deep_view(), key);
    default_policy_is_annotated(metadata.deep_view(), policy);
    ports_are_annotated(metadata.deep_view(), port);
}

/// A list of ports is read exactly if it is well formed, and then as the ports that it
/// means.
pub proof fn port_list_is_read(s: &str, r: Result<PortSet, InvalidPorts>, port: u16)
    requires
        call_ensures(parse_portset, (s,), r),
    ensures
        r is Ok <==> portset_of(s@) is Some,
        r matches Ok(ports) ==> (ports.deep_view().contains(port) <==> portset_of(
            s@,
        )->0.contains(port)),
{
}

/// A selector picks labels exactly if they have every label that it names, with its
/// value, and meet every expression.
pub proof fn selector_picks_by_all(selector: &Selector, labels: &Labels, r: bool)
    requires
        call_ensures(Selector::matches, (selector, labels), r),
    ensures
        ({
            let s = selector.deep_view();
            let l = labels.deep_view();
            r <==> {
                &&& forall|key: Text| #[trigger]
                    s.match_labels.contains_key(key) ==> l.contains_pair(key, s.match_labels[key])
                &&& forall|i: int|
                    0 <= i < s.match_expressions.len()
                        ==> (#[trigger] s.match_expressions[i]).matches(l)
            }
        }),
{
    selector_asks_for_all(selector.deep_view(), labels.deep_view());
}

/// An authentication that is deleted is not kept. Nothing else goes with it.
pub proof fn authentications_are_deleted(
    authns: &mut AuthenticationNsIndex,
    namespace: &String,
    name: &String,
    deleted: NameTable<Vec<String>>,
    known: bool,
    ns: Text,
    n: Text,
)
    ensures
        ({
            let before = old(authns).deep_view();
            let after = final(authns).deep_view();
            let had_ids = before.contains_key(ns) && before[ns].meshtls.contains_key(n);
            let had_nets = before.contains_key(ns) && before[ns].network.contains_key(n);
            let has_ids = after.contains_key(ns) && after[ns].meshtls.contains_key(n);
            let has_nets = after.contains_key(ns) && after[ns].network.contains_key(n);
            let gone = deleted.deep_view();
            &&& call_ensures(
                AuthenticationNsIndex::delete_network,
                (authns, namespace, name),
                known,
            ) ==> {
                &&& has_nets <==> had_nets && !(ns == namespace@ && n == name@)
                &&& has_nets ==> after[ns].network[n] == before[ns].network[n]
                &&& has_ids == had_ids
                &&& has_ids ==> after[ns].meshtls[n] == before[ns].meshtls[n]
                &&& known <==> before.contains_key(namespace@)
            }
            &&& call_ensures(AuthenticationNsIndex::delete_meshtls, (authns, deleted), ()) ==> {
                &&& has_ids <==> had_ids && !(gone.contains_key(ns) && exists|i: int|
                    0 <= i < gone[ns].len() && #[trigger] gone[ns][i] == n)
                &&& has_ids ==> after[ns].meshtls[n] == before[ns].meshtls[n]
                &&& has_nets == had_nets
                &&& has_nets ==> after[ns].network[n] == before[ns].network[n]
            }
        }),
{
    deleted_network_is_gone(old(authns).deep_view(), namespace@, name@, ns, n);
    deleted_meshtls_are_gone(old(authns).deep_view(), deleted.deep_view(), ns, n);
}

} // verus!
