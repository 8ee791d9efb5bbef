//! Who is let in, by which authorization.
use crate::authentications::AuthenticationsModel;
use crate::authorization_policy::{AuthenticationTargetModel, SpecModel, TargetModel};
use crate::authz::{
    AuthorizationRefModel, ClientAuthenticationModel, IdentityMatchModel, IpNet, NetworkMatchModel,
};
use crate::policy::{IllegalPolicyModel, PolicyModel};
use crate::route::GroupKindNameModel;
use crate::search::{first, first_has_a_place, first_is_one};
use crate::server::ServerModel;
use crate::server_authorization::ServerSelectorModel;
use crate::value::Text;
use vstd::prelude::*;

verus! {

/// A policy that asks for a `MeshTLSAuthentication` lets in exactly the identities
/// that are kept under that name, in the namespace given or else in that of the
/// policy.
pub proof fn meshtls_authentication_gives_its_identities(
    policy: PolicyModel,
    spec: SpecModel,
    authns: AuthenticationsModel,
    namespace: Option<Text>,
    name: Text,
)
    requires
        policy.policy_client_authz(spec, authns) is Ok,
        spec.authentications.contains(AuthenticationTargetModel::MeshTLS { namespace, name }),
    ensures
        ({
            let ns = if namespace is Some {
                namespace->0
            } else {
                policy.namespace
            };
            &&& authns.contains_key(ns)
            &&& authns[ns].meshtls.contains_key(name)
            &&& policy.policy_client_authz(spec, authns)->Ok_0.authentication
                == ClientAuthenticationModel::TlsAuthenticated(authns[ns].meshtls[name])
        }),
{
    let targets = spec.authentications;
    let target = AuthenticationTargetModel::MeshTLS { namespace, name };
    let i = choose|i: int| 0 <= i < targets.len() && targets[i] == target;
    policy.authorizes_if_legal(spec, authns);
    policy.authorizes_what_is_asked(spec, authns);
    assert(policy.found(targets[i], authns));
    assert(crate::policy::asks_for_identity(targets[i]));
}

/// A policy that asks for a service account lets in exactly its identity: that of
/// its name in the namespace given, or else in that of the policy, as the control
/// plane of the cluster hands it out.
pub proof fn service_account_gives_its_identity(
    policy: PolicyModel,
    spec: SpecModel,
    authns: AuthenticationsModel,
    namespace: Option<Text>,
    name: Text,
)
    requires
        policy.policy_client_authz(spec, authns) is Ok,
        spec.authentications.contains(
            AuthenticationTargetModel::ServiceAccount { namespace, name },
        ),
    ensures
        ({
            let ns = if namespace is Some {
                namespace->0
            } else {
                policy.namespace
            };
            let identity = name + "."@ + ns + ".serviceaccount.identity."@
                + policy.cluster.control_plane_ns + "."@ + policy.cluster.identity_domain;
            policy.policy_client_authz(spec, authns)->Ok_0.authentication
                == ClientAuthenticationModel::TlsAuthenticated(
                seq![IdentityMatchModel::Exact(identity)],
            )
        }),
{
    let targets = spec.authentications;
    let target = AuthenticationTargetModel::ServiceAccount { namespace, name };
    let i = choose|i: int| 0 <= i < targets.len() && targets[i] == target;
    policy.authorizes_what_is_asked(spec, authns);
    assert(crate::policy::asks_for_identity(targets[i]));
}

/// A policy that asks for a `NetworkAuthentication` lets in exactly the networks
/// that are kept under that name, in the namespace given or else in that of the
/// policy.
pub proof fn network_authentication_gives_its_networks(
    policy: PolicyModel,
    spec: SpecModel,
    authns: AuthenticationsModel,
    namespace: Option<Text>,
    name: Text,
)
    requires
        policy.policy_client_authz(spec, authns) is Ok,
        spec.authentications.contains(AuthenticationTargetModel::Network { namespace, name }),
    ensures
        ({
            let ns = if namespace is Some {
                namespace->0
            } else {
                policy.namespace
            };
            &&& authns.contains_key(ns)
            &&& authns[ns].network.contains_key(name)
            &&& policy.policy_client_authz(spec, authns)->Ok_0.networks == authns[ns].network[name]
        }),
{
    let targets = spec.authentications;
    let target = AuthenticationTargetModel::Network { namespace, name };
    let i = choose|i: int| 0 <= i < targets.len() && targets[i] == target;
    policy.authorizes_if_legal(spec, authns);
    policy.authorizes_what_is_asked(spec, authns);
    assert(policy.found(targets[i], authns));
    assert(targets[i] is Network);
}

/// A policy that asks for no identity does not ask for authentication at all, and
/// one that asks for no network lets in the two networks that hold every address,
/// without exceptions.
pub proof fn what_is_not_asked_is_not_required(
    policy: PolicyModel,
    spec: SpecModel,
    authns: AuthenticationsModel,
)
    requires
        policy.policy_client_authz(spec, authns) is Ok,
    ensures
        ({
            let targets = spec.authentications;
            let authz = policy.policy_client_authz(spec, authns)->Ok_0;
            &&& (forall|i: int| 0 <= i < targets.len() ==> #[trigger] targets[i] is Network)
                ==> authz.authentication == ClientAuthenticationModel::Unauthenticated
            &&& (forall|i: int| 0 <= i < targets.len() ==> !(#[trigger] targets[i] is Network))
                ==> authz.networks == seq![
                NetworkMatchModel { net: IpNet::V4 { addr: 0, prefix: 0 }, except: Seq::empty() },
                NetworkMatchModel { net: IpNet::V6 { addr: 0, prefix: 0 }, except: Seq::empty() },
            ]
        }),
{
    policy.authorizes_what_is_asked(spec, authns);
}

/// A policy is legal exactly if every `MeshTLSAuthentication` and every
/// `NetworkAuthentication` that it asks for is kept, and it asks neither for two
/// identities nor for two networks.
pub proof fn legal_policy_is_unambiguous(
    policy: PolicyModel,
    spec: SpecModel,
    authns: AuthenticationsModel,
)
    ensures
        policy.policy_client_authz(spec, authns) is Ok <==> {
            let targets = spec.authentications;
            &&& forall|i: int|
                0 <= i < targets.len() ==> match #[trigger] targets[i] {
                    AuthenticationTargetModel::MeshTLS { namespace: Some(ns), name } => {
                        authns.contains_key(ns) && authns[ns].meshtls.contains_key(name)
                    },
                    AuthenticationTargetModel::MeshTLS { namespace: None, name } => {
                        authns.contains_key(policy.namespace)
                            && authns[policy.namespace].meshtls.contains_key(name)
                    },
                    AuthenticationTargetModel::Network { namespace: Some(ns), name } => {
                        authns.contains_key(ns) && authns[ns].network.contains_key(name)
                    },
                    AuthenticationTargetModel::Network { namespace: None, name } => {
                        authns.contains_key(policy.namespace)
                            && authns[policy.namespace].network.contains_key(name)
                    },
                    AuthenticationTargetModel::ServiceAccount { .. } => true,
                }
            &&& forall|i: int, j: int|
                0 <= i < j < targets.len() ==> {
                    ||| #[trigger] targets[i] is Network && !(#[trigger] targets[j] is Network)
                    ||| !(targets[i] is Network) && targets[j] is Network
                }
        },
{
    let targets = spec.authentications;
    policy.authorizes_if_legal(spec, authns);
    assert forall|i: int| 0 <= i < targets.len() implies policy.found(#[trigger] targets[i], authns)
        == match targets[i] {
        AuthenticationTargetModel::MeshTLS { namespace: Some(ns), name } => {
            authns.contains_key(ns) && authns[ns].meshtls.contains_key(name)
        },
        AuthenticationTargetModel::MeshTLS { namespace: None, name } => {
            authns.contains_key(policy.namespace) && authns[policy.namespace].meshtls.contains_key(
                name,
            )
        },
        AuthenticationTargetModel::Network { namespace: Some(ns), name } => {
            authns.contains_key(ns) && authns[ns].network.contains_key(name)
        },
        AuthenticationTargetModel::Network { namespace: None, name } => {
            authns.contains_key(policy.namespace) && authns[policy.namespace].network.contains_key(
                name,
            )
        },
        AuthenticationTargetModel::ServiceAccount { .. } => true,
    } by {}
    assert forall|i: int| 0 <= i < targets.len() implies crate::policy::asks_for_identity(
        #[trigger] targets[i],
    ) == !(targets[i] is Network) by {}
}

/// What a policy is refused for is so: the authentication named in the error is
/// asked for and not kept, or a second one is asked for besides an earlier one of
/// its kind. Networks are complained of only where identities are in order.
pub proof fn fault_of_policy_is_there(
    policy: PolicyModel,
    spec: SpecModel,
    authns: AuthenticationsModel,
)
    requires
        policy.policy_client_authz(spec, authns) is Err,
    ensures
        ({
            let targets = spec.authentications;
            let kept = |target: AuthenticationTargetModel|
                match target {
                    AuthenticationTargetModel::MeshTLS { namespace, name } => {
                        let ns = if namespace is Some {
                            namespace->0
                        } else {
                            policy.namespace
                        };
                        authns.contains_key(ns) && authns[ns].meshtls.contains_key(name)
                    },
                    AuthenticationTargetModel::Network { namespace, name } => {
                        let ns = if namespace is Some {
                            namespace->0
                        } else {
                            policy.namespace
                        };
                        authns.contains_key(ns) && authns[ns].network.contains_key(name)
                    },
                    AuthenticationTargetModel::ServiceAccount { .. } => true,
                };
            let identity_before = |j: int|
                exists|i: int| 0 <= i < j && !(#[trigger] targets[i] is Network);
            let network_before = |j: int|
                exists|i: int| 0 <= i < j && #[trigger] targets[i] is Network;
            let identities_in_order = |n: int|
                forall|i: int|
                    0 <= i < n && !(#[trigger] targets[i] is Network) ==> kept(targets[i])
                        && !identity_before(i);
            let networks_in_order = |n: int|
                forall|i: int|
                    0 <= i < n && #[trigger] targets[i] is Network ==> kept(targets[i])
                        && !network_before(i);
            exists|j: int|
                0 <= j < targets.len() && match (
                    policy.policy_client_authz(spec, authns)->Err_0,
                    #[trigger] targets[j],
                ) {
                    (
                        IllegalPolicyModel::MeshTLSNotFound { namespace, name },
                        AuthenticationTargetModel::MeshTLS { namespace: given, name: wanted },
                    ) => {
                        &&& name == wanted
                        &&& given == Some(namespace) || given is None && namespace
                            == policy.namespace
                        &&& !kept(targets[j])
                        &&& identities_in_order(j)
                    },
                    (
                        IllegalPolicyModel::MultipleMeshTLS,
                        AuthenticationTargetModel::MeshTLS { .. },
                    ) => {
                        &&& kept(targets[j])
                        &&& identity_before(j)
                        &&& identities_in_order(j)
                    },
                    (
                        IllegalPolicyModel::MultipleServiceAccounts,
                        AuthenticationTargetModel::ServiceAccount { .. },
                    ) => identity_before(j) && identities_in_order(j),
                    (
                        IllegalPolicyModel::NetworkNotFound { namespace, name },
                        AuthenticationTargetModel::Network { namespace: given, name: wanted },
                    ) => {
                        &&& name == wanted
                        &&& given == Some(namespace) || given is None && namespace
                            == policy.namespace
                        &&& !kept(targets[j])
                        &&& networks_in_order(j)
                        &&& identities_in_order(targets.len() as int)
                    },
                    (
                        IllegalPolicyModel::MultipleNetworks,
                        AuthenticationTargetModel::Network { .. },
                    ) => {
                        &&& kept(targets[j])
                        &&& network_before(j)
                        &&& networks_in_order(j)
                        &&& identities_in_order(targets.len() as int)
                    },
                    _ => false,
                }
        }),
{
    let targets = spec.authentications;
    let n = targets.len();
    let ids = policy.identities(targets, authns);
    let nets = policy.networks(targets, authns);
    let id_faults = policy.identity_faults(targets, authns);
    let net_faults = policy.network_faults(targets, authns);
    let faults = if first(n, id_faults) is Some {
        id_faults
    } else {
        net_faults
    };
    first_is_one(id_faults, n);
    first_is_one(net_faults, n);
    let j = first_has_a_place(faults, n);
    first_is_one(ids, j as nat);
    first_is_one(nets, j as nat);
    assert forall|i: int| 0 <= i < n implies (#[trigger] targets[i] is Network ==> ids(i) is None)
        && (!(targets[i] is Network) ==> nets(i) is None) by {}
    if first(n, id_faults) is Some {
        assert forall|i: int| 0 <= i < j && !(#[trigger] targets[i] is Network) implies ids(
            i,
        ) is Some && first(i as nat, ids) is None by {
            assert(id_faults(i) is None);
        }
        assert forall|i: int, k: int|
            0 <= k < i < j && !(#[trigger] targets[i] is Network) implies (
        #[trigger] targets[k]) is Network by {
            assert(id_faults(i) is None);
            assert(id_faults(k) is None);
            first_is_one(ids, i as nat);
            assert(ids(k) is None);
        }
    } else {
        assert forall|i: int| 0 <= i < n && !(#[trigger] targets[i] is Network) implies ids(
            i,
        ) is Some && first(i as nat, ids) is None by {
            assert(id_faults(i) is None);
        }
        assert forall|i: int, k: int|
            0 <= k < i < n && !(#[trigger] targets[i] is Network) implies (
        #[trigger] targets[k]) is Network by {
            assert(id_faults(i) is None);
            assert(id_faults(k) is None);
            first_is_one(ids, i as nat);
            assert(ids(k) is None);
        }
        assert forall|i: int| 0 <= i < j && #[trigger] targets[i] is Network implies nets(i) is Some
            && first(i as nat, nets) is None by {
            assert(net_faults(i) is None);
        }
        assert forall|i: int, k: int|
            0 <= k < i < j && #[trigger] targets[i] is Network implies !((
        #[trigger] targets[k]) is Network) by {
            assert(net_faults(i) is None);
            assert(net_faults(k) is None);
            first_is_one(nets, i as nat);
            assert(nets(k) is None);
        }
    }
    assert(0 <= j < targets.len() && targets[j] == targets[j]);
}

/// A server is talked to under a `ServerAuthorization` exactly if that selects it,
/// and then from the networks and with the authentication that it gives, no more
/// and no less.
pub proof fn server_authorization_lets_in_its_clients(
    policy: PolicyModel,
    name: Text,
    server: ServerModel,
    authns: AuthenticationsModel,
    saz: Text,
)
    ensures
        ({
            let authzs = policy.client_authzs(name, server, authns);
            let reference = AuthorizationRefModel::ServerAuthorization(saz);
            &&& authzs.contains_key(reference) <==> policy.server_authorizations.contains_key(saz)
                && match policy.server_authorizations[saz].server_selector {
                ServerSelectorModel::Name(wanted) => wanted == name,
                ServerSelectorModel::Selector(selector) => selector.matches(server.labels),
            }
            &&& authzs.contains_key(reference) ==> {
                &&& authzs[reference].networks == policy.server_authorizations[saz].authz.networks
                &&& authzs[reference].authentication
                    == policy.server_authorizations[saz].authz.authentication
            }
        }),
{
}

/// A server is talked to under a policy exactly if that is legal and targets the
/// server or its namespace, and then by the clients that the policy lets in.
pub proof fn policy_lets_in_its_clients(
    policy: PolicyModel,
    name: Text,
    server: ServerModel,
    authns: AuthenticationsModel,
    authz: Text,
)
    ensures
        ({
            let authzs = policy.client_authzs(name, server, authns);
            let reference = AuthorizationRefModel::AuthorizationPolicy(authz);
            let resolved = policy.policy_client_authz(policy.authorization_policies[authz], authns);
            let target = policy.authorization_policies[authz].target;
            &&& authzs.contains_key(reference) <==> {
                &&& policy.authorization_policies.contains_key(authz)
                &&& target == TargetModel::Server(name) || target == TargetModel::Namespace
                &&& resolved is Ok
            }
            &&& authzs.contains_key(reference) ==> resolved == Ok::<_, IllegalPolicyModel>(
                authzs[reference],
            )
        }),
{
}

/// Nobody talks to a server, to a port of an external group or to a route under a
/// default authorization once it has policy resources of its own; and only servers
/// are talked to under a `ServerAuthorization`.
pub proof fn nothing_else_lets_clients_in(
    policy: PolicyModel,
    name: Text,
    server: ServerModel,
    port: u16,
    gkn: GroupKindNameModel,
    authns: AuthenticationsModel,
    other: Text,
)
    ensures
        !policy.client_authzs(name, server, authns).contains_key(
            AuthorizationRefModel::Default(other),
        ),
        !policy.workload_authzs(name, port, authns).contains_key(
            AuthorizationRefModel::Default(other),
        ),
        !policy.workload_authzs(name, port, authns).contains_key(
            AuthorizationRefModel::ServerAuthorization(other),
        ),
        !policy.route_client_authzs(gkn, authns).contains_key(
            AuthorizationRefModel::Default(other),
        ),
        !policy.route_client_authzs(gkn, authns).contains_key(
            AuthorizationRefModel::ServerAuthorization(other),
        ),
{
}

/// A port of an external group is talked to under a policy exactly if that is legal
/// and targets this port of the group or the namespace, and then by the clients
/// that the policy lets in.
pub proof fn policy_lets_in_clients_of_workloads(
    policy: PolicyModel,
    name: Text,
    port: u16,
    authns: AuthenticationsModel,
    authz: Text,
)
    ensures
        ({
            let authzs = policy.workload_authzs(name, port, authns);
            let reference = AuthorizationRefModel::AuthorizationPolicy(authz);
            let resolved = policy.policy_client_authz(policy.authorization_policies[authz], authns);
            let target = policy.authorization_policies[authz].target;
            &&& authzs.contains_key(reference) <==> {
                &&& policy.authorization_policies.contains_key(authz)
                &&& target == TargetModel::ExternalGroup((name, Some(port))) || target
                    == TargetModel::Namespace
                &&& resolved is Ok
            }
            &&& authzs.contains_key(reference) ==> resolved == Ok::<_, IllegalPolicyModel>(
                authzs[reference],
            )
        }),
{
}

/// A route is used under a policy exactly if that is legal and targets a route of
/// that name, and then by the clients that the policy lets in.
pub proof fn policy_lets_in_clients_of_routes(
    policy: PolicyModel,
    gkn: GroupKindNameModel,
    authns: AuthenticationsModel,
    authz: Text,
)
    ensures
        ({
            let authzs = policy.route_client_authzs(gkn, authns);
            let reference = AuthorizationRefModel::AuthorizationPolicy(authz);
            let resolved = policy.policy_client_authz(policy.authorization_policies[authz], authns);
            &&& authzs.contains_key(reference) <==> {
                &&& policy.authorization_policies.contains_key(authz)
                &&& policy.authorization_policies[authz].target matches TargetModel::HttpRoute(
                    target,
                ) && target.matches(gkn)
                &&& resolved is Ok
            }
            &&& authzs.contains_key(reference) ==> resolved == Ok::<_, IllegalPolicyModel>(
                authzs[reference],
            )
        }),
{
}

/// A `ServerAuthorization` more changes nothing of what the others, and the
/// policies, let in.
pub proof fn another_server_authorization_takes_nothing_away(
    policy: PolicyModel,
    name: Text,
    server: ServerModel,
    authns: AuthenticationsModel,
    saz: Text,
    added: crate::server_authorization::ServerAuthzModel,
    reference: AuthorizationRefModel,
)
    requires
        reference != AuthorizationRefModel::ServerAuthorization(saz),
    ensures
        ({
            let more = PolicyModel {
                server_authorizations: policy.server_authorizations.insert(saz, added),
                ..policy
            };
            more.client_authzs(name, server, authns).get(reference) == policy.client_authzs(
                name,
                server,
                authns,
            ).get(reference)
        }),
{
    let more = PolicyModel {
        server_authorizations: policy.server_authorizations.insert(saz, added),
        ..policy
    };
    if let AuthorizationRefModel::AuthorizationPolicy(authz) = reference {
        if policy.authorization_policies.contains_key(authz) {
            let spec = policy.authorization_policies[authz];
            assert(more.identities(spec.authentications, authns) =~= policy.identities(
                spec.authentications,
                authns,
            ));
            assert(more.networks(spec.authentications, authns) =~= policy.networks(
                spec.authentications,
                authns,
            ));
            assert(more.identity_faults(spec.authentications, authns) =~= policy.identity_faults(
                spec.authentications,
                authns,
            ));
            assert(more.network_faults(spec.authentications, authns) =~= policy.network_faults(
                spec.authentications,
                authns,
            ));
        }
    }
}

} // verus!
