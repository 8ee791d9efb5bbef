//! The policy resources of a namespace and what they say of its servers.
use crate::authentications::{meshtls_of, network_of, AuthenticationNsIndex, AuthenticationsModel};
use crate::authorization_policy::{
    AuthenticationTarget, AuthenticationTargetModel, Spec, SpecModel, Subject, SubjectModel,
};
use crate::authz::{
    all_networks, AuthorizationRef, AuthorizationRefModel, ClientAuthentication,
    ClientAuthenticationModel, ClientAuthorization, ClientAuthorizationModel, IdentityMatch,
    IdentityMatchModel, NetworkMatch, NetworkMatchModel,
};
use crate::cluster::{ClusterInfo, ClusterInfoModel};
use crate::inbound::{InboundServer, InboundServerModel, ServerRef, ServerRefModel};
use crate::listing::{Change, ChangeModel};
use crate::route::{
    GroupKindName, GroupKindNameModel, HttpRoute, HttpRouteModel, HttpRouteRef, HttpRouteRefModel,
    RouteBinding, RouteBindingModel,
};
use crate::search::{first, first_is_kept, first_is_one};
use crate::server::{Server, ServerModel};
use crate::server_authorization::{ServerAuthz, ServerAuthzModel};
use crate::slots::Coded;
use crate::table::{lists, CodeTable, NameTable};
use crate::value::{Text, Value};
use std::sync::Arc;
use vstd::prelude::*;

verus! {

/// Why an `AuthorizationPolicy` authorizes nobody.
#[derive(Debug)]
pub enum IllegalPolicy {
    /// A `MeshTLSAuthentication` that it asks for does not exist.
    MeshTLSNotFound { namespace: String, name: String },
    /// It asks for a `MeshTLSAuthentication` besides another identity.
    MultipleMeshTLS,
    /// It asks for a service account besides another identity.
    MultipleServiceAccounts,
    /// A `NetworkAuthentication` that it asks for does not exist.
    NetworkNotFound { namespace: String, name: String },
    /// It asks for a second `NetworkAuthentication`.
    MultipleNetworks,
}

/// What an [`IllegalPolicy`] means.
#[verifier::ext_equal]
pub enum IllegalPolicyModel {
    MeshTLSNotFound { namespace: Text, name: Text },
    MultipleMeshTLS,
    MultipleServiceAccounts,
    NetworkNotFound { namespace: Text, name: Text },
    MultipleNetworks,
}

impl DeepView for IllegalPolicy {
    type V = IllegalPolicyModel;

    open spec fn deep_view(&self) -> IllegalPolicyModel {
        match self {
            IllegalPolicy::MeshTLSNotFound { namespace, name } => {
                IllegalPolicyModel::MeshTLSNotFound { namespace: namespace@, name: name@ }
            },
            IllegalPolicy::MultipleMeshTLS => IllegalPolicyModel::MultipleMeshTLS,
            IllegalPolicy::MultipleServiceAccounts => IllegalPolicyModel::MultipleServiceAccounts,
            IllegalPolicy::NetworkNotFound { namespace, name } => {
                IllegalPolicyModel::NetworkNotFound { namespace: namespace@, name: name@ }
            },
            IllegalPolicy::MultipleNetworks => IllegalPolicyModel::MultipleNetworks,
        }
    }
}

impl IllegalPolicyModel {
    /// The text of the error.
    pub open spec fn message(self) -> Text {
        match self {
            IllegalPolicyModel::MeshTLSNotFound { namespace, name } => {
                "could not find MeshTLSAuthentication "@ + name + " in namespace "@ + namespace
            },
            IllegalPolicyModel::MultipleMeshTLS => {
                "policy must not include multiple MeshTLSAuthentications"@
            },
            IllegalPolicyModel::MultipleServiceAccounts => {
                "policy must not include multiple ServiceAccounts"@
            },
            IllegalPolicyModel::NetworkNotFound { namespace, name } => {
                "could not find NetworkAuthentication "@ + name + " in namespace "@ + namespace
            },
            IllegalPolicyModel::MultipleNetworks => {
                "policy must not include multiple NetworkAuthentications"@
            },
        }
    }
}

impl IllegalPolicy {
    /// The text of the error.
    pub fn message(&self) -> (r: String)
        ensures
            r@ == self.deep_view().message(),
    {
        match self {
            IllegalPolicy::MeshTLSNotFound { namespace, name } => {
                "could not find MeshTLSAuthentication ".to_string().concat(name.as_str()).concat(
                    " in namespace ",
                ).concat(namespace.as_str())
            },
            IllegalPolicy::MultipleMeshTLS => {
                "policy must not include multiple MeshTLSAuthentications".to_string()
            },
            IllegalPolicy::MultipleServiceAccounts => {
                "policy must not include multiple ServiceAccounts".to_string()
            },
            IllegalPolicy::NetworkNotFound { namespace, name } => {
                "could not find NetworkAuthentication ".to_string().concat(name.as_str()).concat(
                    " in namespace ",
                ).concat(namespace.as_str())
            },
            IllegalPolicy::MultipleNetworks => {
                "policy must not include multiple NetworkAuthentications".to_string()
            },
        }
    }
}

/// The policy resources of a namespace.
#[derive(Debug)]
pub struct PolicyIndex {
    namespace: String,
    cluster_info: Arc<ClusterInfo>,
    servers: NameTable<Server>,
    server_authorizations: NameTable<ServerAuthz>,
    authorization_policies: NameTable<Spec>,
    http_routes: CodeTable<GroupKindName, RouteBinding>,
}

/// What a [`PolicyIndex`] means.
#[verifier::ext_equal]
pub struct PolicyModel {
    pub namespace: Text,
    pub cluster: ClusterInfoModel,
    pub servers: Map<Text, ServerModel>,
    /// The order in which the servers are met. Where several of them select one
    /// port, the first is taken.
    pub walk: Seq<Text>,
    pub server_authorizations: Map<Text, ServerAuthzModel>,
    pub authorization_policies: Map<Text, SpecModel>,
    pub http_routes: Map<GroupKindNameModel, RouteBindingModel>,
}

impl DeepView for PolicyIndex {
    type V = PolicyModel;

    closed spec fn deep_view(&self) -> PolicyModel {
        PolicyModel {
            namespace: self.namespace@,
            cluster: self.cluster_info.deep_view(),
            servers: self.servers.deep_view(),
            walk: self.servers.walk(),
            server_authorizations: self.server_authorizations.deep_view(),
            authorization_policies: self.authorization_policies.deep_view(),
            http_routes: self.http_routes.deep_view(),
        }
    }
}

/// A change of the policy resources of a namespace.
#[derive(Debug)]
pub enum PolicyChange {
    /// Of its `Server`s.
    Servers(Change<String, Server>),
    /// Of its `ServerAuthorization`s.
    ServerAuthorizations(Change<String, ServerAuthz>),
    /// Of its `AuthorizationPolicy`s.
    AuthorizationPolicies(Change<String, Spec>),
    /// Of its routes.
    HttpRoutes(Change<GroupKindName, RouteBinding>),
}

/// What a [`PolicyChange`] means.
#[verifier::ext_equal]
pub enum PolicyChangeModel {
    Servers(ChangeModel<Text, ServerModel>),
    ServerAuthorizations(ChangeModel<Text, ServerAuthzModel>),
    AuthorizationPolicies(ChangeModel<Text, SpecModel>),
    HttpRoutes(ChangeModel<GroupKindNameModel, RouteBindingModel>),
}

impl DeepView for PolicyChange {
    type V = PolicyChangeModel;

    open spec fn deep_view(&self) -> PolicyChangeModel {
        match self {
            PolicyChange::Servers(c) => PolicyChangeModel::Servers(c.deep_view()),
            PolicyChange::ServerAuthorizations(c) => PolicyChangeModel::ServerAuthorizations(
                c.deep_view(),
            ),
            PolicyChange::AuthorizationPolicies(c) => PolicyChangeModel::AuthorizationPolicies(
                c.deep_view(),
            ),
            PolicyChange::HttpRoutes(c) => PolicyChangeModel::HttpRoutes(c.deep_view()),
        }
    }
}

/// A kind of policy resource.
pub trait PolicyResource: Value {
    /// The key of such a resource within its namespace.
    type Key: Coded;

    /// A change of the resources of this kind.
    spec fn change_of(
        c: ChangeModel<<Self::Key as DeepView>::V, <Self as DeepView>::V>,
    ) -> PolicyChangeModel;

    /// Makes a change of the resources of this kind one of policy resources.
    fn into_change(c: Change<Self::Key, Self>) -> (r: PolicyChange)
        ensures
            r.deep_view() == Self::change_of(c.deep_view()),
    ;

    /// Where a resource of this kind is there, or some are, resources are left.
    proof fn something_is_left(
        policy: PolicyModel,
        c: ChangeModel<<Self::Key as DeepView>::V, <Self as DeepView>::V>,
        walk: Seq<Text>,
    )
        requires
            c is Update || (c matches ChangeModel::Replace(update) && update.added.len() > 0),
        ensures
            !policy.changed(Self::change_of(c), walk).is_empty(),
    ;
}

impl PolicyResource for Server {
    type Key = String;

    open spec fn change_of(c: ChangeModel<Text, ServerModel>) -> PolicyChangeModel {
        PolicyChangeModel::Servers(c)
    }

    fn into_change(c: Change<String, Server>) -> (r: PolicyChange) {
        PolicyChange::Servers(c)
    }

    proof fn something_is_left(
        policy: PolicyModel,
        c: ChangeModel<Text, ServerModel>,
        walk: Seq<Text>,
    ) {
        c.something_is_left(policy.servers);
    }
}

impl PolicyResource for ServerAuthz {
    type Key = String;

    open spec fn change_of(c: ChangeModel<Text, ServerAuthzModel>) -> PolicyChangeModel {
        PolicyChangeModel::ServerAuthorizations(c)
    }

    fn into_change(c: Change<String, ServerAuthz>) -> (r: PolicyChange) {
        PolicyChange::ServerAuthorizations(c)
    }

    proof fn something_is_left(
        policy: PolicyModel,
        c: ChangeModel<Text, ServerAuthzModel>,
        walk: Seq<Text>,
    ) {
        c.something_is_left(policy.server_authorizations);
    }
}

impl PolicyResource for Spec {
    type Key = String;

    open spec fn change_of(c: ChangeModel<Text, SpecModel>) -> PolicyChangeModel {
        PolicyChangeModel::AuthorizationPolicies(c)
    }

    fn into_change(c: Change<String, Spec>) -> (r: PolicyChange) {
        PolicyChange::AuthorizationPolicies(c)
    }

    proof fn something_is_left(
        policy: PolicyModel,
        c: ChangeModel<Text, SpecModel>,
        walk: Seq<Text>,
    ) {
        c.something_is_left(policy.authorization_policies);
    }
}

impl PolicyResource for RouteBinding {
    type Key = GroupKindName;

    open spec fn change_of(
        c: ChangeModel<GroupKindNameModel, RouteBindingModel>,
    ) -> PolicyChangeModel {
        PolicyChangeModel::HttpRoutes(c)
    }

    fn into_change(c: Change<GroupKindName, RouteBinding>) -> (r: PolicyChange) {
        PolicyChange::HttpRoutes(c)
    }

    proof fn something_is_left(
        policy: PolicyModel,
        c: ChangeModel<GroupKindNameModel, RouteBindingModel>,
        walk: Seq<Text>,
    ) {
        c.something_is_left(policy.http_routes);
    }
}

impl PolicyModel {
    /// A namespace without policy resources.
    pub open spec fn new(namespace: Text, cluster: ClusterInfoModel) -> PolicyModel {
        PolicyModel {
            namespace,
            cluster,
            servers: Map::empty(),
            walk: Seq::empty(),
            server_authorizations: Map::empty(),
            authorization_policies: Map::empty(),
            http_routes: Map::empty(),
        }
    }

    /// Whether the order of the servers meets each of them once.
    pub open spec fn well_formed(self) -> bool {
        lists(self.walk, self.servers.dom())
    }

    /// Whether the namespace has no policy resources.
    pub open spec fn is_empty(self) -> bool {
        &&& self.servers == Map::<Text, ServerModel>::empty()
        &&& self.server_authorizations == Map::<Text, ServerAuthzModel>::empty()
        &&& self.authorization_policies == Map::<Text, SpecModel>::empty()
        &&& self.http_routes == Map::<GroupKindNameModel, RouteBindingModel>::empty()
    }

    /// The resources after a change. Where the servers change, `walk` is the
    /// order in which they are met from then on.
    pub open spec fn changed(self, change: PolicyChangeModel, walk: Seq<Text>) -> PolicyModel {
        match change {
            PolicyChangeModel::Servers(c) => PolicyModel {
                servers: c.of(self.servers),
                walk,
                ..self
            },
            PolicyChangeModel::ServerAuthorizations(c) => PolicyModel {
                server_authorizations: c.of(self.server_authorizations),
                ..self
            },
            PolicyChangeModel::AuthorizationPolicies(c) => PolicyModel {
                authorization_policies: c.of(self.authorization_policies),
                ..self
            },
            PolicyChangeModel::HttpRoutes(c) => PolicyModel {
                http_routes: c.of(self.http_routes),
                ..self
            },
        }
    }

    /// Whether a change is reported as one.
    pub open spec fn reports(self, change: PolicyChangeModel) -> bool {
        match change {
            PolicyChangeModel::Servers(c) => c.reported(self.servers),
            PolicyChangeModel::ServerAuthorizations(c) => c.reported(self.server_authorizations),
            PolicyChangeModel::AuthorizationPolicies(c) => c.reported(self.authorization_policies),
            PolicyChangeModel::HttpRoutes(c) => c.reported(self.http_routes),
        }
    }

    /// A change that is not reported leaves the resources as they were.
    pub proof fn unreported_is_none(self, change: PolicyChangeModel)
        ensures
            !self.reports(change) ==> self.changed(change, self.walk) == self,
    {
        match change {
            PolicyChangeModel::Servers(c) => c.unreported_is_none(self.servers),
            PolicyChangeModel::ServerAuthorizations(c) => c.unreported_is_none(
                self.server_authorizations,
            ),
            PolicyChangeModel::AuthorizationPolicies(c) => c.unreported_is_none(
                self.authorization_policies,
            ),
            PolicyChangeModel::HttpRoutes(c) => c.unreported_is_none(self.http_routes),
        }
    }

    /// The namespace that a policy means.
    pub open spec fn namespace_or_own(self, namespace: Option<Text>) -> Text {
        match namespace {
            Some(namespace) => namespace,
            None => self.namespace,
        }
    }

    /// The identities that the authentications of a policy ask for, by place.
    pub open spec fn identities(
        self,
        targets: Seq<AuthenticationTargetModel>,
        authns: AuthenticationsModel,
    ) -> spec_fn(int) -> Option<Seq<IdentityMatchModel>> {
        |i: int|
            match targets[i] {
                AuthenticationTargetModel::MeshTLS { namespace, name } => meshtls_of(
                    authns,
                    self.namespace_or_own(namespace),
                    name,
                ),
                AuthenticationTargetModel::ServiceAccount { namespace, name } => Some(
                    seq![
                        IdentityMatchModel::Exact(
                            self.cluster.service_account_identity(
                                self.namespace_or_own(namespace),
                                name,
                            ),
                        ),
                    ],
                ),
                AuthenticationTargetModel::Network { .. } => None,
            }
    }

    /// The networks that the authentications of a policy ask for, by place.
    pub open spec fn networks(
        self,
        targets: Seq<AuthenticationTargetModel>,
        authns: AuthenticationsModel,
    ) -> spec_fn(int) -> Option<Seq<NetworkMatchModel>> {
        |i: int|
            match targets[i] {
                AuthenticationTargetModel::Network { namespace, name } => network_of(
                    authns,
                    self.namespace_or_own(namespace),
                    name,
                ),
                _ => None,
            }
    }

    /// What is wrong with the identities that a policy asks for, by place.
    pub open spec fn identity_faults(
        self,
        targets: Seq<AuthenticationTargetModel>,
        authns: AuthenticationsModel,
    ) -> spec_fn(int) -> Option<IllegalPolicyModel> {
        |i: int|
            {
                let earlier = first(i as nat, self.identities(targets, authns)) is Some;
                match targets[i] {
                    AuthenticationTargetModel::MeshTLS { namespace, name } => {
                        let namespace = self.namespace_or_own(namespace);
                        if meshtls_of(authns, namespace, name) is None {
                            Some(IllegalPolicyModel::MeshTLSNotFound { namespace, name })
                        } else if earlier {
                            Some(IllegalPolicyModel::MultipleMeshTLS)
                        } else {
                            None
                        }
                    },
                    AuthenticationTargetModel::ServiceAccount { .. } => if earlier {
                        Some(IllegalPolicyModel::MultipleServiceAccounts)
                    } else {
                        None
                    },
                    AuthenticationTargetModel::Network { .. } => None,
                }
            }
    }

    /// What is wrong with the networks that a policy asks for, by place.
    pub open spec fn network_faults(
        self,
        targets: Seq<AuthenticationTargetModel>,
        authns: AuthenticationsModel,
    ) -> spec_fn(int) -> Option<IllegalPolicyModel> {
        |i: int|
            match targets[i] {
                AuthenticationTargetModel::Network { namespace, name } => {
                    let namespace = self.namespace_or_own(namespace);
                    if network_of(authns, namespace, name) is None {
                        Some(IllegalPolicyModel::NetworkNotFound { namespace, name })
                    } else if first(i as nat, self.networks(targets, authns)) is Some {
                        Some(IllegalPolicyModel::MultipleNetworks)
                    } else {
                        None
                    }
                },
                _ => None,
            }
    }

    /// The clients that a policy authorizes, or the first thing that is wrong
    /// with it, identities before networks. A policy that asks for no identity
    /// does not require authentication; one that asks for no network applies to
    /// all of them.
    pub open spec fn policy_client_authz(
        self,
        spec: SpecModel,
        authns: AuthenticationsModel,
    ) -> Result<ClientAuthorizationModel, IllegalPolicyModel> {
        let targets = spec.authentications;
        let n = targets.len();
        match first(n, self.identity_faults(targets, authns)) {
            Some(fault) => Err(fault),
            None => match first(n, self.network_faults(targets, authns)) {
                Some(fault) => Err(fault),
                None => Ok(
                    ClientAuthorizationModel {
                        authentication: match first(n, self.identities(targets, authns)) {
                            Some(ids) => ClientAuthenticationModel::TlsAuthenticated(ids),
                            None => ClientAuthenticationModel::Unauthenticated,
                        },
                        networks: match first(n, self.networks(targets, authns)) {
                            Some(nets) => nets,
                            None => all_networks(),
                        },
                    },
                ),
            },
        }
    }

    /// Whether a policy of the namespace authorizes clients of a subject.
    pub open spec fn authorizes(
        self,
        name: Text,
        subject: SubjectModel,
        authns: AuthenticationsModel,
    ) -> bool {
        &&& self.authorization_policies.contains_key(name)
        &&& self.authorization_policies[name].target.applies_to(subject)
        &&& self.policy_client_authz(self.authorization_policies[name], authns) is Ok
    }

    /// The authorizations that policies give to a subject.
    pub open spec fn policy_authzs(
        self,
        subject: SubjectModel,
        authns: AuthenticationsModel,
    ) -> Map<AuthorizationRefModel, ClientAuthorizationModel> {
        Map::new(
            |r: AuthorizationRefModel|
                r matches AuthorizationRefModel::AuthorizationPolicy(name) && self.authorizes(
                    name,
                    subject,
                    authns,
                ),
            |r: AuthorizationRefModel|
                self.policy_client_authz(
                    self.authorization_policies[r->AuthorizationPolicy_0],
                    authns,
                )->Ok_0,
        )
    }

    /// The authorizations that `ServerAuthorization`s give to a server.
    pub open spec fn server_authzs(self, name: Text, labels: Map<Text, Text>) -> Map<
        AuthorizationRefModel,
        ClientAuthorizationModel,
    > {
        Map::new(
            |r: AuthorizationRefModel|
                r matches AuthorizationRefModel::ServerAuthorization(saz)
                    && self.server_authorizations.contains_key(saz)
                    && self.server_authorizations[saz].server_selector.selects(name, labels),
            |r: AuthorizationRefModel|
                self.server_authorizations[r->ServerAuthorization_0].authz,
        )
    }

    /// Who may talk to a server: the clients of the `ServerAuthorization`s that
    /// select it and those of the policies that apply to it.
    pub open spec fn client_authzs(
        self,
        name: Text,
        server: ServerModel,
        authns: AuthenticationsModel,
    ) -> Map<AuthorizationRefModel, ClientAuthorizationModel> {
        self.server_authzs(name, server.labels).union_prefer_right(
            self.policy_authzs(SubjectModel::Server(name), authns),
        )
    }

    /// Who may talk to a port of an external group.
    pub open spec fn workload_authzs(
        self,
        name: Text,
        port: u16,
        authns: AuthenticationsModel,
    ) -> Map<AuthorizationRefModel, ClientAuthorizationModel> {
        self.policy_authzs(SubjectModel::Workload(name, port), authns)
    }

    /// Who may use a route.
    pub open spec fn route_client_authzs(
        self,
        gkn: GroupKindNameModel,
        authns: AuthenticationsModel,
    ) -> Map<AuthorizationRefModel, ClientAuthorizationModel> {
        self.policy_authzs(SubjectModel::Route(gkn), authns)
    }

    /// The routes that are attached to a server, each with its authorizations.
    pub open spec fn attached_routes(self, name: Text, authns: AuthenticationsModel) -> Map<
        HttpRouteRefModel,
        HttpRouteModel,
    > {
        Map::new(
            |r: HttpRouteRefModel|
                r matches HttpRouteRefModel::Linkerd(gkn) && self.http_routes.contains_key(gkn)
                    && self.http_routes[gkn].selects_server(name)
                    && self.http_routes[gkn].accepted_by_server(name),
            |r: HttpRouteRefModel|
                HttpRouteModel {
                    authorizations: self.route_client_authzs(r->Linkerd_0, authns),
                    ..self.http_routes[r->Linkerd_0].route
                },
        )
    }

    /// The routes of a server: those that are attached to it or, if there are
    /// none, the default ones.
    pub open spec fn routes(
        self,
        name: Text,
        authns: AuthenticationsModel,
        probe_paths: Seq<Text>,
    ) -> Map<HttpRouteRefModel, HttpRouteModel> {
        let attached = self.attached_routes(name, authns);
        if attached == Map::<HttpRouteRefModel, HttpRouteModel>::empty() {
            self.cluster.default_routes(probe_paths)
        } else {
            attached
        }
    }

    /// The configuration of a port that a server selects.
    pub open spec fn inbound_server(
        self,
        name: Text,
        server: ServerModel,
        authns: AuthenticationsModel,
        probe_paths: Seq<Text>,
    ) -> InboundServerModel {
        InboundServerModel {
            reference: ServerRefModel::Server(name),
            protocol: server.protocol,
            authorizations: self.client_authzs(name, server, authns),
            http_routes: self.routes(name, authns, probe_paths),
        }
    }
}

/// Whether an authentication asks for an identity.
pub open spec fn asks_for_identity(target: AuthenticationTargetModel) -> bool {
    target is MeshTLS || target is ServiceAccount
}

impl PolicyModel {
    /// Whether an authentication that a policy asks for is there.
    pub open spec fn found(
        self,
        target: AuthenticationTargetModel,
        authns: AuthenticationsModel,
    ) -> bool {
        match target {
            AuthenticationTargetModel::MeshTLS { namespace, name } => meshtls_of(
                authns,
                self.namespace_or_own(namespace),
                name,
            ) is Some,
            AuthenticationTargetModel::Network { namespace, name } => network_of(
                authns,
                self.namespace_or_own(namespace),
                name,
            ) is Some,
            AuthenticationTargetModel::ServiceAccount { .. } => true,
        }
    }

    /// A policy authorizes clients exactly if every authentication that it asks
    /// for is there, and it asks for no more than one identity and no more than
    /// one network.
    pub proof fn authorizes_if_legal(self, spec: SpecModel, authns: AuthenticationsModel)
        ensures
            self.policy_client_authz(spec, authns) is Ok <==> {
                let targets = spec.authentications;
                &&& forall|i: int|
                    0 <= i < targets.len() ==> self.found(#[trigger] targets[i], authns)
                &&& forall|i: int, j: int|
                    0 <= i < j < targets.len() ==> !(asks_for_identity(#[trigger] targets[i])
                        && asks_for_identity(#[trigger] targets[j]))
                &&& forall|i: int, j: int|
                    0 <= i < j < targets.len() ==> !(#[trigger] targets[i] is Network
                        && #[trigger] targets[j] is Network)
            },
    {
        let targets = spec.authentications;
        let n = targets.len();
        let ids = self.identities(targets, authns);
        let nets = self.networks(targets, authns);
        let id_faults = self.identity_faults(targets, authns);
        let net_faults = self.network_faults(targets, authns);
        first_is_one(id_faults, n);
        first_is_one(net_faults, n);
        if self.policy_client_authz(spec, authns) is Ok {
            assert forall|i: int| 0 <= i < n implies self.found(#[trigger] targets[i], authns) by {
                assert(id_faults(i) is None);
                assert(net_faults(i) is None);
            }
            assert forall|i: int, j: int| 0 <= i < j < n implies !(asks_for_identity(
                #[trigger] targets[i],
            ) && asks_for_identity(#[trigger] targets[j])) && !(targets[i] is Network
                && targets[j] is Network) by {
                first_is_one(ids, j as nat);
                first_is_one(nets, j as nat);
                assert(id_faults(j) is None);
                assert(net_faults(j) is None);
                if asks_for_identity(targets[i]) {
                    assert(ids(i) is Some);
                }
                if targets[i] is Network {
                    assert(nets(i) is Some);
                }
            }
        } else if first(n, id_faults) is Some {
            let j = choose|j: int| 0 <= j < n && first(n, id_faults) == #[trigger] id_faults(j);
            first_is_one(ids, j as nat);
        } else {
            let j = choose|j: int| 0 <= j < n && first(n, net_faults) == #[trigger] net_faults(j);
            first_is_one(nets, j as nat);
        }
    }

    /// What a legal policy asks of its clients: the identities and the networks
    /// of the authentications that it names. A client need not be authenticated
    /// where it names no identity, and may be anywhere where it names no network.
    pub proof fn authorizes_what_is_asked(self, spec: SpecModel, authns: AuthenticationsModel)
        requires
            self.policy_client_authz(spec, authns) is Ok,
        ensures
            ({
                let targets = spec.authentications;
                let authz = self.policy_client_authz(spec, authns)->Ok_0;
                &&& forall|i: int|
                    0 <= i < targets.len() && asks_for_identity(#[trigger] targets[i])
                        ==> authz.authentication == ClientAuthenticationModel::TlsAuthenticated(
                        self.identities(targets, authns)(i)->0,
                    )
                &&& (forall|i: int|
                    0 <= i < targets.len() ==> !asks_for_identity(#[trigger] targets[i]))
                    ==> authz.authentication is Unauthenticated
                &&& forall|i: int|
                    0 <= i < targets.len() && #[trigger] targets[i] is Network ==> authz.networks
                        == self.networks(targets, authns)(i)->0
                &&& (forall|i: int| 0 <= i < targets.len() ==> !(#[trigger] targets[i] is Network))
                    ==> authz.networks == all_networks()
            }),
    {
        let targets = spec.authentications;
        let n = targets.len();
        let ids = self.identities(targets, authns);
        let nets = self.networks(targets, authns);
        self.authorizes_if_legal(spec, authns);
        first_is_one(ids, n);
        first_is_one(nets, n);
        assert forall|i: int| 0 <= i < n && asks_for_identity(#[trigger] targets[i]) implies first(
            n,
            ids,
        ) == ids(i) by {}
        assert forall|i: int| 0 <= i < n && #[trigger] targets[i] is Network implies first(n, nets)
            == nets(i) by {}
    }

    /// Policies that target routes are attached to those routes, and to nothing
    /// else: they are not among the authorizations of servers and workloads, and
    /// only they are among those of routes.
    pub proof fn route_policies_stay_with_routes(
        self,
        policy: Text,
        name: Text,
        server: ServerModel,
        port: u16,
        gkn: GroupKindNameModel,
        authns: AuthenticationsModel,
    )
        ensures
            ({
                let reference = AuthorizationRefModel::AuthorizationPolicy(policy);
                let target = self.authorization_policies[policy].target;
                &&& target is HttpRoute ==> {
                    &&& !self.client_authzs(name, server, authns).contains_key(reference)
                    &&& !self.workload_authzs(name, port, authns).contains_key(reference)
                }
                &&& self.route_client_authzs(gkn, authns).contains_key(reference)
                    ==> target is HttpRoute
            }),
    {
    }

    /// Where routes are attached to a server, its default routes, those for
    /// probes among them, are not there.
    pub proof fn attached_routes_replace_defaults(
        self,
        name: Text,
        authns: AuthenticationsModel,
        probe_paths: Seq<Text>,
        gkn: GroupKindNameModel,
        default: Text,
    )
        requires
            self.http_routes.contains_key(gkn),
            self.http_routes[gkn].selects_server(name),
            self.http_routes[gkn].accepted_by_server(name),
        ensures
            self.routes(name, authns, probe_paths).contains_key(HttpRouteRefModel::Linkerd(gkn)),
            !self.routes(name, authns, probe_paths).contains_key(
                HttpRouteRefModel::Default(default),
            ),
    {
        assert(self.attached_routes(name, authns).contains_key(HttpRouteRefModel::Linkerd(gkn)));
    }
}

impl PolicyIndex {
    /// A namespace without policy resources.
    pub fn new(namespace: String, cluster_info: Arc<ClusterInfo>) -> (r: Self)
        ensures
            r.deep_view() == PolicyModel::new(namespace@, cluster_info.deep_view()),
    {
        PolicyIndex {
            namespace,
            cluster_info,
            servers: NameTable::new(),
            server_authorizations: NameTable::new(),
            authorization_policies: NameTable::new(),
            http_routes: CodeTable::new(),
        }
    }

    /// What is configured for the whole cluster.
    pub fn cluster_info(&self) -> (r: &ClusterInfo)
        ensures
            r.deep_view() == self.deep_view().cluster,
    {
        &self.cluster_info
    }

    /// Whether the namespace has no policy resources.
    pub fn is_empty(&self) -> (r: bool)
        ensures
            r == self.deep_view().is_empty(),
    {
        self.servers.is_empty() && self.server_authorizations.is_empty()
            && self.authorization_policies.is_empty() && self.http_routes.is_empty()
    }

    /// Sets a server and tells whether that changed anything.
    pub fn update_server(&mut self, name: String, server: Server) -> (changed: bool)
        ensures
            final(self).deep_view() == (PolicyModel {
                servers: old(self).deep_view().servers.insert(name@, server.deep_view()),
                walk: final(self).deep_view().walk,
                ..old(self).deep_view()
            }),
            changed == (final(self).deep_view().servers != old(self).deep_view().servers),
            !changed ==> final(self).deep_view() == old(self).deep_view(),
            final(self).deep_view().well_formed(),
    {
        let changed = self.servers.update(name, server);
        proof {
            use_type_invariant(&self.servers);
            self.servers.walk_lists_keys();
        }
        changed
    }

    /// Sets a `ServerAuthorization` and tells whether that changed anything.
    pub fn update_server_authz(&mut self, name: String, server_authz: ServerAuthz) -> (changed:
        bool)
        ensures
            final(self).deep_view() == (PolicyModel {
                server_authorizations: old(self).deep_view().server_authorizations.insert(
                    name@,
                    server_authz.deep_view(),
                ),
                ..old(self).deep_view()
            }),
            changed == (final(self).deep_view() != old(self).deep_view()),
    {
        self.server_authorizations.update(name, server_authz)
    }

    /// Sets an `AuthorizationPolicy` and tells whether that changed anything.
    pub fn update_authz_policy(&mut self, name: String, spec: Spec) -> (changed: bool)
        ensures
            final(self).deep_view() == (PolicyModel {
                authorization_policies: old(self).deep_view().authorization_policies.insert(
                    name@,
                    spec.deep_view(),
                ),
                ..old(self).deep_view()
            }),
            changed == (final(self).deep_view() != old(self).deep_view()),
    {
        self.authorization_policies.update(name, spec)
    }

    /// Sets a route and tells whether that changed anything.
    pub fn update_http_route(&mut self, gkn: GroupKindName, route: RouteBinding) -> (changed: bool)
        ensures
            final(self).deep_view() == (PolicyModel {
                http_routes: old(self).deep_view().http_routes.insert(
                    gkn.deep_view(),
                    route.deep_view(),
                ),
                ..old(self).deep_view()
            }),
            changed == (final(self).deep_view() != old(self).deep_view()),
    {
        self.http_routes.update(gkn, route)
    }

    /// Makes a change and tells whether it is to be reported.
    pub fn change(&mut self, change: PolicyChange) -> (changed: bool)
        ensures
            final(self).deep_view() == old(self).deep_view().changed(
                change.deep_view(),
                final(self).deep_view().walk,
            ),
            changed == old(self).deep_view().reports(change.deep_view()),
            !changed ==> final(self).deep_view() == old(self).deep_view(),
            final(self).deep_view().well_formed(),
    {
        let ghost before = self.deep_view();
        let ghost model = change.deep_view();
        let changed = match change {
            PolicyChange::Servers(Change::Update(name, server)) => self.update_server(name, server),
            PolicyChange::Servers(c) => c.make(&mut self.servers),
            PolicyChange::ServerAuthorizations(Change::Update(name, saz)) => {
                self.update_server_authz(name, saz)
            },
            PolicyChange::ServerAuthorizations(c) => c.make(&mut self.server_authorizations),
            PolicyChange::AuthorizationPolicies(Change::Update(name, spec)) => {
                self.update_authz_policy(name, spec)
            },
            PolicyChange::AuthorizationPolicies(c) => c.make(&mut self.authorization_policies),
            PolicyChange::HttpRoutes(Change::Update(gkn, route)) => {
                self.update_http_route(gkn, route)
            },
            PolicyChange::HttpRoutes(c) => c.make(&mut self.http_routes),
        };
        proof {
            use_type_invariant(&self.servers);
            self.servers.walk_lists_keys();
            before.unreported_is_none(model);
        }
        changed
    }

    /// The number of servers.
    pub fn server_count(&self) -> (r: usize)
        ensures
            r == self.deep_view().walk.len(),
            self.deep_view().well_formed(),
    {
        self.servers.len()
    }

    /// The name and the server at a place of the order in which they are met.
    pub fn server_at(&self, i: usize) -> (r: (&String, &Server))
        requires
            i < self.deep_view().walk.len(),
        ensures
            r.0@ == self.deep_view().walk[i as int],
            self.deep_view().servers.contains_key(r.0@),
            r.1.deep_view() == self.deep_view().servers[r.0@],
    {
        (self.servers.key_at(i), self.servers.value_at(i))
    }

    /// The namespace that a policy means.
    fn namespace_or_own(&self, namespace: &Option<String>) -> (r: String)
        ensures
            r@ == self.deep_view().namespace_or_own(namespace.deep_view()),
    {
        match namespace {
            Some(namespace) => namespace.clone(),
            None => self.namespace.clone(),
        }
    }

    /// The identities that a policy asks for, if any.
    fn policy_identities(&self, spec: &Spec, authns: &AuthenticationNsIndex) -> (r: Result<
        Option<Vec<IdentityMatch>>,
        IllegalPolicy,
    >)
        ensures
            ({
                let targets = spec.deep_view().authentications;
                let all = authns.deep_view();
                let fault = first(targets.len(), self.deep_view().identity_faults(targets, all));
                match r {
                    Ok(ids) => fault is None && ids.deep_view() == first(
                        targets.len(),
                        self.deep_view().identities(targets, all),
                    ),
                    Err(e) => fault == Some(e.deep_view()),
                }
            }),
    {
        let ghost policy = self.deep_view();
        let ghost targets = spec.deep_view().authentications;
        let ghost all = authns.deep_view();
        let mut identities: Option<Vec<IdentityMatch>> = None;
        let mut i: usize = 0;
        while i < spec.authentications.len()
            invariant
                i <= spec.authentications.len(),
                policy == self.deep_view(),
                targets == spec.deep_view().authentications,
                all == authns.deep_view(),
                first(i as nat, policy.identity_faults(targets, all)) is None,
                identities.deep_view() == first(i as nat, policy.identities(targets, all)),
            decreases spec.authentications.len() - i,
        {
            match &spec.authentications[i] {
                AuthenticationTarget::MeshTLS { namespace, name } => {
                    let namespace = self.namespace_or_own(namespace);
                    match authns.meshtls(&namespace, name) {
                        None => {
                            let name = name.clone();
                            let fault = IllegalPolicy::MeshTLSNotFound { namespace, name };
                            proof {
                                first_is_kept(
                                    policy.identity_faults(targets, all),
                                    i as nat,
                                    targets.len(),
                                );
                            }
                            return Err(fault);
                        },
                        Some(ids) => {
                            if identities.is_some() {
                                proof {
                                    first_is_kept(
                                        policy.identity_faults(targets, all),
                                        i as nat,
                                        targets.len(),
                                    );
                                }
                                return Err(IllegalPolicy::MultipleMeshTLS);
                            }
                            identities = Some(ids.dup());
                        },
                    }
                },
                AuthenticationTarget::ServiceAccount { namespace, name } => {
                    if identities.is_some() {
                        proof {
                            first_is_kept(
                                policy.identity_faults(targets, all),
                                i as nat,
                                targets.len(),
                            );
                        }
                        return Err(IllegalPolicy::MultipleServiceAccounts);
                    }
                    let namespace = self.namespace_or_own(namespace);
                    let id = self.cluster_info.service_account_identity(
                        namespace.as_str(),
                        name.as_str(),
                    );
                    let ids = vec![IdentityMatch::Exact(id)];
                    identities = Some(ids);
                },
                AuthenticationTarget::Network { .. } => {},
            }
            i = i + 1;
        }
        Ok(identities)
    }

    /// The networks that a policy asks for, if any.
    fn policy_networks(&self, spec: &Spec, authns: &AuthenticationNsIndex) -> (r: Result<
        Option<Vec<NetworkMatch>>,
        IllegalPolicy,
    >)
        ensures
            ({
                let targets = spec.deep_view().authentications;
                let all = authns.deep_view();
                let fault = first(targets.len(), self.deep_view().network_faults(targets, all));
                match r {
                    Ok(nets) => fault is None && nets.deep_view() == first(
                        targets.len(),
                        self.deep_view().networks(targets, all),
                    ),
                    Err(e) => fault == Some(e.deep_view()),
                }
            }),
    {
        let ghost policy = self.deep_view();
        let ghost targets = spec.deep_view().authentications;
        let ghost all = authns.deep_view();
        let ghost faults = policy.network_faults(targets, all);
        let mut networks: Option<Vec<NetworkMatch>> = None;
        let mut i: usize = 0;
        while i < spec.authentications.len()
            invariant
                i <= spec.authentications.len(),
                policy == self.deep_view(),
                targets == spec.deep_view().authentications,
                all == authns.deep_view(),
                faults == policy.network_faults(targets, all),
                first(i as nat, faults) is None,
                networks.deep_view() == first(i as nat, policy.networks(targets, all)),
            decreases spec.authentications.len() - i,
        {
            if let AuthenticationTarget::Network { namespace, name } = &spec.authentications[i] {
                let namespace = self.namespace_or_own(namespace);
                match authns.network(&namespace, name) {
                    None => {
                        let name = name.clone();
                        proof {
                            first_is_kept(faults, i as nat, targets.len());
                        }
                        return Err(IllegalPolicy::NetworkNotFound { namespace, name });
                    },
                    Some(nets) => {
                        if networks.is_some() {
                            proof {
                                first_is_kept(faults, i as nat, targets.len());
                            }
                            return Err(IllegalPolicy::MultipleNetworks);
                        }
                        networks = Some(nets.dup());
                    },
                }
            }
            i = i + 1;
        }
        Ok(networks)
    }

    /// The clients that a policy authorizes.
    pub fn policy_client_authz(&self, spec: &Spec, authns: &AuthenticationNsIndex) -> (r: Result<
        ClientAuthorization,
        IllegalPolicy,
    >)
        ensures
            match (r, self.deep_view().policy_client_authz(spec.deep_view(), authns.deep_view())) {
                (Ok(authz), Ok(model)) => authz.deep_view() == model,
                (Err(e), Err(model)) => e.deep_view() == model,
                _ => false,
            },
    {
        let authentication = match self.policy_identities(spec, authns) {
            Ok(Some(ids)) => ClientAuthentication::TlsAuthenticated(ids),
            Ok(None) => ClientAuthentication::Unauthenticated,
            Err(e) => return Err(e),
        };
        let networks = match self.policy_networks(spec, authns) {
            Ok(Some(nets)) => nets,
            Ok(None) => NetworkMatch::all(),
            Err(e) => return Err(e),
        };
        Ok(ClientAuthorization { networks, authentication })
    }

    /// Adds the authorizations that policies give to a subject.
    fn add_policy_authzs(
        &self,
        subject: &Subject,
        authns: &AuthenticationNsIndex,
        authzs: &mut CodeTable<AuthorizationRef, ClientAuthorization>,
    )
        ensures
            final(authzs).deep_view() == old(authzs).deep_view().union_prefer_right(
                self.deep_view().policy_authzs(subject.deep_view(), authns.deep_view()),
            ),
    {
        let ghost before = authzs.deep_view();
        let ghost added = self.deep_view().policy_authzs(subject.deep_view(), authns.deep_view());
        let ghost walk = self.authorization_policies.walk();
        let ghost mut done = Set::<AuthorizationRefModel>::empty();
        let n: usize = self.authorization_policies.len();
        let mut i: usize = 0;
        while i < n
            invariant
                i <= n,
                n == walk.len(),
                walk == self.authorization_policies.walk(),
                added == self.deep_view().policy_authzs(subject.deep_view(), authns.deep_view()),
                forall|j: int|
                    0 <= j < i ==> done.contains(
                        AuthorizationRefModel::AuthorizationPolicy(#[trigger] walk[j]),
                    ),
                authzs.deep_view() =~= before.union_prefer_right(added.restrict(done)),
            decreases n - i,
        {
            let name = self.authorization_policies.key_at(i);
            let spec = self.authorization_policies.value_at(i);
            if spec.target.applies_to(subject) {
                if let Ok(authz) = self.policy_client_authz(spec, authns) {
                    authzs.insert(AuthorizationRef::AuthorizationPolicy(name.clone()), authz);
                }
            }
            proof {
                done = done.insert(AuthorizationRefModel::AuthorizationPolicy(name@));
            }
            i = i + 1;
        }
    }

    /// Who may talk to a server.
    pub fn client_authzs(
        &self,
        server_name: &String,
        server: &Server,
        authns: &AuthenticationNsIndex,
    ) -> (r: CodeTable<AuthorizationRef, ClientAuthorization>)
        ensures
            r.deep_view() == self.deep_view().client_authzs(
                server_name@,
                server.deep_view(),
                authns.deep_view(),
            ),
    {
        let mut authzs: CodeTable<AuthorizationRef, ClientAuthorization> = CodeTable::new();
        let ghost added = self.deep_view().server_authzs(server_name@, server.deep_view().labels);
        let ghost walk = self.server_authorizations.walk();
        let ghost mut done = Set::<AuthorizationRefModel>::empty();
        let n: usize = self.server_authorizations.len();
        let mut i: usize = 0;
        while i < n
            invariant
                i <= n,
                n == walk.len(),
                walk == self.server_authorizations.walk(),
                added == self.deep_view().server_authzs(server_name@, server.deep_view().labels),
                forall|j: int|
                    0 <= j < i ==> done.contains(
                        AuthorizationRefModel::ServerAuthorization(#[trigger] walk[j]),
                    ),
                authzs.deep_view() =~= added.restrict(done),
            decreases n - i,
        {
            let name = self.server_authorizations.key_at(i);
            let saz = self.server_authorizations.value_at(i);
            if saz.server_selector.selects(server_name, &server.labels) {
                authzs.insert(AuthorizationRef::ServerAuthorization(name.clone()), saz.authz.dup());
            }
            proof {
                done = done.insert(AuthorizationRefModel::ServerAuthorization(name@));
            }
            i = i + 1;
        }
        self.add_policy_authzs(&Subject::Server(server_name.clone()), authns, &mut authzs);
        authzs
    }

    /// Who may talk to a port of an external group.
    pub fn workload_authzs(
        &self,
        workload_name: &String,
        port: u16,
        authns: &AuthenticationNsIndex,
    ) -> (r: CodeTable<AuthorizationRef, ClientAuthorization>)
        ensures
            r.deep_view() == self.deep_view().workload_authzs(
                workload_name@,
                port,
                authns.deep_view(),
            ),
    {
        let mut authzs: CodeTable<AuthorizationRef, ClientAuthorization> = CodeTable::new();
        let subject = Subject::Workload(workload_name.clone(), port);
        self.add_policy_authzs(&subject, authns, &mut authzs);
        authzs
    }

    /// Who may use a route.
    pub fn route_client_authzs(&self, gkn: &GroupKindName, authns: &AuthenticationNsIndex) -> (r:
        CodeTable<AuthorizationRef, ClientAuthorization>)
        ensures
            r.deep_view() == self.deep_view().route_client_authzs(
                gkn.deep_view(),
                authns.deep_view(),
            ),
    {
        let mut authzs: CodeTable<AuthorizationRef, ClientAuthorization> = CodeTable::new();
        self.add_policy_authzs(&Subject::Route(gkn.dup()), authns, &mut authzs);
        authzs
    }

    /// The routes of a server.
    pub fn http_routes(
        &self,
        server_name: &String,
        authns: &AuthenticationNsIndex,
        probe_paths: &Vec<String>,
    ) -> (r: CodeTable<HttpRouteRef, HttpRoute>)
        ensures
            r.deep_view() == self.deep_view().routes(
                server_name@,
                authns.deep_view(),
                probe_paths.deep_view(),
            ),
    {
        let mut routes: CodeTable<HttpRouteRef, HttpRoute> = CodeTable::new();
        let ghost attached = self.deep_view().attached_routes(server_name@, authns.deep_view());
        let ghost walk = self.http_routes.walk();
        let ghost mut done = Set::<HttpRouteRefModel>::empty();
        let n: usize = self.http_routes.len();
        let mut i: usize = 0;
        while i < n
            invariant
                i <= n,
                n == walk.len(),
                walk == self.http_routes.walk(),
                attached == self.deep_view().attached_routes(server_name@, authns.deep_view()),
                forall|j: int|
                    0 <= j < i ==> done.contains(HttpRouteRefModel::Linkerd(#[trigger] walk[j])),
                routes.deep_view() =~= attached.restrict(done),
            decreases n - i,
        {
            let gkn = self.http_routes.key_at(i);
            let binding = self.http_routes.value_at(i);
            if binding.selects_server(server_name) && binding.accepted_by_server(server_name) {
                let mut route = binding.route.dup();
                route.authorizations = self.route_client_authzs(gkn, authns);
                routes.insert(HttpRouteRef::Linkerd(gkn.dup()), route);
            }
            proof {
                done = done.insert(HttpRouteRefModel::Linkerd(gkn.deep_view()));
            }
            i = i + 1;
        }
        assert(attached.restrict(done) =~= attached);
        if !routes.is_empty() {
            return routes;
        }
        self.cluster_info.default_inbound_http_routes(probe_paths)
    }

    /// The configuration of a port that a server selects.
    pub fn inbound_server(
        &self,
        name: String,
        server: &Server,
        authns: &AuthenticationNsIndex,
        probe_paths: &Vec<String>,
    ) -> (r: InboundServer)
        ensures
            r.deep_view() == self.deep_view().inbound_server(
                name@,
                server.deep_view(),
                authns.deep_view(),
                probe_paths.deep_view(),
            ),
    {
        let authorizations = self.client_authzs(&name, server, authns);
        let http_routes = self.http_routes(&name, authns, probe_paths);
        InboundServer {
            reference: ServerRef::Server(name),
            protocol: server.protocol,
            authorizations,
            http_routes,
        }
    }
}

} // verus!
