//! What is configured for the whole cluster, and the defaults that follow.
use crate::authz::{
    all_networks, whole_network, AuthorizationRef, AuthorizationRefModel, ClientAuthentication,
    ClientAuthenticationModel, ClientAuthorization, ClientAuthorizationModel, IdentityMatch,
    IdentityMatchModel, IpNet, NetworkMatch,
};
use crate::inbound::Timeout;
use crate::route::{
    catch_all_route, HttpRoute, HttpRouteMatch, HttpRouteMatchModel, HttpRouteModel, HttpRouteRef,
    HttpRouteRefModel, HttpRouteRule, HttpRouteRuleModel, PathMatch, PathMatchModel,
};
use crate::table::CodeTable;
use crate::value::{Text, Value};
use vstd::prelude::*;

verus! {

/// What applies to a port that no `Server` selects.
#[derive(Clone, Copy, Debug, PartialEq, Eq, Structural)]
pub enum DefaultPolicy {
    /// Traffic is allowed.
    Allow {
        /// Only if the client is authenticated.
        authenticated_only: bool,
        /// Only if the client is in the cluster.
        cluster_only: bool,
    },
    /// Traffic is denied unless an authorization lets it in.
    Deny,
}

impl DeepView for DefaultPolicy {
    type V = DefaultPolicy;

    open spec fn deep_view(&self) -> DefaultPolicy {
        *self
    }
}

impl Value for DefaultPolicy {
    fn same(&self, other: &Self) -> (r: bool) {
        *self == *other
    }

    fn dup(&self) -> (r: Self) {
        *self
    }
}

/// The error of a text that names no default policy.
#[derive(Clone, Copy, Debug, PartialEq, Eq, Structural)]
pub struct InvalidPolicy;

/// The clients that a default policy lets in: any identity if it asks for
/// authentication, and the networks of the cluster if it asks for those.
pub open spec fn default_clients(
    authenticated_only: bool,
    cluster_only: bool,
    networks: Seq<IpNet>,
) -> ClientAuthorizationModel {
    ClientAuthorizationModel {
        networks: if cluster_only {
            networks.map_values(|net: IpNet| whole_network(net))
        } else {
            all_networks()
        },
        authentication: if authenticated_only {
            ClientAuthenticationModel::TlsAuthenticated(
                seq![IdentityMatchModel::Suffix(Seq::empty())],
            )
        } else {
            ClientAuthenticationModel::Unauthenticated
        },
    }
}

impl DefaultPolicy {
    /// The name of a policy.
    pub open spec fn name(self) -> Text {
        match self {
            DefaultPolicy::Allow { authenticated_only: true, cluster_only: false } => {
                "all-authenticated"@
            },
            DefaultPolicy::Allow { authenticated_only: false, cluster_only: false } => {
                "all-unauthenticated"@
            },
            DefaultPolicy::Allow { authenticated_only: true, cluster_only: true } => {
                "cluster-authenticated"@
            },
            DefaultPolicy::Allow { authenticated_only: false, cluster_only: true } => {
                "cluster-unauthenticated"@
            },
            DefaultPolicy::Deny => "deny"@,
        }
    }

    /// The policy of a name.
    pub open spec fn named(s: Text) -> Option<DefaultPolicy> {
        if s == "all-authenticated"@ {
            Some(DefaultPolicy::Allow { authenticated_only: true, cluster_only: false })
        } else if s == "all-unauthenticated"@ {
            Some(DefaultPolicy::Allow { authenticated_only: false, cluster_only: false })
        } else if s == "cluster-authenticated"@ {
            Some(DefaultPolicy::Allow { authenticated_only: true, cluster_only: true })
        } else if s == "cluster-unauthenticated"@ {
            Some(DefaultPolicy::Allow { authenticated_only: false, cluster_only: true })
        } else if s == "deny"@ {
            Some(DefaultPolicy::Deny)
        } else {
            None
        }
    }

    /// A name and its policy stand for each other: the name of a policy is
    /// read as that policy, and what is read as a policy is its name.
    pub proof fn name_round_trip(policy: DefaultPolicy, s: Text)
        ensures
            DefaultPolicy::named(policy.name()) == Some(policy),
            DefaultPolicy::named(s) == Some(policy) ==> policy.name() == s,
    {
        reveal_strlit("all-authenticated");
        reveal_strlit("all-unauthenticated");
        reveal_strlit("cluster-authenticated");
        reveal_strlit("cluster-unauthenticated");
        reveal_strlit("deny");
        assert("all-unauthenticated"@.len() == 19);
        assert("all-authenticated"@.len() == 17);
        assert("cluster-authenticated"@.len() == 21);
        assert("cluster-unauthenticated"@.len() == 23);
        assert("deny"@.len() == 4);
    }

    /// The policy that also asks for authentication, unless it denies
    /// everything anyway.
    pub open spec fn requiring_identity(self) -> DefaultPolicy {
        match self {
            DefaultPolicy::Allow { cluster_only, .. } => DefaultPolicy::Allow {
                authenticated_only: true,
                cluster_only,
            },
            DefaultPolicy::Deny => DefaultPolicy::Deny,
        }
    }

    /// The authorizations of a policy: one under its name, or none if it denies
    /// everything.
    pub open spec fn authzs(self, networks: Seq<IpNet>) -> Map<
        AuthorizationRefModel,
        ClientAuthorizationModel,
    > {
        match self {
            DefaultPolicy::Allow { authenticated_only, cluster_only } => Map::empty().insert(
                AuthorizationRefModel::Default(self.name()),
                default_clients(authenticated_only, cluster_only, networks),
            ),
            DefaultPolicy::Deny => Map::empty(),
        }
    }

    /// The name of the policy.
    pub fn as_str(&self) -> (r: &'static str)
        ensures
            r@ == self.name(),
    {
        match self {
            DefaultPolicy::Allow { authenticated_only, cluster_only } => {
                match (*authenticated_only, *cluster_only) {
                    (true, false) => "all-authenticated",
                    (false, false) => "all-unauthenticated",
                    (true, true) => "cluster-authenticated",
                    (false, true) => "cluster-unauthenticated",
                }
            },
            DefaultPolicy::Deny => "deny",
        }
    }

    /// The policy of a name.
    pub fn parse(s: &str) -> (r: Result<DefaultPolicy, InvalidPolicy>)
        ensures
            r == (match DefaultPolicy::named(s@) {
                Some(policy) => Ok(policy),
                None => Err(InvalidPolicy),
            }),
    {
        let given: String = s.to_string();
        if given == "all-authenticated".to_string() {
            Ok(DefaultPolicy::Allow { authenticated_only: true, cluster_only: false })
        } else if given == "all-unauthenticated".to_string() {
            Ok(DefaultPolicy::Allow { authenticated_only: false, cluster_only: false })
        } else if given == "cluster-authenticated".to_string() {
            Ok(DefaultPolicy::Allow { authenticated_only: true, cluster_only: true })
        } else if given == "cluster-unauthenticated".to_string() {
            Ok(DefaultPolicy::Allow { authenticated_only: false, cluster_only: true })
        } else if given == "deny".to_string() {
            Ok(DefaultPolicy::Deny)
        } else {
            Err(InvalidPolicy)
        }
    }

    /// The policy that also asks for authentication, unless it denies
    /// everything anyway.
    pub fn require_identity(self) -> (r: DefaultPolicy)
        ensures
            r == self.requiring_identity(),
    {
        match self {
            DefaultPolicy::Allow { cluster_only, .. } => DefaultPolicy::Allow {
                authenticated_only: true,
                cluster_only,
            },
            DefaultPolicy::Deny => DefaultPolicy::Deny,
        }
    }

    /// The authorizations of the policy.
    pub fn default_authzs(self, config: &ClusterInfo) -> (r: CodeTable<
        AuthorizationRef,
        ClientAuthorization,
    >)
        ensures
            r.deep_view() == self.authzs(config.deep_view().networks),
    {
        let mut authzs: CodeTable<AuthorizationRef, ClientAuthorization> = CodeTable::new();
        if let DefaultPolicy::Allow { authenticated_only, cluster_only } = self {
            let authentication = if authenticated_only {
                let any: Vec<String> = Vec::new();
                let ids = vec![IdentityMatch::Suffix(any)];
                assert(any.deep_view() =~= Seq::empty());
                assert(ids.deep_view() =~= seq![IdentityMatchModel::Suffix(Seq::empty())]);
                ClientAuthentication::TlsAuthenticated(ids)
            } else {
                ClientAuthentication::Unauthenticated
            };
            let networks = if cluster_only {
                assert(config.networks.deep_view() =~= config.networks@);
                NetworkMatch::each_whole(&config.networks)
            } else {
                NetworkMatch::all()
            };
            authzs.insert(
                AuthorizationRef::Default(self.as_str().to_string()),
                ClientAuthorization { networks, authentication },
            );
        }
        authzs
    }
}

/// What is configured for the whole cluster.
#[derive(Debug)]
pub struct ClusterInfo {
    /// The networks of the cluster.
    pub networks: Vec<IpNet>,
    /// The namespace of the control plane.
    pub control_plane_ns: String,
    /// The domain of the identities that the control plane hands out.
    pub identity_domain: String,
    /// What applies to a port that no `Server` selects, unless its workload
    /// says otherwise.
    pub default_policy: DefaultPolicy,
    /// How long protocol detection may take, unless a `Server` says otherwise.
    pub default_detect_timeout: Timeout,
    /// The networks from which probes come.
    pub probe_networks: Vec<IpNet>,
}

/// What a [`ClusterInfo`] means.
#[verifier::ext_equal]
pub struct ClusterInfoModel {
    pub networks: Seq<IpNet>,
    pub control_plane_ns: Text,
    pub identity_domain: Text,
    pub default_policy: DefaultPolicy,
    pub default_detect_timeout: Timeout,
    pub probe_networks: Seq<IpNet>,
}

impl DeepView for ClusterInfo {
    type V = ClusterInfoModel;

    open spec fn deep_view(&self) -> ClusterInfoModel {
        ClusterInfoModel {
            networks: self.networks.deep_view(),
            control_plane_ns: self.control_plane_ns@,
            identity_domain: self.identity_domain@,
            default_policy: self.default_policy,
            default_detect_timeout: self.default_detect_timeout,
            probe_networks: self.probe_networks.deep_view(),
        }
    }
}

/// A request for exactly one path, with the method of a probe.
pub open spec fn probe_match(path: Text) -> HttpRouteMatchModel {
    HttpRouteMatchModel {
        path: Some(PathMatchModel::Exact(path)),
        headers: Seq::empty(),
        query_params: Seq::empty(),
        method: Some("GET"@),
    }
}

/// The route that lets probes of these paths in, from these networks.
pub open spec fn probe_route(networks: Seq<IpNet>, paths: Seq<Text>) -> HttpRouteModel {
    HttpRouteModel {
        hostnames: Seq::empty(),
        rules: seq![
            HttpRouteRuleModel {
                matches: paths.map_values(|path: Text| probe_match(path)),
                filters: Seq::empty(),
            },
        ],
        authorizations: Map::empty().insert(
            AuthorizationRefModel::Default("probe"@),
            ClientAuthorizationModel {
                networks: networks.map_values(|net: IpNet| whole_network(net)),
                authentication: ClientAuthenticationModel::Unauthenticated,
            },
        ),
        creation_timestamp: None,
    }
}

impl ClusterInfoModel {
    /// The identity of a service account.
    pub open spec fn service_account_identity(self, namespace: Text, name: Text) -> Text {
        name + "."@ + namespace + ".serviceaccount.identity."@ + self.control_plane_ns + "."@
            + self.identity_domain
    }

    /// The routes of a server that has none of its own: one that matches every
    /// request and, where there are both probe networks and probe paths, one
    /// for the probes.
    pub open spec fn default_routes(self, probe_paths: Seq<Text>) -> Map<
        HttpRouteRefModel,
        HttpRouteModel,
    > {
        let routes = Map::empty().insert(HttpRouteRefModel::Default("default"@), catch_all_route());
        if self.probe_networks.len() == 0 || probe_paths.len() == 0 {
            routes
        } else {
            routes.insert(
                HttpRouteRefModel::Default("probe"@),
                probe_route(self.probe_networks, probe_paths),
            )
        }
    }
}

impl ClusterInfoModel {
    /// A server that has no routes of its own takes every request, and probes in
    /// particular exactly if there are probe networks and probe paths. Then each
    /// path is let in from each network, without authentication.
    pub proof fn probes_are_let_in(self, probe_paths: Seq<Text>)
        ensures
            ({
                let routes = self.default_routes(probe_paths);
                let probe = HttpRouteRefModel::Default("probe"@);
                let authz = routes[probe].authorizations[AuthorizationRefModel::Default("probe"@)];
                &&& routes[HttpRouteRefModel::Default("default"@)] == catch_all_route()
                &&& routes.contains_key(HttpRouteRefModel::Default("default"@))
                &&& routes.contains_key(probe) <==> self.probe_networks.len() > 0
                    && probe_paths.len() > 0
                &&& routes.contains_key(probe) ==> {
                    &&& forall|i: int|
                        0 <= i < probe_paths.len() ==> routes[probe].rules[0].matches[i]
                            == probe_match(#[trigger] probe_paths[i])
                    &&& forall|i: int|
                        0 <= i < self.probe_networks.len() ==> authz.networks[i] == whole_network(
                            #[trigger] self.probe_networks[i],
                        )
                    &&& authz.authentication is Unauthenticated
                }
            }),
    {
        reveal_strlit("default");
        reveal_strlit("probe");
        assert("default"@.len() != "probe"@.len());
    }
}

/// One match for each probe path.
fn probe_matches(probe_paths: &Vec<String>) -> (r: Vec<HttpRouteMatch>)
    ensures
        r.deep_view() == probe_paths.deep_view().map_values(|path: Text| probe_match(path)),
{
    let mut matches: Vec<HttpRouteMatch> = Vec::new();
    let mut i: usize = 0;
    while i < probe_paths.len()
        invariant
            i <= probe_paths.len(),
            matches@.len() == i,
            forall|j: int|
                0 <= j < i ==> (#[trigger] matches@[j]).deep_view() == probe_match(
                    probe_paths@[j]@,
                ),
        decreases probe_paths.len() - i,
    {
        let m = HttpRouteMatch {
            path: Some(PathMatch::Exact(probe_paths[i].clone())),
            headers: Vec::new(),
            query_params: Vec::new(),
            method: Some("GET".to_string()),
        };
        assert(m.deep_view() =~~= probe_match(probe_paths@[i as int]@));
        matches.push(m);
        i = i + 1;
    }
    assert(matches.deep_view() =~= probe_paths.deep_view().map_values(
        |path: Text| probe_match(path),
    ));
    matches
}

impl ClusterInfo {
    /// The identity of a service account.
    pub fn service_account_identity(&self, namespace: &str, name: &str) -> (r: String)
        ensures
            r@ == self.deep_view().service_account_identity(namespace@, name@),
    {
        name.to_string().concat(".").concat(namespace).concat(".serviceaccount.identity.").concat(
            self.control_plane_ns.as_str(),
        ).concat(".").concat(self.identity_domain.as_str())
    }

    /// The routes of a server that has none of its own.
    pub fn default_inbound_http_routes(&self, probe_paths: &Vec<String>) -> (r: CodeTable<
        HttpRouteRef,
        HttpRoute,
    >)
        ensures
            r.deep_view() == self.deep_view().default_routes(probe_paths.deep_view()),
    {
        let mut routes: CodeTable<HttpRouteRef, HttpRoute> = CodeTable::new();
        routes.insert(HttpRouteRef::Default("default".to_string()), HttpRoute::default());
        if self.probe_networks.is_empty() || probe_paths.is_empty() {
            return routes;
        }
        let mut authorizations: CodeTable<AuthorizationRef, ClientAuthorization> =
            CodeTable::new();
        assert(self.probe_networks.deep_view() =~= self.probe_networks@);
        authorizations.insert(
            AuthorizationRef::Default("probe".to_string()),
            ClientAuthorization {
                networks: NetworkMatch::each_whole(&self.probe_networks),
                authentication: ClientAuthentication::Unauthenticated,
            },
        );
        let route = HttpRoute {
            hostnames: Vec::new(),
            rules: vec![
                HttpRouteRule { matches: probe_matches(probe_paths), filters: Vec::new() },
            ],
            authorizations,
            creation_timestamp: None,
        };
        assert(route.deep_view() =~~= probe_route(
            self.deep_view().probe_networks,
            probe_paths.deep_view(),
        ));
        routes.insert(HttpRouteRef::Default("probe".to_string()), route);
        routes
    }
}

} // verus!
