use inbound_index::authentications::AuthenticationNsIndex;
use inbound_index::authorization_policy::{AuthenticationTarget, Spec, Target};
use inbound_index::authz::{
    AuthorizationRef, ClientAuthentication, ClientAuthorization, IdentityMatch, IpNet, NetworkMatch,
};
use inbound_index::cluster::{ClusterInfo, DefaultPolicy};
use inbound_index::inbound::{ProxyProtocol, Timeout};
use inbound_index::index::Index;
use inbound_index::labels::{Expression, Labels, Operator, Selector};
use inbound_index::meta::ObjectMeta;
use inbound_index::policy::{IllegalPolicy, PolicyChange, PolicyIndex};
use inbound_index::listing::Change;
use inbound_index::route::{
    gkn_for_gateway_http_route, gkn_for_linkerd_http_route, FieldMatch, GroupKindName, HttpRoute,
    HttpRouteMatch, HttpRouteRef, ParentRef, RouteBinding, RouteStatus,
};
use inbound_index::server::{PortRef, Server};
use inbound_index::server_authorization::{ServerAuthz, ServerSelector};
use inbound_index::table::{NameTable, PortTable};
use inbound_index::value::Value;
use std::sync::Arc;

fn s(x: &str) -> String {
    x.to_string()
}

fn cluster() -> Arc<ClusterInfo> {
    Arc::new(ClusterInfo {
        networks: vec![IpNet::V4 { addr: 0x0a00_0000, prefix: 8 }],
        control_plane_ns: s("linkerd"),
        identity_domain: s("cluster.example.com"),
        default_policy: DefaultPolicy::Deny,
        default_detect_timeout: Timeout { secs: 10, nanos: 0 },
        probe_networks: vec![IpNet::V4 { addr: 0x0a00_0001, prefix: 32 }],
    })
}

fn names(pairs: &[(&str, &str)]) -> Labels {
    let mut t: Labels = NameTable::new();
    for (k, v) in pairs {
        t.insert(s(k), s(v));
    }
    t
}

fn srv(labels: &[(&str, &str)]) -> Server {
    Server {
        labels: names(labels),
        pod_selector: Selector { match_labels: names(&[]), match_expressions: Vec::new() },
        port_ref: PortRef::Number(80),
        protocol: ProxyProtocol::Http1,
    }
}

fn nets() -> Vec<NetworkMatch> {
    vec![NetworkMatch::whole(IpNet::V4 { addr: 0xc0a8_0000, prefix: 16 })]
}

fn everyone() -> ClientAuthorization {
    ClientAuthorization {
        networks: NetworkMatch::all(),
        authentication: ClientAuthentication::Unauthenticated,
    }
}

fn policy(target: Target, authentications: Vec<AuthenticationTarget>) -> Spec {
    Spec { target, authentications }
}

fn meshtls(ns: Option<&str>, name: &str) -> AuthenticationTarget {
    AuthenticationTarget::MeshTLS { namespace: ns.map(s), name: s(name) }
}

fn network(ns: Option<&str>, name: &str) -> AuthenticationTarget {
    AuthenticationTarget::Network { namespace: ns.map(s), name: s(name) }
}

fn account(ns: Option<&str>, name: &str) -> AuthenticationTarget {
    AuthenticationTarget::ServiceAccount { namespace: ns.map(s), name: s(name) }
}

fn authns() -> AuthenticationNsIndex {
    let mut authns = AuthenticationNsIndex::new();
    assert!(authns.update_meshtls(s("ns-0"), s("ids"), vec![IdentityMatch::Exact(s("a.b"))]));
    assert!(authns.update_meshtls(s("ns-1"), s("ids"), vec![IdentityMatch::Suffix(vec![s("b")])]));
    assert!(authns.update_network(s("ns-0"), s("nets"), nets()));
    authns
}

fn policies() -> PolicyIndex {
    PolicyIndex::new(s("ns-0"), cluster())
}

fn authorized(spec: &Spec) -> ClientAuthorization {
    policies().policy_client_authz(spec, &authns()).unwrap()
}

fn refused(authentications: Vec<AuthenticationTarget>) -> IllegalPolicy {
    policies()
        .policy_client_authz(&policy(Target::Namespace, authentications), &authns())
        .unwrap_err()
}

#[test]
fn policy_without_authentications_lets_everyone_in() {
    let authz = authorized(&policy(Target::Namespace, vec![]));
    assert!(authz.same(&everyone()));
}

#[test]
fn policy_names_identities_and_networks() {
    let authz = authorized(&policy(
        Target::Namespace,
        vec![network(None, "nets"), meshtls(None, "ids")],
    ));
    assert!(authz.networks.same(&nets()));
    let ids = vec![IdentityMatch::Exact(s("a.b"))];
    assert!(authz.authentication.same(&ClientAuthentication::TlsAuthenticated(ids)));
}

#[test]
fn authentications_of_other_namespaces() {
    let authz = authorized(&policy(Target::Namespace, vec![meshtls(Some("ns-1"), "ids")]));
    let ids = vec![IdentityMatch::Suffix(vec![s("b")])];
    assert!(authz.authentication.same(&ClientAuthentication::TlsAuthenticated(ids)));
    assert!(authz.networks.same(&NetworkMatch::all()));
}

#[test]
fn service_accounts_have_identities() {
    for (ns, expected) in [
        (None, "web.ns-0.serviceaccount.identity.linkerd.cluster.example.com"),
        (Some("other"), "web.other.serviceaccount.identity.linkerd.cluster.example.com"),
    ] {
        let authz = authorized(&policy(Target::Namespace, vec![account(ns, "web")]));
        let ids = vec![IdentityMatch::Exact(s(expected))];
        assert!(authz.authentication.same(&ClientAuthentication::TlsAuthenticated(ids)));
    }
}

#[test]
fn missing_authentications_are_illegal() {
    let e = refused(vec![meshtls(None, "nobody")]);
    assert_eq!(e.message(), "could not find MeshTLSAuthentication nobody in namespace ns-0");
    assert!(
        matches!(e, IllegalPolicy::MeshTLSNotFound { namespace, name } if namespace == "ns-0" && name == "nobody")
    );
    let e = refused(vec![network(Some("ns-1"), "nets")]);
    assert_eq!(e.message(), "could not find NetworkAuthentication nets in namespace ns-1");
    assert!(
        matches!(e, IllegalPolicy::NetworkNotFound { namespace, name } if namespace == "ns-1" && name == "nets")
    );
    // Identities are looked at before networks.
    let e = refused(vec![network(None, "nowhere"), meshtls(None, "nobody")]);
    assert!(matches!(e, IllegalPolicy::MeshTLSNotFound { .. }));
}

#[test]
fn multiple_authentications_are_illegal() {
    let e = refused(vec![meshtls(None, "ids"), meshtls(Some("ns-1"), "ids")]);
    assert!(matches!(e, IllegalPolicy::MultipleMeshTLS));
    let e = refused(vec![account(None, "web"), meshtls(None, "ids")]);
    assert!(matches!(e, IllegalPolicy::MultipleMeshTLS));
    assert_eq!(e.message(), "policy must not include multiple MeshTLSAuthentications");
    let e = refused(vec![meshtls(None, "ids"), account(None, "web")]);
    assert!(matches!(e, IllegalPolicy::MultipleServiceAccounts));
    assert_eq!(e.message(), "policy must not include multiple ServiceAccounts");
    let e = refused(vec![account(None, "web"), meshtls(None, "nobody")]);
    assert!(matches!(e, IllegalPolicy::MeshTLSNotFound { .. }));
    let e = refused(vec![network(None, "nets"), network(None, "nets")]);
    assert!(matches!(e, IllegalPolicy::MultipleNetworks));
    assert_eq!(e.message(), "policy must not include multiple NetworkAuthentications");
}

#[test]
fn server_authorizations_select_by_name_or_label() {
    let mut p = policies();
    assert!(p.update_server_authz(
        s("by-name"),
        ServerAuthz { authz: everyone(), server_selector: ServerSelector::Name(s("srv-0")) },
    ));
    let selector = Selector {
        match_labels: names(&[("app", "web")]),
        match_expressions: vec![Expression {
            key: s("tier"),
            operator: Operator::NotIn,
            values: Some(vec![s("back")]),
        }],
    };
    assert!(p.update_server_authz(
        s("by-label"),
        ServerAuthz { authz: everyone(), server_selector: ServerSelector::Selector(selector) },
    ));
    let by_name = AuthorizationRef::ServerAuthorization(s("by-name"));
    let by_label = AuthorizationRef::ServerAuthorization(s("by-label"));
    let a = p.client_authzs(&s("srv-0"), &srv(&[("app", "web"), ("tier", "back")]), &authns());
    assert!(a.get(&by_name).is_some() && a.get(&by_label).is_none());
    let a = p.client_authzs(&s("srv-1"), &srv(&[("app", "web"), ("tier", "front")]), &authns());
    assert!(a.get(&by_name).is_none() && a.get(&by_label).is_some());
    assert!(p.workload_authzs(&s("srv-0"), 80, &authns()).is_empty());
}

#[test]
fn policies_apply_to_their_targets() {
    let mut p = policies();
    let gkn = gkn_for_linkerd_http_route(s("route-0"));
    assert!(p.update_authz_policy(s("ns"), policy(Target::Namespace, vec![])));
    assert!(p.update_authz_policy(s("srv"), policy(Target::Server(s("srv-0")), vec![])));
    assert!(p.update_authz_policy(s("route"), policy(Target::HttpRoute(gkn.dup()), vec![])));
    assert!(p.update_authz_policy(
        s("group"),
        policy(Target::ExternalGroup((s("group-0"), Some(80))), vec![]),
    ));
    assert!(p.update_authz_policy(
        s("portless"),
        policy(Target::ExternalGroup((s("group-0"), None)), vec![]),
    ));
    assert!(p.update_authz_policy(
        s("illegal"),
        policy(Target::Namespace, vec![network(None, "nowhere")]),
    ));
    let of = |name: &str| AuthorizationRef::AuthorizationPolicy(s(name));

    let a = p.client_authzs(&s("srv-0"), &srv(&[]), &authns());
    assert_eq!(a.len(), 2);
    assert!(a.get(&of("ns")).is_some() && a.get(&of("srv")).is_some());
    let a = p.client_authzs(&s("srv-1"), &srv(&[]), &authns());
    assert_eq!(a.len(), 1);

    let a = p.workload_authzs(&s("group-0"), 80, &authns());
    assert_eq!(a.len(), 2);
    assert!(a.get(&of("ns")).is_some() && a.get(&of("group")).is_some());
    assert_eq!(p.workload_authzs(&s("group-0"), 81, &authns()).len(), 1);
    assert_eq!(p.workload_authzs(&s("group-1"), 80, &authns()).len(), 1);

    let a = p.route_client_authzs(&gkn, &authns());
    assert_eq!(a.len(), 1);
    assert!(a.get(&of("route")).is_some());
    let shouted = GroupKindName {
        group: s("POLICY.linkerd.io"),
        kind: s("httproute"),
        name: s("Route-0"),
    };
    assert_eq!(p.route_client_authzs(&shouted, &authns()).len(), 1);
    let other = gkn_for_gateway_http_route(s("route-0"));
    assert!(p.route_client_authzs(&other, &authns()).is_empty());
}

fn binding(server: &str, accepted: bool) -> RouteBinding {
    RouteBinding {
        parents: vec![ParentRef::Server(s(server))],
        route: HttpRoute::default(),
        statuses: vec![RouteStatus { parent: ParentRef::Server(s(server)), accepted }],
    }
}

#[test]
fn accepted_routes_replace_the_default_ones() {
    let mut p = policies();
    let gkn = gkn_for_gateway_http_route(s("route-0"));
    let paths = vec![s("/live")];
    assert_eq!(p.http_routes(&s("srv-0"), &authns(), &paths).len(), 2);

    assert!(p.update_http_route(gkn.dup(), binding("srv-0", false)));
    let routes = p.http_routes(&s("srv-0"), &authns(), &paths);
    assert!(routes.get(&HttpRouteRef::Default(s("probe"))).is_some());

    assert!(p.update_http_route(gkn.dup(), binding("srv-0", true)));
    assert!(!p.update_http_route(gkn.dup(), binding("srv-0", true)));
    assert!(p.update_authz_policy(s("route"), policy(Target::HttpRoute(gkn.dup()), vec![])));
    let routes = p.http_routes(&s("srv-0"), &authns(), &paths);
    assert_eq!(routes.len(), 1);
    let route = routes.get(&HttpRouteRef::Linkerd(gkn)).unwrap();
    assert_eq!(route.authorizations.len(), 1);
    let routes = p.http_routes(&s("srv-1"), &authns(), &paths);
    assert!(routes.get(&HttpRouteRef::Default(s("default"))).is_some());
}

#[test]
fn updates_tell_whether_something_changed() {
    let mut p = policies();
    assert!(p.is_empty());
    assert!(p.update_server(s("srv-0"), srv(&[])));
    assert!(!p.update_server(s("srv-0"), srv(&[])));
    assert!(p.update_server(s("srv-0"), srv(&[("app", "web")])));
    assert!(p.update_authz_policy(s("ap"), policy(Target::Namespace, vec![])));
    assert!(!p.update_authz_policy(s("ap"), policy(Target::Namespace, vec![])));
    assert!(p.change(PolicyChange::Servers(Change::Clear)));
    assert!(!p.is_empty());
    assert!(p.change(PolicyChange::AuthorizationPolicies(Change::Remove(s("ap")))));
    assert!(!p.change(PolicyChange::AuthorizationPolicies(Change::Remove(s("ap")))));
    assert!(p.is_empty());

    let mut a = authns();
    assert!(!a.update_network(s("ns-0"), s("nets"), nets()));
    assert!(a.update_network(s("ns-0"), s("nets"), vec![]));
    assert!(!a.update_meshtls(s("ns-0"), s("ids"), vec![IdentityMatch::Exact(s("a.b"))]));
}

#[test]
fn policies_reach_the_ports_of_external_groups() {
    let mut index = Index::new(cluster());
    let meta = || ObjectMeta { annotations: None, labels: None };
    index.apply_external_group(s("ns-0"), s("group-0"), meta(), vec![80, 81]).unwrap();
    let mut rx = index.external_server_rx("ns-0", "group-0", 80).unwrap();
    let mut other = index.external_server_rx("ns-0", "group-0", 81).unwrap();
    assert!(rx.borrow_and_update().authorizations.is_empty());
    other.borrow_and_update();
    index.apply(
        s("ns-0"),
        s("ap"),
        policy(Target::ExternalGroup((s("group-0"), Some(80))), vec![]),
    );
    assert_eq!(rx.borrow_and_update().authorizations.len(), 1);
    assert!(!other.has_changed().unwrap());
    index.delete::<Spec>(s("ns-0"), s("ap"));
    assert!(rx.borrow_and_update().authorizations.is_empty());
}

#[test]
fn routes_reach_the_ports_of_pods() {
    let mut index = Index::new(cluster());
    let meta = ObjectMeta { annotations: None, labels: None };
    index.apply_pod(s("ns-0"), s("pod-0"), meta, NameTable::new(), PortTable::new()).unwrap();
    index.apply(s("ns-0"), s("srv-0"), srv(&[]));
    let mut rx = index.pod_server_rx("ns-0", "pod-0", 80).unwrap();
    assert_eq!(rx.borrow_and_update().http_routes.len(), 1);
    let gkn = || gkn_for_linkerd_http_route(s("route-0"));
    index.apply_route(s("ns-0"), gkn(), binding("srv-0", true));
    assert!(rx.borrow_and_update().http_routes.get(&HttpRouteRef::Linkerd(gkn())).is_some());
    index.apply_route(s("ns-0"), gkn(), binding("srv-0", true));
    assert!(!rx.has_changed().unwrap());
    index.delete_route(s("ns-0"), gkn());
    assert!(rx.borrow_and_update().http_routes.get(&HttpRouteRef::Default(s("default"))).is_some());
}

#[test]
fn requests_differ_by_their_fields() {
    let request = |headers, query_params| HttpRouteMatch {
        path: None,
        headers,
        query_params,
        method: None,
    };
    let exact = || FieldMatch::Exact { name: s("x-color"), value: s("red") };
    let regex = || FieldMatch::Regex { name: s("x-color"), pattern: s("red") };
    let other = || FieldMatch::Exact { name: s("x-color"), value: s("blue") };
    let m = request(vec![exact()], vec![regex()]);
    assert!(m.same(&request(vec![exact()], vec![regex()])));
    assert!(m.same(&m.dup()));
    assert!(!m.same(&request(vec![regex()], vec![regex()])));
    assert!(!m.same(&request(vec![other()], vec![regex()])));
    assert!(!m.same(&request(vec![exact()], vec![])));
    assert!(!m.same(&request(vec![regex()], vec![exact()])));
}
