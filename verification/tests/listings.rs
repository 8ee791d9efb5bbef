use inbound_index::authorization_policy::{AuthenticationTarget, Spec, Target};
use inbound_index::authz::{ClientAuthentication, IdentityMatch, IpNet, NetworkMatch};
use inbound_index::cluster::{ClusterInfo, DefaultPolicy};
use inbound_index::inbound::{InboundServer, ProxyProtocol, ServerRef, Timeout};
use inbound_index::index::{Index, NotFound};
use inbound_index::labels::Selector;
use inbound_index::listing::{group_by_ns, keep_valid, Change, Listed, NsUpdate};
use inbound_index::meta::ObjectMeta;
use inbound_index::route::{
    gkn_for_gateway_http_route, gkn_for_linkerd_http_route, GroupKindName, HttpRoute, ParentRef,
    RouteBinding, RouteStatus,
};
use inbound_index::server::{PortRef, Server};
use inbound_index::table::{NameTable, PortTable};
use std::sync::Arc;
use tokio::sync::watch;

fn s(x: &str) -> String {
    x.to_string()
}

fn index() -> Index {
    Index::new(Arc::new(ClusterInfo {
        networks: vec![],
        control_plane_ns: s("linkerd"),
        identity_domain: s("cluster.local"),
        default_policy: DefaultPolicy::Deny,
        default_detect_timeout: Timeout { secs: 10, nanos: 0 },
        probe_networks: vec![],
    }))
}

fn with_pods() -> Index {
    let mut index = index();
    for ns in ["ns-0", "ns-1"] {
        let meta = ObjectMeta { annotations: None, labels: None };
        index.apply_pod(s(ns), s("pod"), meta, NameTable::new(), PortTable::new()).unwrap();
    }
    index
}

fn server(port: u16) -> Server {
    Server {
        labels: NameTable::new(),
        pod_selector: Selector { match_labels: NameTable::new(), match_expressions: Vec::new() },
        port_ref: PortRef::Number(port),
        protocol: ProxyProtocol::Http1,
    }
}

fn listed<K, T>(ns: &str, key: K, value: T) -> Listed<K, T> {
    Listed { namespace: s(ns), key, value }
}

fn gone(pairs: &[(&str, &[&str])]) -> NameTable<Vec<String>> {
    let mut t = NameTable::new();
    for (ns, names) in pairs {
        t.insert(s(ns), names.iter().map(|n| s(n)).collect::<Vec<String>>());
    }
    t
}

fn selected(rx: &watch::Receiver<InboundServer>) -> bool {
    matches!(rx.borrow().reference, ServerRef::Server(_))
}

#[test]
fn listing_sets_and_removes() {
    let mut index = with_pods();
    index.apply(s("ns-0"), s("old"), server(80));
    let old = index.pod_server_rx("ns-0", "pod", 80).unwrap();
    let new = index.pod_server_rx("ns-0", "pod", 81).unwrap();
    assert!(selected(&old) && !selected(&new));
    index.reset(vec![listed("ns-0", s("new"), Some(server(81)))], gone(&[("ns-0", &["old"])]));
    assert!(!selected(&old) && selected(&new));
}

#[test]
fn listing_leaves_other_namespaces_alone() {
    let mut index = with_pods();
    index.apply(s("ns-1"), s("srv"), server(80));
    let mut rx = index.pod_server_rx("ns-1", "pod", 80).unwrap();
    rx.borrow_and_update();
    index.reset(vec![listed("ns-0", s("srv"), Some(server(80)))], gone(&[]));
    assert!(!rx.has_changed().unwrap());
    let rx = index.pod_server_rx("ns-0", "pod", 80).unwrap();
    assert!(selected(&rx));
}

#[test]
fn repeated_listing_changes_nothing() {
    let mut index = with_pods();
    let all = || vec![listed("ns-0", s("srv"), Some(server(80)))];
    index.reset(all(), gone(&[]));
    let mut rx = index.pod_server_rx("ns-0", "pod", 80).unwrap();
    rx.borrow_and_update();
    index.reset(all(), gone(&[]));
    assert!(!rx.has_changed().unwrap());
}

#[test]
fn namespace_without_listed_resources_loses_all_of_them() {
    let mut index = with_pods();
    index.apply(s("ns-0"), s("a"), server(80));
    index.apply(s("ns-0"), s("b"), server(81));
    let a = index.pod_server_rx("ns-0", "pod", 80).unwrap();
    let b = index.pod_server_rx("ns-0", "pod", 81).unwrap();
    index.reset::<Server>(vec![], gone(&[("ns-0", &["a"])]));
    assert!(!selected(&a) && !selected(&b));
}

#[test]
fn namespace_without_resources_is_forgotten() {
    let mut index = index();
    index.apply(s("ns-0"), s("a"), server(80));
    index.reset::<Server>(vec![], gone(&[("ns-0", &["a"]), ("ns-1", &["a"])]));
    for ns in ["ns-0", "ns-1"] {
        let err = index.pod_server_rx(ns, "pod", 80).unwrap_err();
        assert!(matches!(err, NotFound::Namespace { .. }));
    }
}

#[test]
fn namespace_with_policies_alone_is_kept() {
    let mut index = with_pods();
    let spec = Spec { target: Target::Namespace, authentications: vec![] };
    index.apply(s("ns-0"), s("ap"), spec);
    index.delete_pod(s("ns-0"), s("pod"));
    let err = index.pod_server_rx("ns-0", "pod", 80).unwrap_err();
    assert!(matches!(err, NotFound::Pod { .. }));
}

#[test]
fn invalid_resources_of_a_listing_are_ignored() {
    let mut index = with_pods();
    index.reset::<Server>(
        vec![listed("ns-0", s("bad"), None), listed("ns-0", s("good"), Some(server(80)))],
        gone(&[]),
    );
    let rx = index.pod_server_rx("ns-0", "pod", 80).unwrap();
    assert!(selected(&rx));

    let kept = keep_valid(vec![listed("a", s("x"), None), listed("b", s("y"), Some(1u16))]);
    assert_eq!(kept.len(), 1);
    assert_eq!((kept[0].namespace.as_str(), kept[0].key.as_str(), kept[0].value), ("b", "y", 1));
}

#[test]
fn listings_are_sorted_by_namespace() {
    let by_ns: NameTable<NsUpdate<String, u16>> = group_by_ns(
        vec![listed("a", s("x"), 1), listed("b", s("y"), 2), listed("a", s("z"), 3)],
        gone(&[("a", &["w"]), ("c", &["v"])]),
    );
    assert_eq!(by_ns.len(), 3);
    let a = by_ns.get(&s("a")).unwrap();
    assert_eq!(a.added, vec![(s("x"), 1), (s("z"), 3)]);
    assert_eq!(a.removed, vec![s("w")]);
    assert!(by_ns.get(&s("b")).unwrap().removed.is_empty());
    let c = by_ns.get(&s("c")).unwrap();
    assert!(c.added.is_empty());
    assert_eq!(c.removed, vec![s("v")]);
}

#[test]
fn changes_of_a_table() {
    let mut t: NameTable<u16> = NameTable::new();
    assert!(Change::Update(s("a"), 1).make(&mut t));
    assert!(!Change::Update(s("a"), 1).make(&mut t));
    assert!(Change::Update(s("a"), 2).make(&mut t));
    assert!(!Change::Remove(s("b")).make(&mut t));
    assert!(Change::Update(s("b"), 1).make(&mut t));
    assert!(Change::Remove(s("b")).make(&mut t));
    assert_eq!(t.len(), 1);

    // The last entry for a key counts, and that it was set twice is a change.
    let twice = NsUpdate { added: vec![(s("a"), 3), (s("a"), 2)], removed: vec![] };
    assert!(Change::Replace(twice).make(&mut t));
    assert_eq!(t.get(&s("a")), Some(&2));
    let again = NsUpdate { added: vec![(s("a"), 2)], removed: vec![] };
    assert!(!Change::Replace(again).make(&mut t));
    // That something is gone counts as a change even if it was not known.
    let unknown = NsUpdate { added: vec![(s("a"), 2)], removed: vec![s("b")] };
    assert!(Change::Replace(unknown).make(&mut t));
    assert!(Change::<String, u16>::Clear.make(&mut t));
    assert!(t.is_empty());
    assert!(Change::<String, u16>::Clear.make(&mut t));
}

#[test]
fn routes_are_deleted_by_name_within_their_kind() {
    let mut index = with_pods();
    index.apply(s("ns-0"), s("srv"), server(80));
    let binding = || RouteBinding {
        parents: vec![ParentRef::Server(s("srv"))],
        route: HttpRoute::default(),
        statuses: vec![RouteStatus { parent: ParentRef::Server(s("srv")), accepted: true }],
    };
    index.apply_route(s("ns-0"), gkn_for_linkerd_http_route(s("a")), binding());
    index.apply_route(s("ns-0"), gkn_for_gateway_http_route(s("a")), binding());
    let rx = index.pod_server_rx("ns-0", "pod", 80).unwrap();
    assert_eq!(rx.borrow().http_routes.len(), 2);

    let GroupKindName { group, kind, .. } = gkn_for_gateway_http_route(s("a"));
    index.reset_route(
        vec![
            listed("ns-0", gkn_for_gateway_http_route(s("b")), Some(binding())),
            listed("ns-0", gkn_for_gateway_http_route(s("c")), None),
        ],
        &group,
        &kind,
        gone(&[("ns-0", &["a"])]),
    );
    let routes = rx.borrow();
    assert_eq!(routes.http_routes.len(), 2);
    drop(routes);

    // With no route listed in the namespace, those of every kind are gone.
    index.reset_route(vec![], &group, &kind, gone(&[("ns-0", &["b"])]));
    assert!(rx
        .borrow()
        .http_routes
        .get(&inbound_index::route::HttpRouteRef::Default(s("default")))
        .is_some());
}

fn nets(addr: u32) -> Vec<NetworkMatch> {
    vec![NetworkMatch::whole(IpNet::V4 { addr, prefix: 32 })]
}

fn ids(name: &str) -> Vec<IdentityMatch> {
    vec![IdentityMatch::Exact(s(name))]
}

/// A pod whose port 80 is open to the clients of some authentications.
fn authenticated(authentications: Vec<AuthenticationTarget>) -> Index {
    let mut index = with_pods();
    index.apply(s("ns-0"), s("srv"), server(80));
    index.apply(s("ns-0"), s("ap"), Spec { target: Target::Namespace, authentications });
    index
}

fn by_network() -> Index {
    authenticated(vec![AuthenticationTarget::Network { namespace: Some(s("auth")), name: s("n") }])
}

fn by_identity() -> Index {
    authenticated(vec![AuthenticationTarget::MeshTLS { namespace: Some(s("auth")), name: s("n") }])
}

fn clients(index: &mut Index) -> usize {
    index.pod_server_rx("ns-0", "pod", 80).unwrap().borrow().authorizations.len()
}

#[test]
fn network_authentications_come_and_go() {
    let mut index = by_network();
    assert_eq!(clients(&mut index), 0);
    let mut rx = index.pod_server_rx("ns-0", "pod", 80).unwrap();
    rx.borrow_and_update();
    index.apply_network_authentication(s("auth"), s("n"), nets(1));
    assert!(rx.has_changed().unwrap());
    assert_eq!(rx.borrow_and_update().authorizations.len(), 1);
    index.apply_network_authentication(s("auth"), s("n"), nets(1));
    assert!(!rx.has_changed().unwrap());
    index.delete_network_authentication(s("elsewhere"), s("n"));
    assert_eq!(clients(&mut index), 1);
    index.delete_network_authentication(s("auth"), s("n"));
    assert_eq!(clients(&mut index), 0);
}

#[test]
fn meshtls_authentications_outlive_their_deletion() {
    let mut index = by_identity();
    index.apply_meshtls_authentication(s("auth"), s("n"), ids("a"));
    let mut rx = index.pod_server_rx("ns-0", "pod", 80).unwrap();
    {
        let server = rx.borrow_and_update();
        let authz = server.authorizations.value_at(0);
        assert!(matches!(&authz.authentication, ClientAuthentication::TlsAuthenticated(ids) if ids.len() == 1));
    }
    index.delete_meshtls_authentication(s("auth"), s("n"));
    assert_eq!(clients(&mut index), 1);
    assert!(!rx.has_changed().unwrap());
    // A listing forgets it, and the next change of any shows that.
    index.reset_meshtls_authentications(vec![], gone(&[("auth", &["n"])]));
    assert_eq!(clients(&mut index), 1);
    index.reset_meshtls_authentications(
        vec![listed("other", s("x"), None), listed("other", s("m"), Some(ids("b")))],
        gone(&[]),
    );
    assert_eq!(clients(&mut index), 0);
}

#[test]
fn network_listing_stops_at_what_is_invalid() {
    let mut index = by_network();
    index.reset_network_authentications(
        vec![
            listed("auth", s("n"), Some(nets(1))),
            listed("auth", s("bad"), None),
            listed("auth", s("m"), Some(nets(2))),
        ],
        gone(&[]),
    );
    // What came first is known, but nothing has been configured anew.
    assert_eq!(clients(&mut index), 0);
    index.reset_network_authentications(vec![listed("auth", s("n"), Some(nets(1)))], gone(&[]));
    assert_eq!(clients(&mut index), 0);
    index.reset_network_authentications(vec![listed("auth", s("k"), Some(nets(1)))], gone(&[]));
    assert_eq!(clients(&mut index), 1);
}

#[test]
fn network_listing_deletes_meshtls_authentications() {
    let mut index = by_identity();
    index.apply_meshtls_authentication(s("auth"), s("n"), ids("a"));
    assert_eq!(clients(&mut index), 1);
    index.reset_network_authentications(
        vec![listed("auth", s("k"), Some(nets(1)))],
        gone(&[("auth", &["n"])]),
    );
    assert_eq!(clients(&mut index), 0);
}
