use inbound_index::authz::{AuthorizationRef, ClientAuthentication, IpNet, NetworkMatch};
use inbound_index::cluster::{ClusterInfo, DefaultPolicy};
use inbound_index::inbound::{InboundServer, ProxyProtocol, ServerRef, Timeout};
use inbound_index::index::{Index, NotFound};
use inbound_index::labels::{Labels, Selector};
use inbound_index::meta::ObjectMeta;
use inbound_index::ports::PortSet;
use inbound_index::route::{HttpRouteRef, PathMatch};
use inbound_index::server::{PortRef, Server};
use inbound_index::table::{NameTable, PortTable};
use inbound_index::value::Value;
use std::sync::Arc;

fn s(x: &str) -> String {
    x.to_string()
}

fn ten() -> IpNet {
    IpNet::V4 { addr: 0x0a00_0000, prefix: 8 }
}

fn cluster() -> ClusterInfo {
    ClusterInfo {
        networks: vec![ten()],
        control_plane_ns: s("linkerd"),
        identity_domain: s("cluster.example.com"),
        default_policy: DefaultPolicy::Allow { authenticated_only: false, cluster_only: true },
        default_detect_timeout: Timeout { secs: 10, nanos: 0 },
        probe_networks: vec![IpNet::V4 { addr: 0x0a00_0001, prefix: 32 }],
    }
}

fn index() -> Index {
    Index::new(Arc::new(cluster()))
}

fn names(pairs: &[(&str, &str)]) -> Labels {
    let mut t: Labels = NameTable::new();
    for (k, v) in pairs {
        t.insert(s(k), s(v));
    }
    t
}

fn meta(labels: &[(&str, &str)], annotations: &[(&str, &str)]) -> ObjectMeta {
    ObjectMeta { annotations: Some(names(annotations)), labels: Some(names(labels)) }
}

fn port_names(pairs: &[(&str, &[u16])]) -> NameTable<PortSet> {
    let mut t = NameTable::new();
    for (name, ports) in pairs {
        let mut set = PortSet::new();
        for p in ports.iter() {
            set.insert(*p);
        }
        t.insert(s(name), set);
    }
    t
}

fn probes(pairs: &[(u16, &[&str])]) -> PortTable<Vec<String>> {
    let mut t = PortTable::new();
    for (port, paths) in pairs {
        t.insert(*port, paths.iter().map(|p| s(p)).collect::<Vec<String>>());
    }
    t
}

fn server(labels: &[(&str, &str)], port_ref: PortRef, protocol: ProxyProtocol) -> Server {
    Server {
        labels: NameTable::new(),
        pod_selector: Selector { match_labels: names(labels), match_expressions: Vec::new() },
        port_ref,
        protocol,
    }
}

fn with_pod(labels: &[(&str, &str)], annotations: &[(&str, &str)]) -> Index {
    let mut index = index();
    index
        .apply_pod(
            s("ns-0"),
            s("pod-0"),
            meta(labels, annotations),
            port_names(&[("http", &[8080, 8081]), ("admin", &[9090])]),
            probes(&[(8080, &["/live", "/ready"])]),
        )
        .unwrap();
    index
}

fn is_default(server: &InboundServer, policy: &str) -> bool {
    matches!(&server.reference, ServerRef::Default(name) if name == policy)
}

fn is_server(server: &InboundServer, name: &str) -> bool {
    matches!(&server.reference, ServerRef::Server(n) if n == name)
}

fn is_external(server: &InboundServer, name: &str) -> bool {
    matches!(&server.reference, ServerRef::External(n) if n == name)
}

const DETECT: ProxyProtocol = ProxyProtocol::Detect { timeout: Timeout { secs: 10, nanos: 0 } };

#[test]
fn shared_index_starts_out_empty() {
    let shared = Index::shared(cluster());
    let err = shared.write().pod_server_rx("ns-0", "pod-0", 80).unwrap_err();
    assert!(matches!(err, NotFound::Namespace { namespace } if namespace == "ns-0"));
}

#[test]
fn unknown_namespace() {
    let err = index().pod_server_rx("ns-0", "pod-0", 80).unwrap_err();
    assert!(matches!(err, NotFound::Namespace { namespace } if namespace == "ns-0"));
    let err = index().external_server_rx("ns-0", "group-0", 80).unwrap_err();
    assert!(matches!(err, NotFound::Namespace { namespace } if namespace == "ns-0"));
}

#[test]
fn unknown_pod_and_workload() {
    let mut index = with_pod(&[], &[]);
    let err = index.pod_server_rx("ns-0", "pod-1", 80).unwrap_err();
    assert!(matches!(err, NotFound::Pod { namespace, pod } if namespace == "ns-0" && pod == "pod-1"));
    let err = index.external_server_rx("ns-0", "pod-0", 80).unwrap_err();
    assert!(
        matches!(err, NotFound::Workload { namespace, name } if namespace == "ns-0" && name == "pod-0")
    );
}

#[test]
fn port_without_server_gets_the_cluster_default() {
    let mut index = with_pod(&[], &[]);
    let rx = index.pod_server_rx("ns-0", "pod-0", 9090).unwrap();
    let server = rx.borrow();
    assert!(is_default(&server, "cluster-unauthenticated"));
    assert_eq!(server.protocol, DETECT);
    assert_eq!(server.authorizations.len(), 1);
    let authz = server
        .authorizations
        .get(&AuthorizationRef::Default(s("cluster-unauthenticated")))
        .unwrap();
    assert!(matches!(authz.authentication, ClientAuthentication::Unauthenticated));
    assert!(authz.networks.same(&vec![NetworkMatch::whole(ten())]));
    assert_eq!(server.http_routes.len(), 1);
    assert!(server.http_routes.get(&HttpRouteRef::Default(s("default"))).is_some());
}

#[test]
fn annotations_override_the_default() {
    let mut index = with_pod(
        &[],
        &[
            ("config.linkerd.io/default-inbound-policy", "all-unauthenticated"),
            ("config.linkerd.io/opaque-ports", "3306,4000-4002"),
            ("config.linkerd.io/proxy-require-identity-inbound-ports", "4001"),
        ],
    );
    let rx = index.pod_server_rx("ns-0", "pod-0", 4000).unwrap();
    assert!(is_default(&rx.borrow(), "all-unauthenticated"));
    assert_eq!(rx.borrow().protocol, ProxyProtocol::Opaque);

    let rx = index.pod_server_rx("ns-0", "pod-0", 4001).unwrap();
    assert!(is_default(&rx.borrow(), "all-authenticated"));
    let server = rx.borrow();
    let authz =
        server.authorizations.get(&AuthorizationRef::Default(s("all-authenticated"))).unwrap();
    assert!(matches!(&authz.authentication, ClientAuthentication::TlsAuthenticated(ids) if ids.len() == 1));
    assert!(authz.networks.same(&NetworkMatch::all()));

    let rx = index.pod_server_rx("ns-0", "pod-0", 4003).unwrap();
    assert_eq!(rx.borrow().protocol, DETECT);
}

#[test]
fn denied_port_has_no_authorizations() {
    let mut index = with_pod(
        &[],
        &[
            ("config.linkerd.io/default-inbound-policy", "deny"),
            ("config.linkerd.io/proxy-require-identity-inbound-ports", "80"),
        ],
    );
    let rx = index.pod_server_rx("ns-0", "pod-0", 80).unwrap();
    assert!(is_default(&rx.borrow(), "deny"));
    assert!(rx.borrow().authorizations.is_empty());
}

#[test]
fn probe_paths_are_let_in_by_default() {
    let mut index = with_pod(&[], &[]);
    let rx = index.pod_server_rx("ns-0", "pod-0", 8080).unwrap();
    let server = rx.borrow();
    assert_eq!(server.http_routes.len(), 2);
    let probe = server.http_routes.get(&HttpRouteRef::Default(s("probe"))).unwrap();
    assert_eq!(probe.rules.len(), 1);
    let matches = &probe.rules[0].matches;
    assert_eq!(matches.len(), 2);
    assert!(matches!(&matches[0].path, Some(PathMatch::Exact(p)) if p == "/live"));
    assert!(matches!(&matches[1].path, Some(PathMatch::Exact(p)) if p == "/ready"));
    assert!(matches[0].method == Some(s("GET")));
    let authz = probe.authorizations.get(&AuthorizationRef::Default(s("probe"))).unwrap();
    assert!(matches!(authz.authentication, ClientAuthentication::Unauthenticated));
    let nets = vec![NetworkMatch::whole(IpNet::V4 { addr: 0x0a00_0001, prefix: 32 })];
    assert!(authz.networks.same(&nets));
}

#[test]
fn probe_paths_need_probe_networks() {
    let mut info = cluster();
    info.probe_networks = Vec::new();
    assert_eq!(info.default_inbound_http_routes(&vec![s("/live")]).len(), 1);
    assert_eq!(cluster().default_inbound_http_routes(&Vec::new()).len(), 1);
    assert_eq!(cluster().default_inbound_http_routes(&vec![s("/live")]).len(), 2);
}

#[test]
fn server_selects_port_by_number() {
    let mut index = with_pod(&[("app", "web")], &[]);
    let mut rx = index.pod_server_rx("ns-0", "pod-0", 8080).unwrap();
    let mut other = index.pod_server_rx("ns-0", "pod-0", 8081).unwrap();
    assert!(is_default(&rx.borrow_and_update(), "cluster-unauthenticated"));
    other.borrow_and_update();

    index.apply(
        s("ns-0"),
        s("srv-0"),
        server(&[("app", "web")], PortRef::Number(8080), ProxyProtocol::Http1),
    );
    assert!(rx.has_changed().unwrap());
    assert!(!other.has_changed().unwrap());
    assert!(is_server(&rx.borrow_and_update(), "srv-0"));
    assert_eq!(rx.borrow().protocol, ProxyProtocol::Http1);
    assert!(rx.borrow().authorizations.is_empty());

    // The same again is not sent again.
    index.apply(
        s("ns-0"),
        s("srv-0"),
        server(&[("app", "web")], PortRef::Number(8080), ProxyProtocol::Http1),
    );
    assert!(!rx.has_changed().unwrap());

    index.delete::<Server>(s("ns-0"), s("srv-0"));
    assert!(rx.has_changed().unwrap());
    assert!(is_default(&rx.borrow_and_update(), "cluster-unauthenticated"));

    // What is gone already changes nothing.
    index.delete::<Server>(s("ns-0"), s("srv-0"));
    assert!(!rx.has_changed().unwrap());
}

#[test]
fn server_selects_ports_by_name() {
    let mut index = with_pod(&[("app", "web")], &[]);
    index.apply(
        s("ns-0"),
        s("srv-0"),
        server(&[], PortRef::Name(s("http")), ProxyProtocol::Http2),
    );
    for port in [8080, 8081] {
        let rx = index.pod_server_rx("ns-0", "pod-0", port).unwrap();
        assert!(is_server(&rx.borrow(), "srv-0"));
    }
    let rx = index.pod_server_rx("ns-0", "pod-0", 9090).unwrap();
    assert!(is_default(&rx.borrow(), "cluster-unauthenticated"));
}

#[test]
fn server_that_selects_no_pod_changes_nothing() {
    let mut index = with_pod(&[("app", "web")], &[]);
    let mut rx = index.pod_server_rx("ns-0", "pod-0", 8080).unwrap();
    rx.borrow_and_update();
    index.apply(
        s("ns-0"),
        s("srv-0"),
        server(&[("app", "db")], PortRef::Number(8080), ProxyProtocol::Http1),
    );
    assert!(!rx.has_changed().unwrap());
    index.apply(
        s("ns-1"),
        s("srv-0"),
        server(&[("app", "web")], PortRef::Number(8080), ProxyProtocol::Http1),
    );
    assert!(!rx.has_changed().unwrap());
}

#[test]
fn conflicting_servers_do_not_flap() {
    let mut index = with_pod(&[("app", "web")], &[]);
    index.apply(s("ns-0"), s("srv-0"), server(&[], PortRef::Number(8080), ProxyProtocol::Http1));
    let mut rx = index.pod_server_rx("ns-0", "pod-0", 8080).unwrap();
    rx.borrow_and_update();
    index.apply(s("ns-0"), s("srv-1"), server(&[], PortRef::Number(8080), ProxyProtocol::Http2));
    let chosen = match &rx.borrow_and_update().reference {
        ServerRef::Server(name) => name.clone(),
        _ => panic!("a server selects the port"),
    };
    assert!(chosen == "srv-0" || chosen == "srv-1");
    // A change that does not concern the port leaves the choice alone.
    index.apply(s("ns-0"), s("srv-2"), server(&[], PortRef::Number(1), ProxyProtocol::Http2));
    assert!(is_server(&rx.borrow_and_update(), &chosen));
}

#[test]
fn servers_before_pods() {
    let mut index = index();
    index.apply(
        s("ns-0"),
        s("srv-0"),
        server(&[("app", "web")], PortRef::Name(s("http")), ProxyProtocol::Grpc),
    );
    index
        .apply_pod(
            s("ns-0"),
            s("pod-0"),
            meta(&[("app", "web")], &[]),
            port_names(&[("http", &[80])]),
            probes(&[]),
        )
        .unwrap();
    let rx = index.pod_server_rx("ns-0", "pod-0", 80).unwrap();
    assert!(is_server(&rx.borrow(), "srv-0"));
    assert_eq!(rx.borrow().protocol, ProxyProtocol::Grpc);
}

#[test]
fn pod_port_names_must_not_change() {
    let mut index = with_pod(&[("app", "web")], &[]);
    let err = index
        .apply_pod(
            s("ns-0"),
            s("pod-0"),
            meta(&[("app", "db")], &[]),
            port_names(&[("http", &[8080])]),
            probes(&[]),
        )
        .unwrap_err();
    assert_eq!(err.pod, "pod-0");
    assert_eq!(err.message(), "pod pod-0 port names must not change");
    // The labels have not changed either.
    index.apply(
        s("ns-0"),
        s("srv-0"),
        server(&[("app", "web")], PortRef::Number(8080), ProxyProtocol::Http1),
    );
    let rx = index.pod_server_rx("ns-0", "pod-0", 8080).unwrap();
    assert!(is_server(&rx.borrow(), "srv-0"));
}

#[test]
fn pod_metadata_may_change() {
    let mut index = with_pod(&[("app", "web")], &[]);
    index.apply(
        s("ns-0"),
        s("srv-0"),
        server(&[("app", "db")], PortRef::Number(8080), ProxyProtocol::Http1),
    );
    let mut rx = index.pod_server_rx("ns-0", "pod-0", 8080).unwrap();
    assert!(is_default(&rx.borrow_and_update(), "cluster-unauthenticated"));
    let ports = || port_names(&[("http", &[8080, 8081]), ("admin", &[9090])]);
    index
        .apply_pod(s("ns-0"), s("pod-0"), meta(&[("app", "web")], &[]), ports(), probes(&[]))
        .unwrap();
    assert!(!rx.has_changed().unwrap());
    index
        .apply_pod(s("ns-0"), s("pod-0"), meta(&[("app", "db")], &[]), ports(), probes(&[]))
        .unwrap();
    assert!(is_server(&rx.borrow_and_update(), "srv-0"));
    // The probes of a known pod stay what they were.
    assert_eq!(rx.borrow().http_routes.len(), 2);
}

#[test]
fn watches_complete_when_the_pod_is_gone() {
    let mut index = with_pod(&[], &[]);
    let rx = index.pod_server_rx("ns-0", "pod-0", 80).unwrap();
    index.delete_pod(s("ns-0"), s("pod-1"));
    assert!(rx.has_changed().is_ok());
    index.delete_pod(s("ns-0"), s("pod-0"));
    assert!(rx.has_changed().is_err());
    // Nothing is left of the namespace.
    let err = index.pod_server_rx("ns-0", "pod-0", 80).unwrap_err();
    assert!(matches!(err, NotFound::Namespace { .. }));
}

#[test]
fn the_ends_of_the_watches_of_a_pod_are_closed() {
    let mut index = with_pod(&[], &[]);
    let http = index.pod_server_rx("ns-0", "pod-0", 80).unwrap();
    let https = index.pod_server_rx("ns-0", "pod-0", 443).unwrap();
    assert!(index.delete_pod(s("ns-0"), s("pod-1")).is_none());
    assert!(index.delete_pod(s("ns-1"), s("pod-0")).is_none());
    assert!(http.has_changed().is_ok());
    let ends = index.delete_pod(s("ns-0"), s("pod-0")).unwrap();
    for (port, rx) in [(80, &http), (443, &https)] {
        assert!(rx.has_changed().is_err());
        let end = ends.get(&port).unwrap().receiver();
        assert!(end.same_channel(rx));
        assert!(end.has_changed().is_err());
        assert!(is_default(&end.borrow(), "cluster-unauthenticated"));
    }
    assert!(ends.get(&81).is_none());
    assert!(index.delete_pod(s("ns-0"), s("pod-0")).is_none());
}

#[test]
fn the_ends_of_the_watches_of_a_group_are_closed() {
    let mut index = index();
    index.apply_external_group(s("ns-0"), s("group-0"), meta(&[], &[]), vec![80]).unwrap();
    index.apply_external_group(s("ns-0"), s("group-1"), meta(&[], &[]), vec![80]).unwrap();
    let rx = index.external_server_rx("ns-0", "group-0", 80).unwrap();
    let other = index.external_server_rx("ns-0", "group-1", 80).unwrap();
    assert!(index.delete_external_group(s("ns-0"), s("group-2")).is_none());
    let ends = index.delete_external_group(s("ns-0"), s("group-0")).unwrap();
    assert!(rx.has_changed().is_err());
    assert!(ends.get(&80).unwrap().receiver().same_channel(&rx));
    assert!(!ends.get(&80).unwrap().receiver().same_channel(&other));
    assert!(other.has_changed().is_ok());
    assert!(index.external_server_rx("ns-0", "group-1", 80).unwrap().same_channel(&other));
}

#[test]
fn errors_say_what_is_not_found() {
    let mut index = with_pod(&[], &[]);
    let err = index.pod_server_rx("ns-1", "pod-0", 80).unwrap_err();
    assert_eq!(err.message(), "namespace not found: ns-1");
    let err = index.pod_server_rx("ns-0", "pod-1", 80).unwrap_err();
    assert_eq!(err.message(), "pod pod-1.ns-0 not found");
    let err = index.external_server_rx("ns-0", "group-0", 80).unwrap_err();
    assert_eq!(err.message(), "workload group-0.ns-0 not found");
}

#[test]
fn namespace_stays_while_it_has_resources() {
    let mut index = with_pod(&[], &[]);
    index.apply(s("ns-0"), s("srv-0"), server(&[], PortRef::Number(80), ProxyProtocol::Tls));
    index.delete_pod(s("ns-0"), s("pod-0"));
    let err = index.pod_server_rx("ns-0", "pod-0", 80).unwrap_err();
    assert!(matches!(err, NotFound::Pod { .. }));
    index.delete::<Server>(s("ns-0"), s("srv-0"));
    let err = index.pod_server_rx("ns-0", "pod-0", 80).unwrap_err();
    assert!(matches!(err, NotFound::Namespace { .. }));
}

#[test]
fn two_clients_follow_one_channel() {
    let mut index = with_pod(&[], &[]);
    let mut a = index.pod_server_rx("ns-0", "pod-0", 80).unwrap();
    let mut b = index.pod_server_rx("ns-0", "pod-0", 80).unwrap();
    assert!(a.same_channel(&b));
    a.borrow_and_update();
    b.borrow_and_update();
    index.apply(s("ns-0"), s("srv-0"), server(&[], PortRef::Number(80), ProxyProtocol::Tls));
    assert!(is_server(&a.borrow_and_update(), "srv-0"));
    assert!(is_server(&b.borrow_and_update(), "srv-0"));
    let c = index.pod_server_rx("ns-0", "pod-0", 80).unwrap();
    assert!(a.same_channel(&c));
}

#[test]
fn external_group_lists_its_ports() {
    let mut index = index();
    index
        .apply_external_group(
            s("ns-0"),
            s("group-0"),
            meta(&[], &[("config.linkerd.io/opaque-ports", "80,81")]),
            vec![80, 443, 80],
        )
        .unwrap();
    let rx = index.external_server_rx("ns-0", "group-0", 80).unwrap();
    assert!(is_external(&rx.borrow(), "group-0"));
    assert_eq!(rx.borrow().protocol, DETECT);
    assert!(rx.borrow().authorizations.is_empty());
    assert_eq!(rx.borrow().http_routes.len(), 1);

    let rx = index.external_server_rx("ns-0", "group-0", 81).unwrap();
    assert!(is_external(&rx.borrow(), "cluster-unauthenticated"));
    assert_eq!(rx.borrow().protocol, ProxyProtocol::Opaque);
    assert_eq!(rx.borrow().authorizations.len(), 1);
}

#[test]
fn external_group_ports_must_not_change() {
    let mut index = index();
    index.apply_external_group(s("ns-0"), s("group-0"), meta(&[], &[]), vec![80]).unwrap();
    let err = index
        .apply_external_group(s("ns-0"), s("group-0"), meta(&[], &[]), vec![80, 81])
        .unwrap_err();
    assert_eq!(err.group, "group-0");
    assert_eq!(err.message(), "workload group-0 port must not change");
}

#[test]
fn external_group_metadata_may_change() {
    let mut index = index();
    index.apply_external_group(s("ns-0"), s("group-0"), meta(&[], &[]), vec![80]).unwrap();
    let mut rx = index.external_server_rx("ns-0", "group-0", 81).unwrap();
    rx.borrow_and_update();
    let denied = || meta(&[], &[("config.linkerd.io/default-inbound-policy", "deny")]);
    index.apply_external_group(s("ns-0"), s("group-0"), denied(), vec![80]).unwrap();
    assert!(rx.has_changed().unwrap());
    assert!(is_external(&rx.borrow_and_update(), "deny"));
    index.apply_external_group(s("ns-0"), s("group-0"), denied(), vec![80]).unwrap();
    assert!(!rx.has_changed().unwrap());

    index.delete_external_group(s("ns-0"), s("group-0"));
    assert!(rx.has_changed().is_err());
    let err = index.external_server_rx("ns-0", "group-0", 80).unwrap_err();
    assert!(matches!(err, NotFound::Namespace { .. }));
}

#[test]
fn replace_tells_whether_it_did() {
    let mut index = with_pod(&[], &[]);
    let rx = index.pod_server_rx("ns-0", "pod-0", 80).unwrap();
    let mut current = rx.borrow().dup();
    let same = rx.borrow().dup();
    assert!(!inbound_index::watching::replace(&mut current, same, false));
    let same = rx.borrow().dup();
    assert!(inbound_index::watching::replace(&mut current, same, true));
    let mut other = rx.borrow().dup();
    other.protocol = ProxyProtocol::Tls;
    assert!(inbound_index::watching::replace(&mut current, other, false));
    assert_eq!(current.protocol, ProxyProtocol::Tls);
}
