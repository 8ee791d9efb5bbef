use inbound_index::cluster::{ClusterInfo, DefaultPolicy, InvalidPolicy};
use inbound_index::inbound::Timeout;
use inbound_index::labels::{Expression, Labels, Operator, Selector};
use inbound_index::meta::{Annotations, Meta, ObjectMeta, Settings};
use inbound_index::ports::{parse_portset, PortSet};
use inbound_index::route::{gkn_for_linkerd_http_route, GroupKindName};
use inbound_index::table::{NameTable, PortTable};
use inbound_index::value::Value;

fn s(x: &str) -> String {
    x.to_string()
}

fn names(pairs: &[(&str, &str)]) -> Annotations {
    let mut t: Labels = NameTable::new();
    for (k, v) in pairs {
        t.insert(s(k), s(v));
    }
    t
}

fn set(ports: &[u16]) -> PortSet {
    let mut r = PortSet::new();
    for p in ports {
        r.insert(*p);
    }
    r
}

const POLICIES: [(&str, DefaultPolicy); 5] = [
    ("all-authenticated", DefaultPolicy::Allow { authenticated_only: true, cluster_only: false }),
    ("all-unauthenticated", DefaultPolicy::Allow { authenticated_only: false, cluster_only: false }),
    ("cluster-authenticated", DefaultPolicy::Allow { authenticated_only: true, cluster_only: true }),
    ("cluster-unauthenticated", DefaultPolicy::Allow { authenticated_only: false, cluster_only: true }),
    ("deny", DefaultPolicy::Deny),
];

#[test]
fn policy_names_round_trip() {
    for (name, policy) in POLICIES {
        assert_eq!(policy.as_str(), name);
        assert_eq!(DefaultPolicy::parse(name), Ok(policy));
    }
    for other in ["", "Deny", "allow", "all-authenticated "] {
        assert_eq!(DefaultPolicy::parse(other), Err(InvalidPolicy));
    }
}

#[test]
fn policy_that_requires_identity() {
    assert_eq!(POLICIES[1].1.require_identity(), POLICIES[0].1);
    assert_eq!(POLICIES[3].1.require_identity(), POLICIES[2].1);
    assert_eq!(DefaultPolicy::Deny.require_identity(), DefaultPolicy::Deny);
}

#[test]
fn default_policy_annotation() {
    let key = "config.linkerd.io/default-inbound-policy";
    assert_eq!(Settings::default_policy(&names(&[])), Ok(None));
    assert_eq!(Settings::default_policy(&names(&[(key, "deny")])), Ok(Some(DefaultPolicy::Deny)));
    assert_eq!(Settings::default_policy(&names(&[(key, "maybe")])), Err(InvalidPolicy));
}

#[test]
fn ports_annotation_is_empty_unless_valid() {
    let anns = names(&[("a", "80, 8080-8082"), ("b", "http")]);
    let ports = |name: &str| Settings::ports_annotation(&anns, name).unwrap();
    assert!(ports("a").same(&set(&[80, 8080, 8081, 8082])));
    assert!(ports("b").same(&set(&[])));
    assert!(ports("c").same(&set(&[])));
}

#[test]
fn settings_from_metadata() {
    let none = Settings::from_metadata(&ObjectMeta { annotations: None, labels: None });
    assert!(none.same(&Settings::default()));
    let anns = names(&[
        ("config.linkerd.io/default-inbound-policy", "maybe"),
        ("config.linkerd.io/opaque-ports", "25"),
        ("config.linkerd.io/proxy-require-identity-inbound-ports", "443"),
    ]);
    let some = Settings::from_metadata(&ObjectMeta { annotations: Some(anns), labels: None });
    assert_eq!(some.default_policy, None);
    assert!(some.opaque_ports.same(&set(&[25])));
    assert!(some.require_id_ports.same(&set(&[443])));
}

#[test]
fn labels_from_metadata() {
    let meta = Meta::from_metadata(ObjectMeta { annotations: None, labels: None });
    assert!(meta.labels.is_empty());
    let labels = Some(names(&[("app", "web")]));
    let meta = Meta::from_metadata(ObjectMeta { annotations: None, labels });
    assert!(meta.labels.same(&names(&[("app", "web")])));
}

#[test]
fn portsets() {
    assert!(parse_portset("").unwrap().same(&set(&[])));
    assert!(parse_portset("80").unwrap().same(&set(&[80])));
    assert!(parse_portset(" 80 ,443").unwrap().same(&set(&[80, 443])));
    assert!(parse_portset("3-5,4-6").unwrap().same(&set(&[3, 4, 5, 6])));
    assert!(parse_portset("65535").unwrap().same(&set(&[65535])));
    for bad in ["0", "65536", "a", "5-3", "1-2-3", "-", "80-"] {
        assert!(parse_portset(bad).is_err());
    }
}

#[test]
fn selectors() {
    let labels = names(&[("app", "web"), ("tier", "front")]);
    let with = |key: &str, operator: Operator, values: Option<&[&str]>| {
        let values = values.map(|v| v.iter().map(|x| s(x)).collect::<Vec<String>>());
        Selector {
            match_labels: names(&[]),
            match_expressions: vec![Expression { key: s(key), operator, values }],
        }
        .matches(&labels)
    };
    assert!(with("app", Operator::In, Some(&["db", "web"])));
    assert!(!with("app", Operator::In, Some(&["db"])));
    assert!(!with("zone", Operator::In, Some(&["db"])));
    assert!(with("app", Operator::NotIn, Some(&["db"])));
    assert!(with("zone", Operator::NotIn, Some(&["db"])));
    assert!(with("app", Operator::Exists, None));
    assert!(!with("zone", Operator::Exists, None));
    assert!(with("zone", Operator::DoesNotExist, None));
    assert!(!with("app", Operator::DoesNotExist, None));
    assert!(!with("app", Operator::Exists, Some(&["web"])));
    let plain = |pairs: &[(&str, &str)]| {
        Selector { match_labels: names(pairs), match_expressions: vec![] }.matches(&labels)
    };
    assert!(plain(&[]));
    assert!(plain(&[("app", "web")]));
    assert!(!plain(&[("app", "web"), ("tier", "back")]));
}

#[test]
fn names_ignore_ascii_case_only() {
    let a = gkn_for_linkerd_http_route(s("straße"));
    let b = GroupKindName { group: s("Policy.Linkerd.IO"), kind: s("httproute"), name: s("STRAßE") };
    let c = GroupKindName { group: s("Policy.Linkerd.IO"), kind: s("httproute"), name: s("STRASSE") };
    assert!(a.eq_ignore_ascii_case(&b));
    assert!(!a.eq_ignore_ascii_case(&c));
    assert!(!a.same(&b));
}

#[test]
fn service_account_identities() {
    let info = ClusterInfo {
        networks: vec![],
        control_plane_ns: s("cp"),
        identity_domain: s("id.example"),
        default_policy: DefaultPolicy::Deny,
        default_detect_timeout: Timeout { secs: 1, nanos: 0 },
        probe_networks: vec![],
    };
    let id = info.service_account_identity("ns", "sa");
    assert_eq!(id, "sa.ns.serviceaccount.identity.cp.id.example");
}

#[test]
fn tables_hold_what_was_put_in() {
    let mut t: NameTable<u16> = NameTable::new();
    for (i, k) in ["a", "b", "c", "d"].iter().enumerate() {
        t.insert(s(k), i as u16);
    }
    t.insert(s("b"), 7);
    assert_eq!(t.len(), 4);
    assert_eq!(t.get(&s("b")), Some(&7));
    assert_eq!(t.remove(&s("a")), Some(0));
    assert_eq!(t.remove(&s("a")), None);
    assert_eq!(t.get(&s("d")), Some(&3));
    *t.get_mut(&s("d")).unwrap() = 9;
    assert_eq!(t.get(&s("d")), Some(&9));
    let mut left: Vec<(String, u16)> = Vec::new();
    while let Some(entry) = t.pop() {
        left.push(entry);
    }
    left.sort();
    assert_eq!(left, vec![(s("b"), 7), (s("c"), 2), (s("d"), 9)]);
    assert!(t.is_empty());

    let mut p: PortTable<String> = PortTable::new();
    assert!(p.update(80, s("x")));
    assert!(!p.update(80, s("x")));
    assert!(p.update(80, s("y")));
    assert_eq!(p.get(&80), Some(&s("y")));
    assert_eq!(p.get(&81), None);
}

#[test]
fn tables_compare_without_regard_to_order() {
    let a = names(&[("a", "1"), ("b", "2")]);
    let b = names(&[("b", "2"), ("a", "1")]);
    assert!(a.same(&b));
    assert!(a.dup().same(&b));
    assert!(names(&[("a", "1")]).within(&a));
    assert!(!a.within(&names(&[("a", "1")])));
    assert!(!a.same(&names(&[("a", "1"), ("b", "3")])));
}

#[test]
fn portset_members() {
    let mut ports = set(&[80, 443, 80]);
    assert!(ports.contains(80) && ports.contains(443) && !ports.contains(81));
    ports.remove(80);
    assert!(!ports.contains(80));
    assert_eq!(ports.list(), vec![443]);
}
