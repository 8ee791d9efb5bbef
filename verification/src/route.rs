//! HTTP routes and how they are bound to servers.
use crate::authz::{
    AuthorizationRef, AuthorizationRefModel, ClientAuthorization, ClientAuthorizationModel,
};
use crate::slots::{Code, CodeModel, Coded};
use crate::table::CodeTable;
use crate::text::{ascii_case_equal, equal_but_for_ascii_case};
use crate::value::{Text, Value};
use vstd::prelude::*;

verus! {

/// The name of a resource together with its API group and its kind.
#[derive(Debug)]
pub struct GroupKindName {
    /// The API group.
    pub group: String,
    /// The kind.
    pub kind: String,
    /// The name, within its namespace.
    pub name: String,
}

/// What a [`GroupKindName`] means.
#[verifier::ext_equal]
pub struct GroupKindNameModel {
    pub group: Text,
    pub kind: Text,
    pub name: Text,
}

impl DeepView for GroupKindName {
    type V = GroupKindNameModel;

    open spec fn deep_view(&self) -> GroupKindNameModel {
        GroupKindNameModel {
            group: self.group.deep_view(),
            kind: self.kind.deep_view(),
            name: self.name.deep_view(),
        }
    }
}

impl Value for GroupKindName {
    fn same(&self, other: &Self) -> (r: bool) {
        self.group.same(&other.group)
            && self.kind.same(&other.kind)
            && self.name.same(&other.name)
    }

    fn dup(&self) -> (r: Self) {
        GroupKindName {
            group: self.group.dup(),
            kind: self.kind.dup(),
            name: self.name.dup(),
        }
    }
}

impl GroupKindNameModel {
    /// Whether two names differ at most in the case of ASCII letters.
    pub open spec fn matches(self, other: GroupKindNameModel) -> bool {
        &&& equal_but_for_ascii_case(self.group, other.group)
        &&& equal_but_for_ascii_case(self.kind, other.kind)
        &&& equal_but_for_ascii_case(self.name, other.name)
    }
}

impl GroupKindName {
    /// Whether two names differ at most in the case of ASCII letters.
    pub fn eq_ignore_ascii_case(&self, other: &Self) -> (r: bool)
        ensures
            r == self.deep_view().matches(other.deep_view()),
    {
        ascii_case_equal(self.group.as_str(), other.group.as_str()) && ascii_case_equal(
            self.kind.as_str(),
            other.kind.as_str(),
        ) && ascii_case_equal(self.name.as_str(), other.name.as_str())
    }
}

impl GroupKindName {
    /// Some names of one API group and kind, in the order given.
    pub fn each(group: &String, kind: &String, names: Vec<String>) -> (r: Vec<GroupKindName>)
        ensures
            r.deep_view() == names.deep_view().map_values(
                |name: Text| GroupKindNameModel { group: group@, kind: kind@, name },
            ),
    {
        let ghost all = names.deep_view();
        let mut r: Vec<GroupKindName> = Vec::new();
        for name in it: names
            invariant
                all.len() == it.seq().len(),
                forall|j: int| 0 <= j < all.len() ==> #[trigger] all[j] == it.seq()[j]@,
                r@.len() == it.index(),
                forall|j: int|
                    0 <= j < it.index() ==> (#[trigger] r@[j]).deep_view() == (GroupKindNameModel {
                        group: group@,
                        kind: kind@,
                        name: all[j],
                    }),
        {
            assert(all[it.index()] == name@);
            r.push(GroupKindName { group: group.clone(), kind: kind.clone(), name });
        }
        assert(r.deep_view() =~= all.map_values(
            |name: Text| GroupKindNameModel { group: group@, kind: kind@, name },
        ));
        r
    }
}

/// The name of a route of Linkerd's own API.
pub fn gkn_for_linkerd_http_route(name: String) -> (r: GroupKindName)
    ensures
        r.deep_view() == (GroupKindNameModel {
            group: "policy.linkerd.io"@,
            kind: "HTTPRoute"@,
            name: name@,
        }),
{
    GroupKindName { group: "policy.linkerd.io".to_string(), kind: "HTTPRoute".to_string(), name }
}

/// The name of a route of the Gateway API.
pub fn gkn_for_gateway_http_route(name: String) -> (r: GroupKindName)
    ensures
        r.deep_view() == (GroupKindNameModel {
            group: "gateway.networking.k8s.io"@,
            kind: "HTTPRoute"@,
            name: name@,
        }),
{
    GroupKindName {
        group: "gateway.networking.k8s.io".to_string(),
        kind: "HTTPRoute".to_string(),
        name,
    }
}

impl Coded for GroupKindName {
    open spec fn code_of(m: GroupKindNameModel) -> CodeModel {
        (0, m.group, m.kind, m.name)
    }

    proof fn code_is_injective(a: GroupKindNameModel, b: GroupKindNameModel) {
    }

    fn code(&self) -> (r: Code) {
        (0, self.group.clone(), self.kind.clone(), self.name.clone())
    }
}

/// What a route comes from.
#[derive(Debug)]
pub enum HttpRouteRef {
    /// A built-in route.
    Default(String),
    /// A route resource of the namespace.
    Linkerd(GroupKindName),
}

/// What a [`HttpRouteRef`] means.
#[verifier::ext_equal]
pub enum HttpRouteRefModel {
    Default(Text),
    Linkerd(GroupKindNameModel),
}

impl DeepView for HttpRouteRef {
    type V = HttpRouteRefModel;

    open spec fn deep_view(&self) -> HttpRouteRefModel {
        match self {
            HttpRouteRef::Default(name) => HttpRouteRefModel::Default(name.deep_view()),
            HttpRouteRef::Linkerd(gkn) => HttpRouteRefModel::Linkerd(gkn.deep_view()),
        }
    }
}

impl Value for HttpRouteRef {
    fn same(&self, other: &Self) -> (r: bool) {
        match (self, other) {
            (HttpRouteRef::Default(name), HttpRouteRef::Default(name2)) => name.same(name2),
            (HttpRouteRef::Linkerd(gkn), HttpRouteRef::Linkerd(gkn2)) => gkn.same(gkn2),
            _ => false,
        }
    }

    fn dup(&self) -> (r: Self) {
        match self {
            HttpRouteRef::Default(name) => HttpRouteRef::Default(name.dup()),
            HttpRouteRef::Linkerd(gkn) => HttpRouteRef::Linkerd(gkn.dup()),
        }
    }
}

impl Coded for HttpRouteRef {
    open spec fn code_of(m: HttpRouteRefModel) -> CodeModel {
        match m {
            HttpRouteRefModel::Default(name) => (0, Seq::empty(), Seq::empty(), name),
            HttpRouteRefModel::Linkerd(gkn) => (1, gkn.group, gkn.kind, gkn.name),
        }
    }

    proof fn code_is_injective(a: HttpRouteRefModel, b: HttpRouteRefModel) {
    }

    fn code(&self) -> (r: Code) {
        match self {
            HttpRouteRef::Default(name) => (0, String::new(), String::new(), name.clone()),
            HttpRouteRef::Linkerd(gkn) => {
                (1, gkn.group.clone(), gkn.kind.clone(), gkn.name.clone())
            },
        }
    }
}

/// The paths that a request may have.
#[derive(Debug)]
pub enum PathMatch {
    /// This path.
    Exact(String),
    /// The paths under this one.
    Prefix(String),
    /// The paths that match this pattern.
    Regex(String),
}

/// What a [`PathMatch`] means.
#[verifier::ext_equal]
pub enum PathMatchModel {
    Exact(Text),
    Prefix(Text),
    Regex(Text),
}

impl DeepView for PathMatch {
    type V = PathMatchModel;

    open spec fn deep_view(&self) -> PathMatchModel {
        match self {
            PathMatch::Exact(path) => PathMatchModel::Exact(path.deep_view()),
            PathMatch::Prefix(path) => PathMatchModel::Prefix(path.deep_view()),
            PathMatch::Regex(pattern) => PathMatchModel::Regex(pattern.deep_view()),
        }
    }
}

impl Value for PathMatch {
    fn same(&self, other: &Self) -> (r: bool) {
        match (self, other) {
            (PathMatch::Exact(path), PathMatch::Exact(path2)) => path.same(path2),
            (PathMatch::Prefix(path), PathMatch::Prefix(path2)) => path.same(path2),
            (PathMatch::Regex(pattern), PathMatch::Regex(pattern2)) => pattern.same(pattern2),
            _ => false,
        }
    }

    fn dup(&self) -> (r: Self) {
        match self {
            PathMatch::Exact(path) => PathMatch::Exact(path.dup()),
            PathMatch::Prefix(path) => PathMatch::Prefix(path.dup()),
            PathMatch::Regex(pattern) => PathMatch::Regex(pattern.dup()),
        }
    }
}

/// The values that a field of a request, a header or a query parameter, may have.
#[derive(Debug)]
pub enum FieldMatch {
    /// This value.
    Exact { name: String, value: String },
    /// The values that match this pattern.
    Regex { name: String, pattern: String },
}

/// What a [`FieldMatch`] means.
#[verifier::ext_equal]
pub enum FieldMatchModel {
    Exact { name: Text, value: Text },
    Regex { name: Text, pattern: Text },
}

impl DeepView for FieldMatch {
    type V = FieldMatchModel;

    open spec fn deep_view(&self) -> FieldMatchModel {
        match self {
            FieldMatch::Exact { name, value } => FieldMatchModel::Exact {
                name: name.deep_view(),
                value: value.deep_view(),
            },
            FieldMatch::Regex { name, pattern } => FieldMatchModel::Regex {
                name: name.deep_view(),
                pattern: pattern.deep_view(),
            },
        }
    }
}

impl Value for FieldMatch {
    fn same(&self, other: &Self) -> (r: bool) {
        match (self, other) {
            (
                FieldMatch::Exact { name, value },
                FieldMatch::Exact { name: name2, value: value2 },
            ) => name.same(name2) && value.same(value2),
            (
                FieldMatch::Regex { name, pattern },
                FieldMatch::Regex { name: name2, pattern: pattern2 },
            ) => name.same(name2) && pattern.same(pattern2),
            _ => false,
        }
    }

    fn dup(&self) -> (r: Self) {
        match self {
            FieldMatch::Exact { name, value } => FieldMatch::Exact {
                name: name.dup(),
                value: value.dup(),
            },
            FieldMatch::Regex { name, pattern } => FieldMatch::Regex {
                name: name.dup(),
                pattern: pattern.dup(),
            },
        }
    }
}

/// The requests that a rule applies to.
#[derive(Debug)]
pub struct HttpRouteMatch {
    /// The path that a request must have.
    pub path: Option<PathMatch>,
    /// The headers that a request must have.
    pub headers: Vec<FieldMatch>,
    /// The query parameters that a request must have.
    pub query_params: Vec<FieldMatch>,
    /// The method that a request must have.
    pub method: Option<String>,
}

/// What a [`HttpRouteMatch`] means.
#[verifier::ext_equal]
pub struct HttpRouteMatchModel {
    pub path: Option<PathMatchModel>,
    pub headers: Seq<FieldMatchModel>,
    pub query_params: Seq<FieldMatchModel>,
    pub method: Option<Text>,
}

impl DeepView for HttpRouteMatch {
    type V = HttpRouteMatchModel;

    open spec fn deep_view(&self) -> HttpRouteMatchModel {
        HttpRouteMatchModel {
            path: self.path.deep_view(),
            headers: self.headers.deep_view(),
            query_params: self.query_params.deep_view(),
            method: self.method.deep_view(),
        }
    }
}

impl Value for HttpRouteMatch {
    fn same(&self, other: &Self) -> (r: bool) {
        self.path.same(&other.path)
            && self.headers.same(&other.headers)
            && self.query_params.same(&other.query_params)
            && self.method.same(&other.method)
    }

    fn dup(&self) -> (r: Self) {
        HttpRouteMatch {
            path: self.path.dup(),
            headers: self.headers.dup(),
            query_params: self.query_params.dup(),
            method: self.method.dup(),
        }
    }
}

/// A rule of a route.
#[derive(Debug)]
pub struct HttpRouteRule {
    /// The rule applies to a request that meets one of these.
    pub matches: Vec<HttpRouteMatch>,
    /// What is done to such a request, carried as text.
    pub filters: Vec<String>,
}

/// What a [`HttpRouteRule`] means.
#[verifier::ext_equal]
pub struct HttpRouteRuleModel {
    pub matches: Seq<HttpRouteMatchModel>,
    pub filters: Seq<Text>,
}

impl DeepView for HttpRouteRule {
    type V = HttpRouteRuleModel;

    open spec fn deep_view(&self) -> HttpRouteRuleModel {
        HttpRouteRuleModel {
            matches: self.matches.deep_view(),
            filters: self.filters.deep_view(),
        }
    }
}

impl Value for HttpRouteRule {
    fn same(&self, other: &Self) -> (r: bool) {
        self.matches.same(&other.matches)
            && self.filters.same(&other.filters)
    }

    fn dup(&self) -> (r: Self) {
        HttpRouteRule {
            matches: self.matches.dup(),
            filters: self.filters.dup(),
        }
    }
}

/// A route, as a server offers it.
#[derive(Debug)]
pub struct HttpRoute {
    /// The hosts that the route is for, carried as text. With none, it is for
    /// every host.
    pub hostnames: Vec<String>,
    /// The rules of the route.
    pub rules: Vec<HttpRouteRule>,
    /// Who may use the route.
    pub authorizations: CodeTable<AuthorizationRef, ClientAuthorization>,
    /// When the route was created, in seconds since the Unix epoch.
    pub creation_timestamp: Option<i64>,
}

/// What a [`HttpRoute`] means.
#[verifier::ext_equal]
pub struct HttpRouteModel {
    pub hostnames: Seq<Text>,
    pub rules: Seq<HttpRouteRuleModel>,
    pub authorizations: Map<AuthorizationRefModel, ClientAuthorizationModel>,
    pub creation_timestamp: Option<i64>,
}

impl DeepView for HttpRoute {
    type V = HttpRouteModel;

    open spec fn deep_view(&self) -> HttpRouteModel {
        HttpRouteModel {
            hostnames: self.hostnames.deep_view(),
            rules: self.rules.deep_view(),
            authorizations: self.authorizations.deep_view(),
            creation_timestamp: self.creation_timestamp.deep_view(),
        }
    }
}

impl Value for HttpRoute {
    fn same(&self, other: &Self) -> (r: bool) {
        self.hostnames.same(&other.hostnames)
            && self.rules.same(&other.rules)
            && self.authorizations.same(&other.authorizations)
            && self.creation_timestamp.same(&other.creation_timestamp)
    }

    fn dup(&self) -> (r: Self) {
        HttpRoute {
            hostnames: self.hostnames.dup(),
            rules: self.rules.dup(),
            authorizations: self.authorizations.dup(),
            creation_timestamp: self.creation_timestamp.dup(),
        }
    }
}

/// The route that matches every request. It authorizes nobody of its own:
/// default authorizations stand on the server.
pub open spec fn catch_all_route() -> HttpRouteModel {
    HttpRouteModel {
        hostnames: Seq::empty(),
        rules: seq![
            HttpRouteRuleModel {
                matches: seq![
                    HttpRouteMatchModel {
                        path: Some(PathMatchModel::Prefix("/"@)),
                        headers: Seq::empty(),
                        query_params: Seq::empty(),
                        method: None,
                    },
                ],
                filters: Seq::empty(),
            },
        ],
        authorizations: Map::empty(),
        creation_timestamp: None,
    }
}

impl Default for HttpRoute {
    /// The route that matches every request.
    fn default() -> (r: Self)
        ensures
            r.deep_view() == catch_all_route(),
    {
        let r = HttpRoute {
            hostnames: Vec::new(),
            rules: vec![
                HttpRouteRule {
                    matches: vec![
                        HttpRouteMatch {
                            path: Some(PathMatch::Prefix("/".to_string())),
                            headers: Vec::new(),
                            query_params: Vec::new(),
                            method: None,
                        },
                    ],
                    filters: Vec::new(),
                },
            ],
            authorizations: CodeTable::new(),
            creation_timestamp: None,
        };
        assert(r.deep_view() =~~= catch_all_route());
        r
    }
}

/// What a route asks to be attached to.
#[derive(Debug)]
pub enum ParentRef {
    /// A `Server` of the namespace.
    Server(String),
}

/// What a [`ParentRef`] means.
#[verifier::ext_equal]
pub enum ParentRefModel {
    Server(Text),
}

impl DeepView for ParentRef {
    type V = ParentRefModel;

    open spec fn deep_view(&self) -> ParentRefModel {
        match self {
            ParentRef::Server(name) => ParentRefModel::Server(name.deep_view()),
        }
    }
}

impl Value for ParentRef {
    fn same(&self, other: &Self) -> (r: bool) {
        match (self, other) {
            (ParentRef::Server(name), ParentRef::Server(name2)) => name.same(name2),
        }
    }

    fn dup(&self) -> (r: Self) {
        match self {
            ParentRef::Server(name) => ParentRef::Server(name.dup()),
        }
    }
}

/// What a parent has answered to a route.
#[derive(Debug)]
pub struct RouteStatus {
    /// The parent.
    pub parent: ParentRef,
    /// Whether the parent has accepted the route.
    pub accepted: bool,
}

/// What a [`RouteStatus`] means.
#[verifier::ext_equal]
pub struct RouteStatusModel {
    pub parent: ParentRefModel,
    pub accepted: bool,
}

impl DeepView for RouteStatus {
    type V = RouteStatusModel;

    open spec fn deep_view(&self) -> RouteStatusModel {
        RouteStatusModel {
            parent: self.parent.deep_view(),
            accepted: self.accepted.deep_view(),
        }
    }
}

impl Value for RouteStatus {
    fn same(&self, other: &Self) -> (r: bool) {
        self.parent.same(&other.parent)
            && self.accepted.same(&other.accepted)
    }

    fn dup(&self) -> (r: Self) {
        RouteStatus {
            parent: self.parent.dup(),
            accepted: self.accepted.dup(),
        }
    }
}

/// A route resource with the servers it asks for and their answers.
#[derive(Debug)]
pub struct RouteBinding {
    /// The parents that the route asks for.
    pub parents: Vec<ParentRef>,
    /// The route.
    pub route: HttpRoute,
    /// What the parents have answered.
    pub statuses: Vec<RouteStatus>,
}

/// What a [`RouteBinding`] means.
#[verifier::ext_equal]
pub struct RouteBindingModel {
    pub parents: Seq<ParentRefModel>,
    pub route: HttpRouteModel,
    pub statuses: Seq<RouteStatusModel>,
}

impl DeepView for RouteBinding {
    type V = RouteBindingModel;

    open spec fn deep_view(&self) -> RouteBindingModel {
        RouteBindingModel {
            parents: self.parents.deep_view(),
            route: self.route.deep_view(),
            statuses: self.statuses.deep_view(),
        }
    }
}

impl Value for RouteBinding {
    fn same(&self, other: &Self) -> (r: bool) {
        self.parents.same(&other.parents)
            && self.route.same(&other.route)
            && self.statuses.same(&other.statuses)
    }

    fn dup(&self) -> (r: Self) {
        RouteBinding {
            parents: self.parents.dup(),
            route: self.route.dup(),
            statuses: self.statuses.dup(),
        }
    }
}

impl RouteBindingModel {
    /// Whether the route asks to be attached to a server.
    pub open spec fn selects_server(self, name: Text) -> bool {
        self.parents.contains(ParentRefModel::Server(name))
    }

    /// Whether a server has accepted the route.
    pub open spec fn accepted_by_server(self, name: Text) -> bool {
        exists|i: int|
            0 <= i < self.statuses.len() && (#[trigger] self.statuses[i]).parent
                == ParentRefModel::Server(name) && self.statuses[i].accepted
    }
}

impl RouteBinding {
    /// Whether the route asks to be attached to a server.
    pub fn selects_server(&self, name: &String) -> (r: bool)
        ensures
            r == self.deep_view().selects_server(name@),
    {
        let mut i: usize = 0;
        while i < self.parents.len()
            invariant
                i <= self.parents.len(),
                forall|j: int|
                    0 <= j < i ==> (#[trigger] self.deep_view().parents[j])
                        != ParentRefModel::Server(name@),
            decreases self.parents.len() - i,
        {
            match &self.parents[i] {
                ParentRef::Server(parent) => {
                    if *parent == *name {
                        assert(self.deep_view().parents[i as int] == ParentRefModel::Server(name@));
                        return true;
                    }
                },
            }
            i = i + 1;
        }
        false
    }

    /// Whether a server has accepted the route.
    pub fn accepted_by_server(&self, name: &String) -> (r: bool)
        ensures
            r == self.deep_view().accepted_by_server(name@),
    {
        let mut i: usize = 0;
        while i < self.statuses.len()
            invariant
                i <= self.statuses.len(),
                forall|j: int|
                    0 <= j < i ==> !((#[trigger] self.deep_view().statuses[j]).parent
                        == ParentRefModel::Server(name@) && self.deep_view().statuses[j].accepted),
            decreases self.statuses.len() - i,
        {
            let status = &self.statuses[i];
            assert(self.deep_view().statuses[i as int] == status.deep_view());
            match &status.parent {
                ParentRef::Server(parent) => {
                    if *parent == *name && status.accepted {
                        return true;
                    }
                },
            }
            i = i + 1;
        }
        false
    }
}

} // verus!
