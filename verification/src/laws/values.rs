//! What values mean: all that they are made of.
use crate::authorization_policy::{AuthenticationTarget, Spec, Subject, Target};
use crate::authz::{
    AuthorizationRef, ClientAuthentication, ClientAuthorization, IdentityMatch, NetworkMatch,
};
use crate::cluster::ClusterInfo;
use crate::inbound::{InboundServer, ServerRef};
use crate::labels::{Expression, Selector};
use crate::listing::{Listed, NsUpdate};
use crate::meta::{Meta, ObjectMeta, Settings};
use crate::route::{
    FieldMatch, GroupKindName, HttpRoute, HttpRouteMatch, HttpRouteRef, HttpRouteRule, ParentRef,
    PathMatch, RouteBinding, RouteStatus,
};
use crate::server::{PortRef, Server};
use crate::server_authorization::{ServerAuthz, ServerSelector};
use vstd::prelude::*;

verus! {

/// Two values [`NetworkMatch`] mean the same only if they agree in every part.
pub proof fn network_match_means_all_its_parts(a: NetworkMatch, b: NetworkMatch)
    requires
        a.deep_view() == b.deep_view(),
    ensures
        a.net.deep_view() == b.net.deep_view(),
        a.except.deep_view() == b.except.deep_view(),
{
}

/// Two values [`IdentityMatch`] mean the same only if they agree in every part.
pub proof fn identity_match_means_all_its_parts(a: IdentityMatch, b: IdentityMatch)
    requires
        a.deep_view() == b.deep_view(),
    ensures
        match (a, b) {
            (IdentityMatch::Exact(x), IdentityMatch::Exact(y)) => x.deep_view() == y.deep_view(),
            (IdentityMatch::Suffix(x), IdentityMatch::Suffix(y)) => x.deep_view() == y.deep_view(),
            _ => false,
        },
{
}

/// Two values [`ClientAuthentication`] mean the same only if they agree in every part.
pub proof fn client_authentication_means_all_its_parts(
    a: ClientAuthentication,
    b: ClientAuthentication,
)
    requires
        a.deep_view() == b.deep_view(),
    ensures
        match (a, b) {
            (ClientAuthentication::Unauthenticated, ClientAuthentication::Unauthenticated) => true,
            (
                ClientAuthentication::TlsUnauthenticated,
                ClientAuthentication::TlsUnauthenticated,
            ) => true,
            (
                ClientAuthentication::TlsAuthenticated(x),
                ClientAuthentication::TlsAuthenticated(y),
            ) => {
                x.deep_view() == y.deep_view()
            },
            _ => false,
        },
{
}

/// Two values [`ClientAuthorization`] mean the same only if they agree in every part.
pub proof fn client_authorization_means_all_its_parts(
    a: ClientAuthorization,
    b: ClientAuthorization,
)
    requires
        a.deep_view() == b.deep_view(),
    ensures
        a.networks.deep_view() == b.networks.deep_view(),
        a.authentication.deep_view() == b.authentication.deep_view(),
{
}

/// Two values [`AuthorizationRef`] mean the same only if they agree in every part.
pub proof fn authorization_ref_means_all_its_parts(a: AuthorizationRef, b: AuthorizationRef)
    requires
        a.deep_view() == b.deep_view(),
    ensures
        match (a, b) {
            (AuthorizationRef::Default(x), AuthorizationRef::Default(y)) => {
                x.deep_view() == y.deep_view()
            },
            (
                AuthorizationRef::ServerAuthorization(x),
                AuthorizationRef::ServerAuthorization(y),
            ) => {
                x.deep_view() == y.deep_view()
            },
            (
                AuthorizationRef::AuthorizationPolicy(x),
                AuthorizationRef::AuthorizationPolicy(y),
            ) => {
                x.deep_view() == y.deep_view()
            },
            _ => false,
        },
{
}

/// Two values [`Target`] mean the same only if they agree in every part.
pub proof fn target_means_all_its_parts(a: Target, b: Target)
    requires
        a.deep_view() == b.deep_view(),
    ensures
        match (a, b) {
            (Target::HttpRoute(x), Target::HttpRoute(y)) => x.deep_view() == y.deep_view(),
            (Target::Server(x), Target::Server(y)) => x.deep_view() == y.deep_view(),
            (Target::Namespace, Target::Namespace) => true,
            (Target::ExternalGroup(x), Target::ExternalGroup(y)) => x.deep_view() == y.deep_view(),
            _ => false,
        },
{
}

/// Two values [`Subject`] mean the same only if they agree in every part.
pub proof fn subject_means_all_its_parts(a: Subject, b: Subject)
    requires
        a.deep_view() == b.deep_view(),
    ensures
        match (a, b) {
            (Subject::Server(x), Subject::Server(y)) => x.deep_view() == y.deep_view(),
            (Subject::Workload(x, x2), Subject::Workload(y, y2)) => {
                &&& x.deep_view() == y.deep_view()
                &&& x2.deep_view() == y2.deep_view()
            },
            (Subject::Route(x), Subject::Route(y)) => x.deep_view() == y.deep_view(),
            _ => false,
        },
{
}

/// Two values [`AuthenticationTarget`] mean the same only if they agree in every part.
pub proof fn authentication_target_means_all_its_parts(
    a: AuthenticationTarget,
    b: AuthenticationTarget,
)
    requires
        a.deep_view() == b.deep_view(),
    ensures
        match (a, b) {
            (
                AuthenticationTarget::MeshTLS { namespace, name },
                AuthenticationTarget::MeshTLS { namespace: namespace2, name: name2 },
            ) => {
                &&& namespace.deep_view() == namespace2.deep_view()
                &&& name.deep_view() == name2.deep_view()
            },
            (
                AuthenticationTarget::Network { namespace, name },
                AuthenticationTarget::Network { namespace: namespace2, name: name2 },
            ) => {
                &&& namespace.deep_view() == namespace2.deep_view()
                &&& name.deep_view() == name2.deep_view()
            },
            (
                AuthenticationTarget::ServiceAccount { namespace, name },
                AuthenticationTarget::ServiceAccount { namespace: namespace2, name: name2 },
            ) => {
                &&& namespace.deep_view() == namespace2.deep_view()
                &&& name.deep_view() == name2.deep_view()
            },
            _ => false,
        },
{
}

/// Two values [`Spec`] mean the same only if they agree in every part.
pub proof fn spec_means_all_its_parts(a: Spec, b: Spec)
    requires
        a.deep_view() == b.deep_view(),
    ensures
        a.target.deep_view() == b.target.deep_view(),
        a.authentications.deep_view() == b.authentications.deep_view(),
{
}

/// Two values [`ServerSelector`] mean the same only if they agree in every part.
pub proof fn server_selector_means_all_its_parts(a: ServerSelector, b: ServerSelector)
    requires
        a.deep_view() == b.deep_view(),
    ensures
        match (a, b) {
            (ServerSelector::Name(x), ServerSelector::Name(y)) => x.deep_view() == y.deep_view(),
            (ServerSelector::Selector(x), ServerSelector::Selector(y)) => {
                x.deep_view() == y.deep_view()
            },
            _ => false,
        },
{
}

/// Two values [`ServerAuthz`] mean the same only if they agree in every part.
pub proof fn server_authz_means_all_its_parts(a: ServerAuthz, b: ServerAuthz)
    requires
        a.deep_view() == b.deep_view(),
    ensures
        a.authz.deep_view() == b.authz.deep_view(),
        a.server_selector.deep_view() == b.server_selector.deep_view(),
{
}

/// Two values [`Expression`] mean the same only if they agree in every part.
pub proof fn expression_means_all_its_parts(a: Expression, b: Expression)
    requires
        a.deep_view() == b.deep_view(),
    ensures
        a.key.deep_view() == b.key.deep_view(),
        a.operator.deep_view() == b.operator.deep_view(),
        a.values.deep_view() == b.values.deep_view(),
{
}

/// Two values [`Selector`] mean the same only if they agree in every part.
pub proof fn selector_means_all_its_parts(a: Selector, b: Selector)
    requires
        a.deep_view() == b.deep_view(),
    ensures
        a.match_labels.deep_view() == b.match_labels.deep_view(),
        a.match_expressions.deep_view() == b.match_expressions.deep_view(),
{
}

/// Two values [`PortRef`] mean the same only if they agree in every part.
pub proof fn port_ref_means_all_its_parts(a: PortRef, b: PortRef)
    requires
        a.deep_view() == b.deep_view(),
    ensures
        match (a, b) {
            (PortRef::Number(x), PortRef::Number(y)) => x.deep_view() == y.deep_view(),
            (PortRef::Name(x), PortRef::Name(y)) => x.deep_view() == y.deep_view(),
            _ => false,
        },
{
}

/// Two values [`Server`] mean the same only if they agree in every part.
pub proof fn server_means_all_its_parts(a: Server, b: Server)
    requires
        a.deep_view() == b.deep_view(),
    ensures
        a.labels.deep_view() == b.labels.deep_view(),
        a.pod_selector.deep_view() == b.pod_selector.deep_view(),
        a.port_ref.deep_view() == b.port_ref.deep_view(),
        a.protocol.deep_view() == b.protocol.deep_view(),
{
}

/// Two values [`ServerRef`] mean the same only if they agree in every part.
pub proof fn server_ref_means_all_its_parts(a: ServerRef, b: ServerRef)
    requires
        a.deep_view() == b.deep_view(),
    ensures
        match (a, b) {
            (ServerRef::Default(x), ServerRef::Default(y)) => x.deep_view() == y.deep_view(),
            (ServerRef::Server(x), ServerRef::Server(y)) => x.deep_view() == y.deep_view(),
            (ServerRef::External(x), ServerRef::External(y)) => x.deep_view() == y.deep_view(),
            _ => false,
        },
{
}

/// Two values [`InboundServer`] mean the same only if they agree in every part.
pub proof fn inbound_server_means_all_its_parts(a: InboundServer, b: InboundServer)
    requires
        a.deep_view() == b.deep_view(),
    ensures
        a.reference.deep_view() == b.reference.deep_view(),
        a.protocol.deep_view() == b.protocol.deep_view(),
        a.authorizations.deep_view() == b.authorizations.deep_view(),
        a.http_routes.deep_view() == b.http_routes.deep_view(),
{
}

/// Two values [`GroupKindName`] mean the same only if they agree in every part.
pub proof fn group_kind_name_means_all_its_parts(a: GroupKindName, b: GroupKindName)
    requires
        a.deep_view() == b.deep_view(),
    ensures
        a.group.deep_view() == b.group.deep_view(),
        a.kind.deep_view() == b.kind.deep_view(),
        a.name.deep_view() == b.name.deep_view(),
{
}

/// Two values [`HttpRouteRef`] mean the same only if they agree in every part.
pub proof fn http_route_ref_means_all_its_parts(a: HttpRouteRef, b: HttpRouteRef)
    requires
        a.deep_view() == b.deep_view(),
    ensures
        match (a, b) {
            (HttpRouteRef::Default(x), HttpRouteRef::Default(y)) => x.deep_view() == y.deep_view(),
            (HttpRouteRef::Linkerd(x), HttpRouteRef::Linkerd(y)) => x.deep_view() == y.deep_view(),
            _ => false,
        },
{
}

/// Two values [`PathMatch`] mean the same only if they agree in every part.
pub proof fn path_match_means_all_its_parts(a: PathMatch, b: PathMatch)
    requires
        a.deep_view() == b.deep_view(),
    ensures
        match (a, b) {
            (PathMatch::Exact(x), PathMatch::Exact(y)) => x.deep_view() == y.deep_view(),
            (PathMatch::Prefix(x), PathMatch::Prefix(y)) => x.deep_view() == y.deep_view(),
            (PathMatch::Regex(x), PathMatch::Regex(y)) => x.deep_view() == y.deep_view(),
            _ => false,
        },
{
}

/// Two values [`FieldMatch`] mean the same only if they agree in every part.
pub proof fn field_match_means_all_its_parts(a: FieldMatch, b: FieldMatch)
    requires
        a.deep_view() == b.deep_view(),
    ensures
        match (a, b) {
            (
                FieldMatch::Exact { name, value },
                FieldMatch::Exact { name: name2, value: value2 },
            ) => {
                &&& name.deep_view() == name2.deep_view()
                &&& value.deep_view() == value2.deep_view()
            },
            (
                FieldMatch::Regex { name, pattern },
                FieldMatch::Regex { name: name2, pattern: pattern2 },
            ) => {
                &&& name.deep_view() == name2.deep_view()
                &&& pattern.deep_view() == pattern2.deep_view()
            },
            _ => false,
        },
{
}

/// Two values [`HttpRouteMatch`] mean the same only if they agree in every part.
pub proof fn http_route_match_means_all_its_parts(a: HttpRouteMatch, b: HttpRouteMatch)
    requires
        a.deep_view() == b.deep_view(),
    ensures
        a.path.deep_view() == b.path.deep_view(),
        a.headers.deep_view() == b.headers.deep_view(),
        a.query_params.deep_view() == b.query_params.deep_view(),
        a.method.deep_view() == b.method.deep_view(),
{
}

/// Two values [`HttpRouteRule`] mean the same only if they agree in every part.
pub proof fn http_route_rule_means_all_its_parts(a: HttpRouteRule, b: HttpRouteRule)
    requires
        a.deep_view() == b.deep_view(),
    ensures
        a.matches.deep_view() == b.matches.deep_view(),
        a.filters.deep_view() == b.filters.deep_view(),
{
}

/// Two values [`HttpRoute`] mean the same only if they agree in every part.
pub proof fn http_route_means_all_its_parts(a: HttpRoute, b: HttpRoute)
    requires
        a.deep_view() == b.deep_view(),
    ensures
        a.hostnames.deep_view() == b.hostnames.deep_view(),
        a.rules.deep_view() == b.rules.deep_view(),
        a.authorizations.deep_view() == b.authorizations.deep_view(),
        a.creation_timestamp.deep_view() == b.creation_timestamp.deep_view(),
{
}

/// Two values [`ParentRef`] mean the same only if they agree in every part.
pub proof fn parent_ref_means_all_its_parts(a: ParentRef, b: ParentRef)
    requires
        a.deep_view() == b.deep_view(),
    ensures
        match (a, b) {
            (ParentRef::Server(x), ParentRef::Server(y)) => x.deep_view() == y.deep_view(),
        },
{
}

/// Two values [`RouteStatus`] mean the same only if they agree in every part.
pub proof fn route_status_means_all_its_parts(a: RouteStatus, b: RouteStatus)
    requires
        a.deep_view() == b.deep_view(),
    ensures
        a.parent.deep_view() == b.parent.deep_view(),
        a.accepted.deep_view() == b.accepted.deep_view(),
{
}

/// Two values [`RouteBinding`] mean the same only if they agree in every part.
pub proof fn route_binding_means_all_its_parts(a: RouteBinding, b: RouteBinding)
    requires
        a.deep_view() == b.deep_view(),
    ensures
        a.parents.deep_view() == b.parents.deep_view(),
        a.route.deep_view() == b.route.deep_view(),
        a.statuses.deep_view() == b.statuses.deep_view(),
{
}

/// Two values [`ObjectMeta`] mean the same only if they agree in every part.
pub proof fn object_meta_means_all_its_parts(a: ObjectMeta, b: ObjectMeta)
    requires
        a.deep_view() == b.deep_view(),
    ensures
        a.annotations.deep_view() == b.annotations.deep_view(),
        a.labels.deep_view() == b.labels.deep_view(),
{
}

/// Two values [`Settings`] mean the same only if they agree in every part.
pub proof fn settings_means_all_its_parts(a: Settings, b: Settings)
    requires
        a.deep_view() == b.deep_view(),
    ensures
        a.require_id_ports.deep_view() == b.require_id_ports.deep_view(),
        a.opaque_ports.deep_view() == b.opaque_ports.deep_view(),
        a.default_policy.deep_view() == b.default_policy.deep_view(),
{
}

/// Two values [`Meta`] mean the same only if they agree in every part.
pub proof fn meta_means_all_its_parts(a: Meta, b: Meta)
    requires
        a.deep_view() == b.deep_view(),
    ensures
        a.labels.deep_view() == b.labels.deep_view(),
        a.settings.deep_view() == b.settings.deep_view(),
{
}

/// Two values [`ClusterInfo`] mean the same only if they agree in every part.
pub proof fn cluster_info_means_all_its_parts(a: ClusterInfo, b: ClusterInfo)
    requires
        a.deep_view() == b.deep_view(),
    ensures
        a.networks.deep_view() == b.networks.deep_view(),
        a.control_plane_ns.deep_view() == b.control_plane_ns.deep_view(),
        a.identity_domain.deep_view() == b.identity_domain.deep_view(),
        a.default_policy.deep_view() == b.default_policy.deep_view(),
        a.default_detect_timeout == b.default_detect_timeout,
        a.probe_networks.deep_view() == b.probe_networks.deep_view(),
{
}

/// Two resources of listings mean the same only if they agree in every part.
pub proof fn listed_means_all_its_parts<K: DeepView, T: DeepView>(a: Listed<K, T>, b: Listed<K, T>)
    requires
        a.deep_view() == b.deep_view(),
    ensures
        a.namespace@ == b.namespace@,
        a.key.deep_view() == b.key.deep_view(),
        a.value.deep_view() == b.value.deep_view(),
{
}

/// Two changes of a namespace mean the same only if they agree in every part.
pub proof fn ns_update_means_all_its_parts<K: DeepView, T: DeepView>(
    a: NsUpdate<K, T>,
    b: NsUpdate<K, T>,
)
    requires
        a.deep_view() == b.deep_view(),
    ensures
        a.added.deep_view() == b.added.deep_view(),
        a.removed.deep_view() == b.removed.deep_view(),
{
}

} // verus!
