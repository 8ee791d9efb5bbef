//! The configuration of a server, as it is published for a port.
use crate::authz::{
    AuthorizationRef, AuthorizationRefModel, ClientAuthorization, ClientAuthorizationModel,
};
use crate::route::{HttpRoute, HttpRouteModel, HttpRouteRef, HttpRouteRefModel};
use crate::table::CodeTable;
use crate::value::{Text, Value};
use vstd::prelude::*;

verus! {

/// A span of time.
#[derive(Clone, Copy, Debug, PartialEq, Eq, Structural)]
pub struct Timeout {
    /// Whole seconds.
    pub secs: u64,
    /// Nanoseconds beyond them.
    pub nanos: u32,
}

/// The protocol that a server speaks.
#[derive(Clone, Copy, Debug, PartialEq, Eq, Structural)]
pub enum ProxyProtocol {
    /// Found out from the first bytes of a connection, if they come in time.
    Detect { timeout: Timeout },
    /// HTTP/1.
    Http1,
    /// HTTP/2.
    Http2,
    /// gRPC.
    Grpc,
    /// Unknown bytes.
    Opaque,
    /// TLS that the server itself ends.
    Tls,
}

impl DeepView for ProxyProtocol {
    type V = ProxyProtocol;

    open spec fn deep_view(&self) -> ProxyProtocol {
        *self
    }
}

impl Value for ProxyProtocol {
    fn same(&self, other: &Self) -> (r: bool) {
        *self == *other
    }

    fn dup(&self) -> (r: Self) {
        *self
    }
}

/// What the configuration of a server comes from.
#[derive(Debug)]
pub enum ServerRef {
    /// A default policy.
    Default(String),
    /// A `Server` of the namespace.
    Server(String),
    /// An external workload, or the default policy of one.
    External(String),
}

/// What a [`ServerRef`] means.
#[verifier::ext_equal]
pub enum ServerRefModel {
    Default(Text),
    Server(Text),
    External(Text),
}

impl DeepView for ServerRef {
    type V = ServerRefModel;

    open spec fn deep_view(&self) -> ServerRefModel {
        match self {
            ServerRef::Default(name) => ServerRefModel::Default(name.deep_view()),
            ServerRef::Server(name) => ServerRefModel::Server(name.deep_view()),
            ServerRef::External(name) => ServerRefModel::External(name.deep_view()),
        }
    }
}

impl Value for ServerRef {
    fn same(&self, other: &Self) -> (r: bool) {
        match (self, other) {
            (ServerRef::Default(name), ServerRef::Default(name2)) => name.same(name2),
            (ServerRef::Server(name), ServerRef::Server(name2)) => name.same(name2),
            (ServerRef::External(name), ServerRef::External(name2)) => name.same(name2),
            _ => false,
        }
    }

    fn dup(&self) -> (r: Self) {
        match self {
            ServerRef::Default(name) => ServerRef::Default(name.dup()),
            ServerRef::Server(name) => ServerRef::Server(name.dup()),
            ServerRef::External(name) => ServerRef::External(name.dup()),
        }
    }
}

/// The configuration of a server.
#[derive(Debug)]
pub struct InboundServer {
    /// What the configuration comes from.
    pub reference: ServerRef,
    /// The protocol that the server speaks.
    pub protocol: ProxyProtocol,
    /// Who may talk to the server.
    pub authorizations: CodeTable<AuthorizationRef, ClientAuthorization>,
    /// The routes that the server offers.
    pub http_routes: CodeTable<HttpRouteRef, HttpRoute>,
}

/// What an [`InboundServer`] means.
#[verifier::ext_equal]
pub struct InboundServerModel {
    pub reference: ServerRefModel,
    pub protocol: ProxyProtocol,
    pub authorizations: Map<AuthorizationRefModel, ClientAuthorizationModel>,
    pub http_routes: Map<HttpRouteRefModel, HttpRouteModel>,
}

impl DeepView for InboundServer {
    type V = InboundServerModel;

    open spec fn deep_view(&self) -> InboundServerModel {
        InboundServerModel {
            reference: self.reference.deep_view(),
            protocol: self.protocol.deep_view(),
            authorizations: self.authorizations.deep_view(),
            http_routes: self.http_routes.deep_view(),
        }
    }
}

impl Value for InboundServer {
    fn same(&self, other: &Self) -> (r: bool) {
        self.reference.same(&other.reference)
            && self.protocol.same(&other.protocol)
            && self.authorizations.same(&other.authorizations)
            && self.http_routes.same(&other.http_routes)
    }

    fn dup(&self) -> (r: Self) {
        InboundServer {
            reference: self.reference.dup(),
            protocol: self.protocol.dup(),
            authorizations: self.authorizations.dup(),
            http_routes: self.http_routes.dup(),
        }
    }
}

} // verus!
