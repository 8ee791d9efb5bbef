//! `Server`s: what applies to a port of the pods that they select.
use crate::inbound::ProxyProtocol;
use crate::labels::{Labels, Selector, SelectorModel};
use crate::value::{Text, Value};
use vstd::prelude::*;

verus! {

/// The port that a `Server` applies to.
#[derive(Debug)]
pub enum PortRef {
    /// The port of this number.
    Number(u16),
    /// The ports of this name.
    Name(String),
}

/// What a [`PortRef`] means.
#[verifier::ext_equal]
pub enum PortRefModel {
    Number(u16),
    Name(Text),
}

impl DeepView for PortRef {
    type V = PortRefModel;

    open spec fn deep_view(&self) -> PortRefModel {
        match self {
            PortRef::Number(port) => PortRefModel::Number(port.deep_view()),
            PortRef::Name(name) => PortRefModel::Name(name.deep_view()),
        }
    }
}

impl Value for PortRef {
    fn same(&self, other: &Self) -> (r: bool) {
        match (self, other) {
            (PortRef::Number(port), PortRef::Number(port2)) => port.same(port2),
            (PortRef::Name(name), PortRef::Name(name2)) => name.same(name2),
            _ => false,
        }
    }

    fn dup(&self) -> (r: Self) {
        match self {
            PortRef::Number(port) => PortRef::Number(port.dup()),
            PortRef::Name(name) => PortRef::Name(name.dup()),
        }
    }
}

/// A `Server`.
#[derive(Debug)]
pub struct Server {
    /// Its labels, by which `ServerAuthorization`s select it.
    pub labels: Labels,
    /// The pods that it selects.
    pub pod_selector: Selector,
    /// The port of those pods that it applies to.
    pub port_ref: PortRef,
    /// The protocol that is spoken on it.
    pub protocol: ProxyProtocol,
}

/// What a [`Server`] means.
#[verifier::ext_equal]
pub struct ServerModel {
    pub labels: Map<Text, Text>,
    pub pod_selector: SelectorModel,
    pub port_ref: PortRefModel,
    pub protocol: ProxyProtocol,
}

impl DeepView for Server {
    type V = ServerModel;

    open spec fn deep_view(&self) -> ServerModel {
        ServerModel {
            labels: self.labels.deep_view(),
            pod_selector: self.pod_selector.deep_view(),
            port_ref: self.port_ref.deep_view(),
            protocol: self.protocol.deep_view(),
        }
    }
}

impl Value for Server {
    fn same(&self, other: &Self) -> (r: bool) {
        self.labels.same(&other.labels)
            && self.pod_selector.same(&other.pod_selector)
            && self.port_ref.same(&other.port_ref)
            && self.protocol.same(&other.protocol)
    }

    fn dup(&self) -> (r: Self) {
        Server {
            labels: self.labels.dup(),
            pod_selector: self.pod_selector.dup(),
            port_ref: self.port_ref.dup(),
            protocol: self.protocol.dup(),
        }
    }
}

} // verus!
