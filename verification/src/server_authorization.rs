//! `ServerAuthorization`s: who may talk to the `Server`s that they select.
use crate::authz::{ClientAuthorization, ClientAuthorizationModel};
use crate::labels::{Labels, Selector, SelectorModel};
use crate::value::{Text, Value};
use vstd::prelude::*;

verus! {

/// The `Server`s that a `ServerAuthorization` applies to.
#[derive(Debug)]
pub enum ServerSelector {
    /// The one of this name.
    Name(String),
    /// Those with the labels asked for.
    Selector(Selector),
}

/// What a [`ServerSelector`] means.
#[verifier::ext_equal]
pub enum ServerSelectorModel {
    Name(Text),
    Selector(SelectorModel),
}

impl DeepView for ServerSelector {
    type V = ServerSelectorModel;

    open spec fn deep_view(&self) -> ServerSelectorModel {
        match self {
            ServerSelector::Name(name) => ServerSelectorModel::Name(name.deep_view()),
            ServerSelector::Selector(selector) => {
                ServerSelectorModel::Selector(selector.deep_view())
            },
        }
    }
}

impl Value for ServerSelector {
    fn same(&self, other: &Self) -> (r: bool) {
        match (self, other) {
            (ServerSelector::Name(name), ServerSelector::Name(name2)) => name.same(name2),
            (ServerSelector::Selector(selector), ServerSelector::Selector(selector2)) => {
                selector.same(selector2)
            },
            _ => false,
        }
    }

    fn dup(&self) -> (r: Self) {
        match self {
            ServerSelector::Name(name) => ServerSelector::Name(name.dup()),
            ServerSelector::Selector(selector) => ServerSelector::Selector(selector.dup()),
        }
    }
}

impl ServerSelectorModel {
    /// Whether a server of this name and these labels is selected.
    pub open spec fn selects(self, name: Text, labels: Map<Text, Text>) -> bool {
        match self {
            ServerSelectorModel::Name(wanted) => wanted == name,
            ServerSelectorModel::Selector(selector) => selector.matches(labels),
        }
    }
}

impl ServerSelector {
    /// Whether a server of this name and these labels is selected.
    pub fn selects(&self, name: &String, labels: &Labels) -> (r: bool)
        ensures
            r == self.deep_view().selects(name@, labels.deep_view()),
    {
        match self {
            ServerSelector::Name(wanted) => *wanted == *name,
            ServerSelector::Selector(selector) => selector.matches(labels),
        }
    }
}

/// A `ServerAuthorization`.
#[derive(Debug)]
pub struct ServerAuthz {
    /// The clients that it lets in.
    pub authz: ClientAuthorization,
    /// The servers to which it lets them in.
    pub server_selector: ServerSelector,
}

/// What a [`ServerAuthz`] means.
#[verifier::ext_equal]
pub struct ServerAuthzModel {
    pub authz: ClientAuthorizationModel,
    pub server_selector: ServerSelectorModel,
}

impl DeepView for ServerAuthz {
    type V = ServerAuthzModel;

    open spec fn deep_view(&self) -> ServerAuthzModel {
        ServerAuthzModel {
            authz: self.authz.deep_view(),
            server_selector: self.server_selector.deep_view(),
        }
    }
}

impl Value for ServerAuthz {
    fn same(&self, other: &Self) -> (r: bool) {
        self.authz.same(&other.authz)
            && self.server_selector.same(&other.server_selector)
    }

    fn dup(&self) -> (r: Self) {
        ServerAuthz {
            authz: self.authz.dup(),
            server_selector: self.server_selector.dup(),
        }
    }
}

} // verus!
