//! `AuthorizationPolicy`s: which authentications a target asks for.
use crate::route::{GroupKindName, GroupKindNameModel};
use crate::value::{Text, Value};
use vstd::prelude::*;

verus! {

/// What an `AuthorizationPolicy` applies to.
#[derive(Debug)]
pub enum Target {
    /// A route of the namespace.
    HttpRoute(GroupKindName),
    /// A `Server` of the namespace.
    Server(String),
    /// Every server of the namespace.
    Namespace,
    /// A port of an external group of the namespace; none if the policy does not
    /// name a valid one.
    ExternalGroup((String, Option<u16>)),
}

/// What a [`Target`] means.
#[verifier::ext_equal]
pub enum TargetModel {
    HttpRoute(GroupKindNameModel),
    Server(Text),
    Namespace,
    ExternalGroup((Text, Option<u16>)),
}

impl DeepView for Target {
    type V = TargetModel;

    open spec fn deep_view(&self) -> TargetModel {
        match self {
            Target::HttpRoute(gkn) => TargetModel::HttpRoute(gkn.deep_view()),
            Target::Server(name) => TargetModel::Server(name.deep_view()),
            Target::Namespace => TargetModel::Namespace,
            Target::ExternalGroup(group) => TargetModel::ExternalGroup(group.deep_view()),
        }
    }
}

impl Value for Target {
    fn same(&self, other: &Self) -> (r: bool) {
        match (self, other) {
            (Target::HttpRoute(gkn), Target::HttpRoute(gkn2)) => gkn.same(gkn2),
            (Target::Server(name), Target::Server(name2)) => name.same(name2),
            (Target::Namespace, Target::Namespace) => true,
            (Target::ExternalGroup(group), Target::ExternalGroup(group2)) => group.same(group2),
            _ => false,
        }
    }

    fn dup(&self) -> (r: Self) {
        match self {
            Target::HttpRoute(gkn) => Target::HttpRoute(gkn.dup()),
            Target::Server(name) => Target::Server(name.dup()),
            Target::Namespace => Target::Namespace,
            Target::ExternalGroup(group) => Target::ExternalGroup(group.dup()),
        }
    }
}

/// What an authorization is looked for.
#[derive(Debug)]
pub enum Subject {
    /// The `Server` of this name.
    Server(String),
    /// A port of the external group of this name.
    Workload(String, u16),
    /// The route of this name.
    Route(GroupKindName),
}

/// What a [`Subject`] means.
#[verifier::ext_equal]
pub enum SubjectModel {
    Server(Text),
    Workload(Text, u16),
    Route(GroupKindNameModel),
}

impl DeepView for Subject {
    type V = SubjectModel;

    open spec fn deep_view(&self) -> SubjectModel {
        match self {
            Subject::Server(name) => SubjectModel::Server(name@),
            Subject::Workload(name, port) => SubjectModel::Workload(name@, *port),
            Subject::Route(gkn) => SubjectModel::Route(gkn.deep_view()),
        }
    }
}

impl TargetModel {
    /// Whether a policy with this target applies to a subject. One that targets
    /// the namespace applies to its servers and workloads, but not to routes.
    pub open spec fn applies_to(self, subject: SubjectModel) -> bool {
        match (self, subject) {
            (TargetModel::Server(target), SubjectModel::Server(name)) => target == name,
            (TargetModel::ExternalGroup(group), SubjectModel::Workload(name, port)) => {
                group.0 == name && group.1 == Some(port)
            },
            (TargetModel::HttpRoute(target), SubjectModel::Route(gkn)) => target.matches(gkn),
            (TargetModel::Namespace, SubjectModel::Route(_)) => false,
            (TargetModel::Namespace, _) => true,
            _ => false,
        }
    }
}

impl Target {
    /// Whether a policy with this target applies to a subject.
    pub fn applies_to(&self, subject: &Subject) -> (r: bool)
        ensures
            r == self.deep_view().applies_to(subject.deep_view()),
    {
        match (self, subject) {
            (Target::Server(target), Subject::Server(name)) => *target == *name,
            (Target::ExternalGroup(group), Subject::Workload(name, port)) => match group.1 {
                Some(target_port) => group.0 == *name && target_port == *port,
                None => false,
            },
            (Target::HttpRoute(target), Subject::Route(gkn)) => target.eq_ignore_ascii_case(gkn),
            (Target::Namespace, Subject::Route(_)) => false,
            (Target::Namespace, _) => true,
            _ => false,
        }
    }
}

/// An authentication that an `AuthorizationPolicy` asks for. The namespace is that
/// of the policy where none is given.
#[derive(Debug)]
pub enum AuthenticationTarget {
    /// One of the identities of a `MeshTLSAuthentication`.
    MeshTLS { namespace: Option<String>, name: String },
    /// One of the networks of a `NetworkAuthentication`.
    Network { namespace: Option<String>, name: String },
    /// The identity of a service account.
    ServiceAccount { namespace: Option<String>, name: String },
}

/// What an [`AuthenticationTarget`] means.
#[verifier::ext_equal]
pub enum AuthenticationTargetModel {
    MeshTLS { namespace: Option<Text>, name: Text },
    Network { namespace: Option<Text>, name: Text },
    ServiceAccount { namespace: Option<Text>, name: Text },
}

impl DeepView for AuthenticationTarget {
    type V = AuthenticationTargetModel;

    open spec fn deep_view(&self) -> AuthenticationTargetModel {
        match self {
            AuthenticationTarget::MeshTLS { namespace, name } => {
                AuthenticationTargetModel::MeshTLS {
                    namespace: namespace.deep_view(),
                    name: name.deep_view(),
                }
            },
            AuthenticationTarget::Network { namespace, name } => {
                AuthenticationTargetModel::Network {
                    namespace: namespace.deep_view(),
                    name: name.deep_view(),
                }
            },
            AuthenticationTarget::ServiceAccount { namespace, name } => {
                AuthenticationTargetModel::ServiceAccount {
                    namespace: namespace.deep_view(),
                    name: name.deep_view(),
                }
            },
        }
    }
}

impl Value for AuthenticationTarget {
    fn same(&self, other: &Self) -> (r: bool) {
        match (self, other) {
            (
                AuthenticationTarget::MeshTLS { namespace, name },
                AuthenticationTarget::MeshTLS { namespace: namespace2, name: name2 },
            ) => namespace.same(namespace2) && name.same(name2),
            (
                AuthenticationTarget::Network { namespace, name },
                AuthenticationTarget::Network { namespace: namespace2, name: name2 },
            ) => namespace.same(namespace2) && name.same(name2),
            (
                AuthenticationTarget::ServiceAccount { namespace, name },
                AuthenticationTarget::ServiceAccount { namespace: namespace2, name: name2 },
            ) => namespace.same(namespace2) && name.same(name2),
            _ => false,
        }
    }

    fn dup(&self) -> (r: Self) {
        match self {
            AuthenticationTarget::MeshTLS { namespace, name } => {
                AuthenticationTarget::MeshTLS { namespace: namespace.dup(), name: name.dup() }
            },
            AuthenticationTarget::Network { namespace, name } => {
                AuthenticationTarget::Network { namespace: namespace.dup(), name: name.dup() }
            },
            AuthenticationTarget::ServiceAccount { namespace, name } => {
                AuthenticationTarget::ServiceAccount {
                    namespace: namespace.dup(),
                    name: name.dup(),
                }
            },
        }
    }
}

/// An `AuthorizationPolicy`.
#[derive(Debug)]
pub struct Spec {
    /// What it applies to.
    pub target: Target,
    /// The authentications that it asks for, all of them.
    pub authentications: Vec<AuthenticationTarget>,
}

/// What a [`Spec`] means.
#[verifier::ext_equal]
pub struct SpecModel {
    pub target: TargetModel,
    pub authentications: Seq<AuthenticationTargetModel>,
}

impl DeepView for Spec {
    type V = SpecModel;

    open spec fn deep_view(&self) -> SpecModel {
        SpecModel {
            target: self.target.deep_view(),
            authentications: self.authentications.deep_view(),
        }
    }
}

impl Value for Spec {
    fn same(&self, other: &Self) -> (r: bool) {
        self.target.same(&other.target)
            && self.authentications.same(&other.authentications)
    }

    fn dup(&self) -> (r: Self) {
        Spec {
            target: self.target.dup(),
            authentications: self.authentications.dup(),
        }
    }
}

} // verus!
