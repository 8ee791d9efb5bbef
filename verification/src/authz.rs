//! Who may talk to a server: networks, identities and authorizations.
use crate::slots::{Code, CodeModel, Coded};
use crate::value::{Text, Value};
use vstd::prelude::*;

verus! {

/// A block of addresses: those that agree with `addr` in their first `prefix`
/// bits.
#[derive(Clone, Copy, Debug, PartialEq, Eq, Structural)]
#[allow(inconsistent_fields)]
pub enum IpNet {
    /// A block of IPv4 addresses.
    V4 { addr: u32, prefix: u8 },
    /// A block of IPv6 addresses.
    V6 { addr: u128, prefix: u8 },
}

impl DeepView for IpNet {
    type V = IpNet;

    open spec fn deep_view(&self) -> IpNet {
        *self
    }
}

impl Value for IpNet {
    fn same(&self, other: &Self) -> (r: bool) {
        *self == *other
    }

    fn dup(&self) -> (r: Self) {
        *self
    }
}

impl IpNet {
    /// The block of all IPv4 addresses.
    pub open spec fn all_v4() -> IpNet {
        IpNet::V4 { addr: 0, prefix: 0 }
    }

    /// The block of all IPv6 addresses.
    pub open spec fn all_v6() -> IpNet {
        IpNet::V6 { addr: 0, prefix: 0 }
    }
}

/// The addresses of a network, but for some exceptions.
#[derive(Debug)]
pub struct NetworkMatch {
    /// The network.
    pub net: IpNet,
    /// The networks left out of it.
    pub except: Vec<IpNet>,
}

/// What a [`NetworkMatch`] means.
#[verifier::ext_equal]
pub struct NetworkMatchModel {
    pub net: IpNet,
    pub except: Seq<IpNet>,
}

impl DeepView for NetworkMatch {
    type V = NetworkMatchModel;

    open spec fn deep_view(&self) -> NetworkMatchModel {
        NetworkMatchModel {
            net: self.net.deep_view(),
            except: self.except.deep_view(),
        }
    }
}

impl Value for NetworkMatch {
    fn same(&self, other: &Self) -> (r: bool) {
        self.net.same(&other.net)
            && self.except.same(&other.except)
    }

    fn dup(&self) -> (r: Self) {
        NetworkMatch {
            net: self.net.dup(),
            except: self.except.dup(),
        }
    }
}

/// A whole network, without exceptions.
pub open spec fn whole_network(net: IpNet) -> NetworkMatchModel {
    NetworkMatchModel { net, except: Seq::empty() }
}

/// Every address there is.
pub open spec fn all_networks() -> Seq<NetworkMatchModel> {
    seq![whole_network(IpNet::all_v4()), whole_network(IpNet::all_v6())]
}

impl NetworkMatch {
    /// A whole network, without exceptions.
    pub fn whole(net: IpNet) -> (r: Self)
        ensures
            r.deep_view() == whole_network(net),
    {
        let r = NetworkMatch { net, except: Vec::new() };
        assert(r.except.deep_view() =~= Seq::<IpNet>::empty());
        r
    }

    /// Every address there is.
    pub fn all() -> (r: Vec<NetworkMatch>)
        ensures
            r.deep_view() == all_networks(),
    {
        let r = vec![
            NetworkMatch::whole(IpNet::V4 { addr: 0, prefix: 0 }),
            NetworkMatch::whole(IpNet::V6 { addr: 0, prefix: 0 }),
        ];
        assert(r.deep_view() =~= all_networks());
        r
    }

    /// Whole networks, in the order given.
    pub fn each_whole(nets: &Vec<IpNet>) -> (r: Vec<NetworkMatch>)
        ensures
            r.deep_view() == nets@.map_values(|net: IpNet| whole_network(net)),
    {
        let mut r: Vec<NetworkMatch> = Vec::new();
        let mut i: usize = 0;
        while i < nets.len()
            invariant
                i <= nets.len(),
                r.len() == i,
                forall|j: int|
                    0 <= j < i ==> (#[trigger] r@[j]).deep_view() == whole_network(nets@[j]),
            decreases nets.len() - i,
        {
            r.push(NetworkMatch::whole(nets[i]));
            i = i + 1;
        }
        assert(r.deep_view() =~= nets@.map_values(|net: IpNet| whole_network(net)));
        r
    }
}

/// The identities that a client may have.
#[derive(Debug)]
pub enum IdentityMatch {
    /// One identity.
    Exact(String),
    /// Every identity that ends in these labels.
    Suffix(Vec<String>),
}

/// What an [`IdentityMatch`] means.
#[verifier::ext_equal]
pub enum IdentityMatchModel {
    Exact(Text),
    Suffix(Seq<Text>),
}

impl DeepView for IdentityMatch {
    type V = IdentityMatchModel;

    open spec fn deep_view(&self) -> IdentityMatchModel {
        match self {
            IdentityMatch::Exact(name) => IdentityMatchModel::Exact(name.deep_view()),
            IdentityMatch::Suffix(labels) => IdentityMatchModel::Suffix(labels.deep_view()),
        }
    }
}

impl Value for IdentityMatch {
    fn same(&self, other: &Self) -> (r: bool) {
        match (self, other) {
            (IdentityMatch::Exact(name), IdentityMatch::Exact(name2)) => name.same(name2),
            (IdentityMatch::Suffix(labels), IdentityMatch::Suffix(labels2)) => labels.same(labels2),
            _ => false,
        }
    }

    fn dup(&self) -> (r: Self) {
        match self {
            IdentityMatch::Exact(name) => IdentityMatch::Exact(name.dup()),
            IdentityMatch::Suffix(labels) => IdentityMatch::Suffix(labels.dup()),
        }
    }
}

/// How a client must be authenticated.
#[derive(Debug)]
pub enum ClientAuthentication {
    /// No authentication is needed.
    Unauthenticated,
    /// TLS is needed, but no client identity.
    TlsUnauthenticated,
    /// TLS is needed, with one of these identities.
    TlsAuthenticated(Vec<IdentityMatch>),
}

/// What a [`ClientAuthentication`] means.
#[verifier::ext_equal]
pub enum ClientAuthenticationModel {
    Unauthenticated,
    TlsUnauthenticated,
    TlsAuthenticated(Seq<IdentityMatchModel>),
}

impl DeepView for ClientAuthentication {
    type V = ClientAuthenticationModel;

    open spec fn deep_view(&self) -> ClientAuthenticationModel {
        match self {
            ClientAuthentication::Unauthenticated => ClientAuthenticationModel::Unauthenticated,
            ClientAuthentication::TlsUnauthenticated => {
                ClientAuthenticationModel::TlsUnauthenticated
            },
            ClientAuthentication::TlsAuthenticated(ids) => {
                ClientAuthenticationModel::TlsAuthenticated(ids.deep_view())
            },
        }
    }
}

impl Value for ClientAuthentication {
    fn same(&self, other: &Self) -> (r: bool) {
        match (self, other) {
            (ClientAuthentication::Unauthenticated, ClientAuthentication::Unauthenticated) => true,
            (
                ClientAuthentication::TlsUnauthenticated,
                ClientAuthentication::TlsUnauthenticated,
            ) => true,
            (
                ClientAuthentication::TlsAuthenticated(ids),
                ClientAuthentication::TlsAuthenticated(ids2),
            ) => ids.same(ids2),
            _ => false,
        }
    }

    fn dup(&self) -> (r: Self) {
        match self {
            ClientAuthentication::Unauthenticated => ClientAuthentication::Unauthenticated,
            ClientAuthentication::TlsUnauthenticated => ClientAuthentication::TlsUnauthenticated,
            ClientAuthentication::TlsAuthenticated(ids) => {
                ClientAuthentication::TlsAuthenticated(ids.dup())
            },
        }
    }
}

/// The clients that an authorization lets in.
#[derive(Debug)]
pub struct ClientAuthorization {
    /// The networks from which they may connect.
    pub networks: Vec<NetworkMatch>,
    /// How they must be authenticated.
    pub authentication: ClientAuthentication,
}

/// What a [`ClientAuthorization`] means.
#[verifier::ext_equal]
pub struct ClientAuthorizationModel {
    pub networks: Seq<NetworkMatchModel>,
    pub authentication: ClientAuthenticationModel,
}

impl DeepView for ClientAuthorization {
    type V = ClientAuthorizationModel;

    open spec fn deep_view(&self) -> ClientAuthorizationModel {
        ClientAuthorizationModel {
            networks: self.networks.deep_view(),
            authentication: self.authentication.deep_view(),
        }
    }
}

impl Value for ClientAuthorization {
    fn same(&self, other: &Self) -> (r: bool) {
        self.networks.same(&other.networks)
            && self.authentication.same(&other.authentication)
    }

    fn dup(&self) -> (r: Self) {
        ClientAuthorization {
            networks: self.networks.dup(),
            authentication: self.authentication.dup(),
        }
    }
}

/// What an authorization comes from.
#[derive(Debug)]
pub enum AuthorizationRef {
    /// A built-in default.
    Default(String),
    /// A `ServerAuthorization` of the namespace.
    ServerAuthorization(String),
    /// An `AuthorizationPolicy` of the namespace.
    AuthorizationPolicy(String),
}

/// What an [`AuthorizationRef`] means.
#[verifier::ext_equal]
pub enum AuthorizationRefModel {
    Default(Text),
    ServerAuthorization(Text),
    AuthorizationPolicy(Text),
}

impl DeepView for AuthorizationRef {
    type V = AuthorizationRefModel;

    open spec fn deep_view(&self) -> AuthorizationRefModel {
        match self {
            AuthorizationRef::Default(name) => AuthorizationRefModel::Default(name.deep_view()),
            AuthorizationRef::ServerAuthorization(name) => {
                AuthorizationRefModel::ServerAuthorization(name.deep_view())
            },
            AuthorizationRef::AuthorizationPolicy(name) => {
                AuthorizationRefModel::AuthorizationPolicy(name.deep_view())
            },
        }
    }
}

impl Value for AuthorizationRef {
    fn same(&self, other: &Self) -> (r: bool) {
        match (self, other) {
            (AuthorizationRef::Default(name), AuthorizationRef::Default(name2)) => name.same(name2),
            (
                AuthorizationRef::ServerAuthorization(name),
                AuthorizationRef::ServerAuthorization(name2),
            ) => name.same(name2),
            (
                AuthorizationRef::AuthorizationPolicy(name),
                AuthorizationRef::AuthorizationPolicy(name2),
            ) => name.same(name2),
            _ => false,
        }
    }

    fn dup(&self) -> (r: Self) {
        match self {
            AuthorizationRef::Default(name) => AuthorizationRef::Default(name.dup()),
            AuthorizationRef::ServerAuthorization(name) => {
                AuthorizationRef::ServerAuthorization(name.dup())
            },
            AuthorizationRef::AuthorizationPolicy(name) => {
                AuthorizationRef::AuthorizationPolicy(name.dup())
            },
        }
    }
}

impl Coded for AuthorizationRef {
    open spec fn code_of(m: AuthorizationRefModel) -> CodeModel {
        match m {
            AuthorizationRefModel::Default(name) => (0, Seq::empty(), Seq::empty(), name),
            AuthorizationRefModel::ServerAuthorization(name) => {
                (1, Seq::empty(), Seq::empty(), name)
            },
            AuthorizationRefModel::AuthorizationPolicy(name) => {
                (2, Seq::empty(), Seq::empty(), name)
            },
        }
    }

    proof fn code_is_injective(a: AuthorizationRefModel, b: AuthorizationRefModel) {
    }

    fn code(&self) -> (r: Code) {
        match self {
            AuthorizationRef::Default(name) => (0, String::new(), String::new(), name.clone()),
            AuthorizationRef::ServerAuthorization(name) => {
                (1, String::new(), String::new(), name.clone())
            },
            AuthorizationRef::AuthorizationPolicy(name) => {
                (2, String::new(), String::new(), name.clone())
            },
        }
    }
}

} // verus!
