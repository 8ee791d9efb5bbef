//! What the metadata of a workload says about its ports.
use crate::authz::{AuthorizationRefModel, ClientAuthorizationModel};
use crate::cluster::{ClusterInfo, ClusterInfoModel, DefaultPolicy, InvalidPolicy};
use crate::inbound::{
    InboundServer, InboundServerModel, ProxyProtocol, ServerRef, ServerRefModel,
};
use crate::labels::Labels;
use crate::ports::{parse_portset, portset_of, PortSet};
use crate::table::NameTable;
use crate::value::{Text, Value};
use vstd::prelude::*;

verus! {

/// The annotations of a resource.
pub type Annotations = NameTable<String>;

/// The metadata of a resource, as far as it matters here.
#[derive(Debug)]
pub struct ObjectMeta {
    /// The annotations, if any are given.
    pub annotations: Option<Annotations>,
    /// The labels, if any are given.
    pub labels: Option<Labels>,
}

/// What an [`ObjectMeta`] means.
#[verifier::ext_equal]
pub struct ObjectMetaModel {
    pub annotations: Option<Map<Text, Text>>,
    pub labels: Option<Map<Text, Text>>,
}

impl DeepView for ObjectMeta {
    type V = ObjectMetaModel;

    open spec fn deep_view(&self) -> ObjectMetaModel {
        ObjectMetaModel {
            annotations: self.annotations.deep_view(),
            labels: self.labels.deep_view(),
        }
    }
}

/// The settings of a workload, derived from its annotations.
#[derive(Debug)]
pub struct Settings {
    /// The ports whose clients must be authenticated even where no `Server`
    /// selects them.
    pub require_id_ports: PortSet,
    /// The ports on which no protocol is detected.
    pub opaque_ports: PortSet,
    /// What applies to a port that no `Server` selects, in the place of the
    /// policy of the cluster.
    pub default_policy: Option<DefaultPolicy>,
}

/// What a [`Settings`] means.
#[verifier::ext_equal]
pub struct SettingsModel {
    pub require_id_ports: Set<u16>,
    pub opaque_ports: Set<u16>,
    pub default_policy: Option<DefaultPolicy>,
}

impl DeepView for Settings {
    type V = SettingsModel;

    open spec fn deep_view(&self) -> SettingsModel {
        SettingsModel {
            require_id_ports: self.require_id_ports.deep_view(),
            opaque_ports: self.opaque_ports.deep_view(),
            default_policy: self.default_policy,
        }
    }
}

impl Value for Settings {
    fn same(&self, other: &Self) -> (r: bool) {
        assert(self.default_policy.deep_view() == self.default_policy);
        assert(other.default_policy.deep_view() == other.default_policy);
        self.require_id_ports.same(&other.require_id_ports) && self.opaque_ports.same(
            &other.opaque_ports,
        ) && self.default_policy.same(&other.default_policy)
    }

    fn dup(&self) -> (r: Self) {
        Settings {
            require_id_ports: self.require_id_ports.dup(),
            opaque_ports: self.opaque_ports.dup(),
            default_policy: self.default_policy,
        }
    }
}

/// What an annotation says of the default policy: nothing if it is not set, and
/// an error if it names no policy.
pub open spec fn annotated_policy(annotations: Map<Text, Text>) -> Result<
    Option<DefaultPolicy>,
    InvalidPolicy,
> {
    let key = "config.linkerd.io/default-inbound-policy"@;
    if !annotations.contains_key(key) {
        Ok(None)
    } else {
        match DefaultPolicy::named(annotations[key]) {
            Some(policy) => Ok(Some(policy)),
            None => Err(InvalidPolicy),
        }
    }
}

/// The ports that an annotation lists: none if it is not set or not well
/// formed.
pub open spec fn annotated_ports(annotations: Map<Text, Text>, annotation: Text) -> Set<u16> {
    if annotations.contains_key(annotation) {
        match portset_of(annotations[annotation]) {
            Some(ports) => ports,
            None => Set::empty(),
        }
    } else {
        Set::empty()
    }
}

impl SettingsModel {
    /// The settings of a workload whose annotations say nothing.
    pub open spec fn unset() -> SettingsModel {
        SettingsModel {
            require_id_ports: Set::empty(),
            opaque_ports: Set::empty(),
            default_policy: None,
        }
    }

    /// The settings that annotations stand for. What is not well formed counts
    /// as not set.
    pub open spec fn annotated(annotations: Option<Map<Text, Text>>) -> SettingsModel {
        match annotations {
            None => SettingsModel::unset(),
            Some(anns) => SettingsModel {
                require_id_ports: annotated_ports(
                    anns,
                    "config.linkerd.io/proxy-require-identity-inbound-ports"@,
                ),
                opaque_ports: annotated_ports(anns, "config.linkerd.io/opaque-ports"@),
                default_policy: match annotated_policy(anns) {
                    Ok(policy) => policy,
                    Err(_) => None,
                },
            },
        }
    }
}

impl SettingsModel {
    /// The policy of a port that nothing else configures: that of the settings
    /// or else of the cluster, asking for authentication if the settings do.
    pub open spec fn policy_for(self, port: u16, cluster: ClusterInfoModel) -> DefaultPolicy {
        let policy = match self.default_policy {
            Some(policy) => policy,
            None => cluster.default_policy,
        };
        if self.require_id_ports.contains(port) {
            policy.requiring_identity()
        } else {
            policy
        }
    }

    /// The configuration of a port that nothing else configures.
    pub open spec fn default_server(
        self,
        reference: ServerRefModel,
        port: u16,
        probe_paths: Seq<Text>,
        cluster: ClusterInfoModel,
    ) -> InboundServerModel {
        InboundServerModel {
            reference,
            protocol: if self.opaque_ports.contains(port) {
                ProxyProtocol::Opaque
            } else {
                ProxyProtocol::Detect { timeout: cluster.default_detect_timeout }
            },
            authorizations: self.policy_for(port, cluster).authzs(cluster.networks),
            http_routes: cluster.default_routes(probe_paths),
        }
    }
}

impl SettingsModel {
    /// A port that requires identity lets no client in without it, whatever the
    /// default policy is.
    pub proof fn required_identity_is_asked_for(
        self,
        reference: ServerRefModel,
        port: u16,
        probe_paths: Seq<Text>,
        cluster: ClusterInfoModel,
        authz: AuthorizationRefModel,
    )
        requires
            self.require_id_ports.contains(port),
            self.default_server(reference, port, probe_paths, cluster).authorizations.contains_key(
                authz,
            ),
        ensures
            self.default_server(
                reference,
                port,
                probe_paths,
                cluster,
            ).authorizations[authz].authentication is TlsAuthenticated,
    {
    }

    /// A port under a policy that denies lets no client in.
    pub proof fn denied_is_not_authorized(
        self,
        reference: ServerRefModel,
        port: u16,
        probe_paths: Seq<Text>,
        cluster: ClusterInfoModel,
    )
        requires
            self.default_policy == Some(DefaultPolicy::Deny) || (self.default_policy is None
                && cluster.default_policy == DefaultPolicy::Deny),
        ensures
            self.default_server(reference, port, probe_paths, cluster).authorizations
                == Map::<AuthorizationRefModel, ClientAuthorizationModel>::empty(),
    {
    }
}

impl Settings {
    /// The policy of a port that nothing else configures.
    pub fn policy_for(&self, port: u16, config: &ClusterInfo) -> (r: DefaultPolicy)
        ensures
            r == self.deep_view().policy_for(port, config.deep_view()),
    {
        let policy = match self.default_policy {
            Some(policy) => policy,
            None => config.default_policy,
        };
        if self.require_id_ports.contains(port) {
            policy.require_identity()
        } else {
            policy
        }
    }

    /// The configuration of a port that nothing else configures.
    pub fn default_server(
        &self,
        reference: ServerRef,
        port: u16,
        probe_paths: &Vec<String>,
        config: &ClusterInfo,
    ) -> (r: InboundServer)
        ensures
            r.deep_view() == self.deep_view().default_server(
                reference.deep_view(),
                port,
                probe_paths.deep_view(),
                config.deep_view(),
            ),
    {
        let protocol = if self.opaque_ports.contains(port) {
            ProxyProtocol::Opaque
        } else {
            ProxyProtocol::Detect { timeout: config.default_detect_timeout }
        };
        InboundServer {
            reference,
            protocol,
            authorizations: self.policy_for(port, config).default_authzs(config),
            http_routes: config.default_inbound_http_routes(probe_paths),
        }
    }
}

impl Default for Settings {
    /// The settings of a workload whose annotations say nothing.
    fn default() -> (r: Self)
        ensures
            r.deep_view() == SettingsModel::unset(),
    {
        Settings {
            require_id_ports: PortSet::new(),
            opaque_ports: PortSet::new(),
            default_policy: None,
        }
    }
}

impl Settings {
    /// The settings that the annotations of a workload stand for.
    pub fn from_metadata(meta: &ObjectMeta) -> (r: Self)
        ensures
            r.deep_view() == SettingsModel::annotated(meta.deep_view().annotations),
    {
        let anns = match &meta.annotations {
            None => return Settings::default(),
            Some(anns) => anns,
        };
        let default_policy = match Settings::default_policy(anns) {
            Ok(policy) => policy,
            Err(_) => None,
        };
        let opaque_ports = match Settings::ports_annotation(
            anns,
            "config.linkerd.io/opaque-ports",
        ) {
            Some(ports) => ports,
            None => PortSet::new(),
        };
        let require_id_ports = match Settings::ports_annotation(
            anns,
            "config.linkerd.io/proxy-require-identity-inbound-ports",
        ) {
            Some(ports) => ports,
            None => PortSet::new(),
        };
        Settings { require_id_ports, opaque_ports, default_policy }
    }

    /// Attempts to read a default policy override from annotations.
    pub fn default_policy(ann: &Annotations) -> (r: Result<Option<DefaultPolicy>, InvalidPolicy>)
        ensures
            r == annotated_policy(ann.deep_view()),
    {
        if let Some(v) = ann.get(&"config.linkerd.io/default-inbound-policy".to_string()) {
            return match DefaultPolicy::parse(v.as_str()) {
                Ok(mode) => Ok(Some(mode)),
                Err(error) => Err(error),
            };
        }
        Ok(None)
    }

    /// Reads an annotation as a port set. If the annotation is not set or is
    /// invalid, the empty set is returned.
    pub fn ports_annotation(annotations: &Annotations, annotation: &str) -> (r: Option<PortSet>)
        ensures
            r is Some,
            r->0.deep_view() == annotated_ports(annotations.deep_view(), annotation@),
    {
        match annotations.get(&annotation.to_string()) {
            Some(spec) => match parse_portset(spec.as_str()) {
                Ok(ports) => Some(ports),
                Err(_) => Some(PortSet::new()),
            },
            None => Some(PortSet::new()),
        }
    }
}

/// What is known of a workload from its metadata.
#[derive(Debug)]
pub struct Meta {
    /// The labels of the workload, by which `Server`s select it.
    pub labels: Labels,
    /// The settings of the workload.
    pub settings: Settings,
}

/// What a [`Meta`] means.
#[verifier::ext_equal]
pub struct MetaModel {
    pub labels: Map<Text, Text>,
    pub settings: SettingsModel,
}

impl DeepView for Meta {
    type V = MetaModel;

    open spec fn deep_view(&self) -> MetaModel {
        MetaModel { labels: self.labels.deep_view(), settings: self.settings.deep_view() }
    }
}

impl Value for Meta {
    fn same(&self, other: &Self) -> (r: bool) {
        self.labels.same(&other.labels) && self.settings.same(&other.settings)
    }

    fn dup(&self) -> (r: Self) {
        Meta { labels: self.labels.dup(), settings: self.settings.dup() }
    }
}

impl MetaModel {
    /// What metadata says of a workload.
    pub open spec fn from_metadata(meta: ObjectMetaModel) -> MetaModel {
        MetaModel {
            labels: match meta.labels {
                Some(labels) => labels,
                None => Map::empty(),
            },
            settings: SettingsModel::annotated(meta.annotations),
        }
    }
}

impl Meta {
    /// What metadata says of a workload.
    pub fn from_metadata(meta: ObjectMeta) -> (r: Self)
        ensures
            r.deep_view() == MetaModel::from_metadata(meta.deep_view()),
    {
        let settings = Settings::from_metadata(&meta);
        let labels = match meta.labels {
            Some(labels) => labels,
            None => NameTable::new(),
        };
        Meta { labels, settings }
    }
}

} // verus!
