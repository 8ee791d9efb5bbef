//! What applies to a port that nothing else configures.
use crate::authz::{
    AuthorizationRefModel, ClientAuthenticationModel, ClientAuthorizationModel, IdentityMatchModel,
    IpNet, NetworkMatchModel,
};
use crate::cluster::{ClusterInfoModel, DefaultPolicy};
use crate::external::ExternalGroupModel;
use crate::inbound::{ProxyProtocol, ServerRefModel};
use crate::meta::{
    annotated_policy, annotated_ports, MetaModel, ObjectMetaModel, SettingsModel,
};
use crate::pod::PodModel;
use crate::ports::portset_of;
use crate::value::Text;
use vstd::prelude::*;

verus! {

/// The name of a default policy says whom it lets in: nobody, or else clients from
/// everywhere or from the cluster, with or without authentication.
pub proof fn default_policy_is_named_after_its_clients(authenticated: bool, cluster: bool)
    ensures
        ({
            let policy = DefaultPolicy::Allow {
                authenticated_only: authenticated,
                cluster_only: cluster,
            };
            let from = if cluster {
                "cluster-"@
            } else {
                "all-"@
            };
            let how = if authenticated {
                "authenticated"@
            } else {
                "unauthenticated"@
            };
            &&& policy.name() == from + how
            &&& DefaultPolicy::named(from + how) == Some(policy)
            &&& DefaultPolicy::Deny.name() == "deny"@
            &&& DefaultPolicy::named("deny"@) == Some(DefaultPolicy::Deny)
        }),
{
    reveal_strlit("cluster-");
    reveal_strlit("all-");
    reveal_strlit("authenticated");
    reveal_strlit("unauthenticated");
    reveal_strlit("all-authenticated");
    reveal_strlit("all-unauthenticated");
    reveal_strlit("cluster-authenticated");
    reveal_strlit("cluster-unauthenticated");
    reveal_strlit("deny");
    assert("all-"@ + "authenticated"@ =~= "all-authenticated"@);
    assert("all-"@ + "unauthenticated"@ =~= "all-unauthenticated"@);
    assert("cluster-"@ + "authenticated"@ =~= "cluster-authenticated"@);
    assert("cluster-"@ + "unauthenticated"@ =~= "cluster-unauthenticated"@);
    let policy = DefaultPolicy::Allow { authenticated_only: authenticated, cluster_only: cluster };
    DefaultPolicy::name_round_trip(policy, Seq::empty());
    DefaultPolicy::name_round_trip(DefaultPolicy::Deny, Seq::empty());
}

/// A text that is no such name names no default policy.
pub proof fn no_other_name_is_a_default_policy(s: Text)
    ensures
        DefaultPolicy::named(s) is Some <==> exists|policy: DefaultPolicy|
            s == #[trigger] policy.name(),
{
    if DefaultPolicy::named(s) is Some {
        let policy = DefaultPolicy::named(s)->0;
        DefaultPolicy::name_round_trip(policy, s);
        assert(s == policy.name());
    }
    if exists|policy: DefaultPolicy| s == #[trigger] policy.name() {
        let policy = choose|policy: DefaultPolicy| s == #[trigger] policy.name();
        DefaultPolicy::name_round_trip(policy, s);
    }
}

/// A port that nothing else configures lets in the clients of the policy of its
/// workload or, where that has none, of the cluster: nobody where that denies; else,
/// under the name of the policy alone, clients from every address or from each
/// network of the cluster, and with any identity where the policy or the port asks
/// for one.
pub proof fn default_lets_in_the_clients_of_its_policy(
    settings: SettingsModel,
    reference: ServerRefModel,
    port: u16,
    probe_paths: Seq<Text>,
    cluster: ClusterInfoModel,
    authenticated_only: bool,
    cluster_only: bool,
    by: AuthorizationRefModel,
)
    requires
        ({
            let policy = DefaultPolicy::Allow { authenticated_only, cluster_only };
            settings.default_policy == Some(policy) || settings.default_policy is None
                && cluster.default_policy == policy
        }),
    ensures
        ({
            let server = settings.default_server(reference, port, probe_paths, cluster);
            let authenticated = authenticated_only || settings.require_id_ports.contains(port);
            let name = (DefaultPolicy::Allow {
                authenticated_only: authenticated,
                cluster_only,
            }).name();
            let authz = server.authorizations[by];
            &&& server.authorizations.contains_key(by) <==> by == AuthorizationRefModel::Default(
                name,
            )
            &&& server.authorizations.contains_key(by) ==> {
                &&& authz.authentication == if authenticated {
                    ClientAuthenticationModel::TlsAuthenticated(
                        seq![IdentityMatchModel::Suffix(Seq::empty())],
                    )
                } else {
                    ClientAuthenticationModel::Unauthenticated
                }
                &&& cluster_only ==> {
                    &&& authz.networks.len() == cluster.networks.len()
                    &&& forall|i: int|
                        0 <= i < cluster.networks.len() ==> #[trigger] authz.networks[i] == (
                        NetworkMatchModel { net: cluster.networks[i], except: Seq::empty() })
                }
                &&& !cluster_only ==> authz.networks == seq![
                    NetworkMatchModel {
                        net: IpNet::V4 { addr: 0, prefix: 0 },
                        except: Seq::empty(),
                    },
                    NetworkMatchModel {
                        net: IpNet::V6 { addr: 0, prefix: 0 },
                        except: Seq::empty(),
                    },
                ]
            }
        }),
{
}

/// A port whose policy denies lets in nobody, whether or not it asks for an
/// identity.
pub proof fn default_that_denies_lets_in_nobody(
    settings: SettingsModel,
    reference: ServerRefModel,
    port: u16,
    probe_paths: Seq<Text>,
    cluster: ClusterInfoModel,
)
    requires
        settings.default_policy == Some(DefaultPolicy::Deny) || settings.default_policy is None
            && cluster.default_policy == DefaultPolicy::Deny,
    ensures
        settings.default_server(reference, port, probe_paths, cluster).authorizations
            == Map::<AuthorizationRefModel, ClientAuthorizationModel>::empty(),
        settings.policy_for(port, cluster) == DefaultPolicy::Deny,
{
}

/// The policy of a port is that of its workload or else of the cluster; that its
/// clients are to be authenticated is all that a port can add to it.
pub proof fn port_adds_only_identity_to_its_policy(
    settings: SettingsModel,
    port: u16,
    cluster: ClusterInfoModel,
)
    ensures
        ({
            let base = if settings.default_policy is Some {
                settings.default_policy->0
            } else {
                cluster.default_policy
            };
            match (base, settings.policy_for(port, cluster)) {
                (
                    DefaultPolicy::Allow { authenticated_only: a, cluster_only: c },
                    DefaultPolicy::Allow { authenticated_only: a2, cluster_only: c2 },
                ) => c2 == c && a2 == (a || settings.require_id_ports.contains(port)),
                (DefaultPolicy::Deny, DefaultPolicy::Deny) => true,
                _ => false,
            }
        }),
{
}

/// On a port that nothing else configures no protocol is detected if the port is
/// opaque, and else one is, in the time that the cluster allows. It goes by the
/// reference given and offers the default routes.
pub proof fn default_detects_unless_opaque(
    settings: SettingsModel,
    reference: ServerRefModel,
    port: u16,
    probe_paths: Seq<Text>,
    cluster: ClusterInfoModel,
)
    ensures
        ({
            let server = settings.default_server(reference, port, probe_paths, cluster);
            &&& server.protocol == ProxyProtocol::Opaque <==> settings.opaque_ports.contains(port)
            &&& !settings.opaque_ports.contains(port) ==> server.protocol == (
            ProxyProtocol::Detect { timeout: cluster.default_detect_timeout })
            &&& server.reference == reference
            &&& server.http_routes == cluster.default_routes(probe_paths)
        }),
{
}

/// The default of a port of a pod follows the settings of the pod, goes by the name
/// of the policy and offers the probes that the pod expects on that port.
pub proof fn default_of_pod_follows_its_settings(
    pod: PodModel,
    port: u16,
    cluster: ClusterInfoModel,
)
    ensures
        ({
            let paths = if pod.probes.contains_key(port) {
                pod.probes[port]
            } else {
                Seq::empty()
            };
            pod.default_server(port, cluster) == pod.meta.settings.default_server(
                ServerRefModel::Default(pod.meta.settings.policy_for(port, cluster).name()),
                port,
                paths,
                cluster,
            )
        }),
{
}

/// The default of a port of an external group follows the settings of the group,
/// goes by the name of the policy and offers no probes.
pub proof fn default_of_group_follows_its_settings(
    group: ExternalGroupModel,
    port: u16,
    cluster: ClusterInfoModel,
)
    ensures
        group.default_server(port, cluster) == group.meta.settings.default_server(
            ServerRefModel::External(group.meta.settings.policy_for(port, cluster).name()),
            port,
            Seq::empty(),
            cluster,
        ),
{
}

/// The labels of a workload are those of its metadata, and it has none where none
/// are given.
pub proof fn labels_are_those_given(meta: ObjectMetaModel, key: Text)
    ensures
        ({
            let labels = MetaModel::from_metadata(meta).labels;
            &&& labels.contains_key(key) <==> meta.labels is Some && meta.labels->0.contains_key(
                key,
            )
            &&& labels.contains_key(key) ==> labels[key] == meta.labels->0[key]
        }),
{
}

/// A workload has a default policy of its own exactly if it is annotated with the
/// name of one.
pub proof fn default_policy_is_annotated(meta: ObjectMetaModel, policy: DefaultPolicy)
    ensures
        MetaModel::from_metadata(meta).settings.default_policy == Some(policy) <==> meta.annotations
            is Some && meta.annotations->0.contains_pair(
            "config.linkerd.io/default-inbound-policy"@,
            policy.name(),
        ),
{
    if meta.annotations is Some {
        let annotations = meta.annotations->0;
        let key = "config.linkerd.io/default-inbound-policy"@;
        if annotations.contains_key(key) {
            DefaultPolicy::name_round_trip(policy, annotations[key]);
        }
    }
}

/// A port of a workload is opaque, or asks for an identity, exactly if the
/// annotation for that is a well formed list that has the port.
pub proof fn ports_are_annotated(meta: ObjectMetaModel, port: u16)
    ensures
        ({
            let settings = MetaModel::from_metadata(meta).settings;
            let listed = |key: Text|
                {
                    &&& meta.annotations is Some
                    &&& meta.annotations->0.contains_key(key)
                    &&& portset_of(meta.annotations->0[key]) is Some
                    &&& portset_of(meta.annotations->0[key])->0.contains(port)
                };
            &&& settings.opaque_ports.contains(port) <==> listed("config.linkerd.io/opaque-ports"@)
            &&& settings.require_id_ports.contains(port) <==> listed(
                "config.linkerd.io/proxy-require-identity-inbound-ports"@,
            )
        }),
{
}

/// What the annotations of a workload say of its default policy: nothing exactly if
/// there is no such annotation, a policy exactly if it is named, and else an error.
pub proof fn annotation_names_a_policy_or_fails(annotations: Map<Text, Text>)
    ensures
        ({
            let key = "config.linkerd.io/default-inbound-policy"@;
            match annotated_policy(annotations) {
                Ok(None) => !annotations.contains_key(key),
                Ok(Some(policy)) => annotations.contains_pair(key, policy.name()),
                Err(_) => annotations.contains_key(key) && forall|policy: DefaultPolicy|
                    annotations[key] != #[trigger] policy.name(),
            }
        }),
{
    let key = "config.linkerd.io/default-inbound-policy"@;
    if annotations.contains_key(key) {
        let s = annotations[key];
        if DefaultPolicy::named(s) is Some {
            DefaultPolicy::name_round_trip(DefaultPolicy::named(s)->0, s);
        }
        no_other_name_is_a_default_policy(s);
    }
}

/// An annotation lists a port exactly if it is there and is a well formed list that has
/// the port.
pub proof fn annotation_lists_its_ports(annotations: Map<Text, Text>, key: Text, port: u16)
    ensures
        annotated_ports(annotations, key).contains(port) <==> {
            &&& annotations.contains_key(key)
            &&& portset_of(annotations[key]) is Some
            &&& portset_of(annotations[key])->0.contains(port)
        },
{
}

} // verus!
