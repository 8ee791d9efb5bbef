//! External groups of workloads and the servers of their ports.
use crate::authentications::{AuthenticationNsIndex, AuthenticationsModel};
use crate::cluster::{ClusterInfo, ClusterInfoModel};
use crate::inbound::{
    InboundServer, InboundServerModel, ProxyProtocol, ServerRef, ServerRefModel,
};
use crate::meta::{Meta, MetaModel, Settings};
use crate::policy::{PolicyIndex, PolicyModel};
use crate::ports::PortSet;
use crate::table::{lists, take_one_more, NameTable, PortTable};
use crate::value::{Text, Value};
use crate::watching::{
    assigned, closed_ends, defaulted, PortEnd, PortServer, PortServerModel, PortServers,
};
use vstd::prelude::*;

verus! {

/// An external group of workloads, with the servers of all its known ports.
#[derive(Debug)]
pub struct ExternalGroup {
    meta: Meta,
    ports: Vec<u16>,
    port_servers: PortServers,
}

/// What an [`ExternalGroup`] means.
#[verifier::ext_equal]
pub struct ExternalGroupModel {
    /// What its metadata says.
    pub meta: MetaModel,
    /// The ports that it lists.
    pub ports: Seq<u16>,
    /// Its known ports: those that it lists, and those that a client has asked
    /// for.
    pub port_servers: Map<u16, PortServerModel>,
}

impl DeepView for ExternalGroup {
    type V = ExternalGroupModel;

    closed spec fn deep_view(&self) -> ExternalGroupModel {
        ExternalGroupModel {
            meta: self.meta.deep_view(),
            ports: self.ports@,
            port_servers: self.port_servers.deep_view(),
        }
    }
}

impl ExternalGroupModel {
    /// The configuration of a port that the group lists.
    pub open spec fn configured(
        policy: PolicyModel,
        authns: AuthenticationsModel,
        name: Text,
        port: u16,
    ) -> InboundServerModel {
        InboundServerModel {
            reference: ServerRefModel::External(name),
            protocol: ProxyProtocol::Detect { timeout: policy.cluster.default_detect_timeout },
            authorizations: policy.workload_authzs(name, port, authns),
            http_routes: policy.routes(name, authns, Seq::empty()),
        }
    }

    /// The configuration of a port that the group does not list.
    pub open spec fn default_server(
        self,
        port: u16,
        cluster: ClusterInfoModel,
    ) -> InboundServerModel {
        self.meta.settings.default_server(
            ServerRefModel::External(self.meta.settings.policy_for(port, cluster).name()),
            port,
            Seq::empty(),
            cluster,
        )
    }

    /// The configuration that the policy resources ask for a port: one of its own
    /// if the group lists it, or else the default.
    pub open spec fn asked(
        self,
        policy: PolicyModel,
        authns: AuthenticationsModel,
        name: Text,
        port: u16,
    ) -> InboundServerModel {
        if self.ports.contains(port) {
            ExternalGroupModel::configured(policy, authns, name, port)
        } else {
            self.default_server(port, policy.cluster)
        }
    }

    /// Whether a port has come to be known. One that is known already stays as it
    /// is; another is configured by the default. Nothing else of the group has
    /// changed.
    pub open spec fn port_discovered(
        self,
        after: ExternalGroupModel,
        port: u16,
        cluster: ClusterInfoModel,
    ) -> bool {
        &&& after.port_servers.contains_key(port)
        &&& after == (ExternalGroupModel {
            port_servers: self.port_servers.insert(port, after.port_servers[port]),
            ..self
        })
        &&& match self.port_servers.get(port) {
            Some(known) => after.port_servers[port] == known,
            None => defaulted(None, after.port_servers[port], self.default_server(port, cluster)),
        }
    }

    /// Whether a port has come to be configured as the policy resources ask.
    pub open spec fn port_reindexed(
        self,
        after: Map<u16, PortServerModel>,
        policy: PolicyModel,
        authns: AuthenticationsModel,
        name: Text,
        port: u16,
    ) -> bool {
        if self.ports.contains(port) {
            after.contains_key(port) && assigned(
                self.port_servers.get(port),
                after[port],
                name,
                ExternalGroupModel::configured(policy, authns, name, port),
            )
        } else if self.port_servers.contains_key(port) {
            after.contains_key(port) && defaulted(
                self.port_servers.get(port),
                after[port],
                self.default_server(port, policy.cluster),
            )
        } else {
            !after.contains_key(port)
        }
    }

    /// Whether a group has come to be configured as the policy resources ask:
    /// the ports that it lists by the policies that target them, the other known
    /// ports by the default. Nothing else of the group has changed.
    pub open spec fn reindexed(
        self,
        after: ExternalGroupModel,
        policy: PolicyModel,
        authns: AuthenticationsModel,
        name: Text,
    ) -> bool {
        &&& after == (ExternalGroupModel { port_servers: after.port_servers, ..self })
        &&& forall|port: u16| #[trigger]
            self.port_reindexed(after.port_servers, policy, authns, name, port)
    }
}

impl ExternalGroupModel {
    /// Whether a port is configured as the policy resources ask. Every port that
    /// the group lists is known.
    pub open spec fn port_settled(
        self,
        policy: PolicyModel,
        authns: AuthenticationsModel,
        name: Text,
        port: u16,
    ) -> bool {
        if self.ports.contains(port) {
            &&& self.port_servers.contains_key(port)
            &&& self.port_servers[port].name == Some(name)
            &&& self.port_servers[port].channel.value == ExternalGroupModel::configured(
                policy,
                authns,
                name,
                port,
            )
        } else {
            self.port_servers.contains_key(port) ==> {
                &&& self.port_servers[port].name is None
                &&& self.port_servers[port].channel.value == self.default_server(
                    port,
                    policy.cluster,
                )
            }
        }
    }

    /// Whether a port goes by the name of the group. The name is unset when the
    /// group does not list the port.
    pub open spec fn port_named(self, name: Text, port: u16) -> bool {
        if self.ports.contains(port) {
            &&& self.port_servers.contains_key(port)
            &&& self.port_servers[port].name == Some(name)
            &&& self.port_servers[port].channel.value.reference == ServerRefModel::External(name)
        } else {
            self.port_servers.contains_key(port) ==> self.port_servers[port].name is None
        }
    }

    /// Whether all ports that the group lists, and no others, go by its name.
    pub open spec fn named(self, name: Text) -> bool {
        forall|port: u16| #[trigger] self.port_named(name, port)
    }

    /// Whether a port has a name only if the group lists it.
    pub open spec fn name_agrees(self, port: u16) -> bool {
        self.port_servers.contains_key(port) && self.port_servers[port].name is Some
            ==> self.ports.contains(port)
    }

    /// Whether only ports that the group lists have names.
    pub open spec fn names_agree(self) -> bool {
        forall|port: u16| #[trigger] self.name_agrees(port)
    }

    /// Where all ports are settled, those that the group lists, and no others, go
    /// by its name.
    pub proof fn settled_is_named(
        self,
        policy: PolicyModel,
        authns: AuthenticationsModel,
        name: Text,
    )
        requires
            self.settled(policy, authns, name),
        ensures
            self.named(name),
    {
        assert forall|port: u16| #[trigger] self.port_named(name, port) by {
            assert(self.port_settled(policy, authns, name, port));
        }
    }

    /// Where all ports that the group lists, and no others, go by its name, only
    /// ports that it lists have names.
    pub proof fn named_agrees(self, name: Text)
        requires
            self.named(name),
        ensures
            self.names_agree(),
    {
        assert forall|port: u16| #[trigger] self.name_agrees(port) by {
            assert(self.port_named(name, port));
        }
    }

    /// Whether all ports are configured as the policy resources ask.
    pub open spec fn settled(
        self,
        policy: PolicyModel,
        authns: AuthenticationsModel,
        name: Text,
    ) -> bool {
        forall|port: u16| #[trigger] self.port_settled(policy, authns, name, port)
    }

    /// Once a group has been configured, all its ports are settled, however they
    /// were configured before.
    pub proof fn reindexed_is_settled(
        self,
        after: ExternalGroupModel,
        policy: PolicyModel,
        authns: AuthenticationsModel,
        name: Text,
    )
        requires
            self.names_agree(),
            self.reindexed(after, policy, authns, name),
        ensures
            after.settled(policy, authns, name),
            after.named(name),
    {
        assert forall|port: u16| #[trigger] after.port_settled(policy, authns, name, port) by {
            assert(self.name_agrees(port));
            assert(self.port_reindexed(after.port_servers, policy, authns, name, port));
        }
        after.settled_is_named(policy, authns, name);
    }

    /// To configure a group a second time changes nothing, and tells no reader
    /// anything.
    pub proof fn reindexed_twice_is_once(
        self,
        once: ExternalGroupModel,
        twice: ExternalGroupModel,
        policy: PolicyModel,
        authns: AuthenticationsModel,
        name: Text,
    )
        requires
            self.reindexed(once, policy, authns, name),
            once.reindexed(twice, policy, authns, name),
        ensures
            twice == once,
    {
        assert forall|port: u16|
            #![trigger once.port_servers.contains_key(port)]
            #![trigger twice.port_servers.contains_key(port)]
            {
                &&& twice.port_servers.contains_key(port) == once.port_servers.contains_key(port)
                &&& once.port_servers.contains_key(port) ==> twice.port_servers[port]
                    == once.port_servers[port]
            } by {
            assert(self.port_reindexed(once.port_servers, policy, authns, name, port));
            assert(once.port_reindexed(twice.port_servers, policy, authns, name, port));
        }
    }

    /// A known port stays known, on the same channel, when a group is configured
    /// anew. Its readers are told at most once, and they are if what it holds
    /// changes.
    pub proof fn reindexed_keeps_channels(
        self,
        after: ExternalGroupModel,
        policy: PolicyModel,
        authns: AuthenticationsModel,
        name: Text,
        port: u16,
    )
        requires
            self.reindexed(after, policy, authns, name),
            self.port_servers.contains_key(port),
        ensures
            after.port_servers.contains_key(port),
            after.port_servers[port].channel.id == self.port_servers[port].channel.id,
            self.port_servers[port].channel.updates <= after.port_servers[port].channel.updates
                <= self.port_servers[port].channel.updates + 1,
            after.port_servers[port].channel.value != self.port_servers[port].channel.value
                ==> after.port_servers[port].channel.updates
                > self.port_servers[port].channel.updates,
    {
        assert(self.port_reindexed(after.port_servers, policy, authns, name, port));
    }

    /// A port that a client asks for leaves the other ports with their names, and
    /// has one itself only if the group lists it.
    pub proof fn discovered_is_named(
        self,
        after: ExternalGroupModel,
        port: u16,
        cluster: ClusterInfoModel,
        name: Text,
    )
        requires
            self.named(name),
            self.port_discovered(after, port, cluster),
        ensures
            after.named(name),
    {
        assert forall|other: u16| #[trigger] after.port_named(name, other) by {
            assert(self.port_named(name, other));
        }
    }

    /// A port that a client asks for leaves a settled group settled, and is
    /// configured as the policy resources ask.
    pub proof fn discovered_is_settled(
        self,
        after: ExternalGroupModel,
        port: u16,
        policy: PolicyModel,
        authns: AuthenticationsModel,
        name: Text,
    )
        requires
            self.settled(policy, authns, name),
            self.port_discovered(after, port, policy.cluster),
        ensures
            after.settled(policy, authns, name),
            after.port_servers[port].channel.value == self.asked(policy, authns, name, port),
    {
        assert forall|other: u16| #[trigger] after.port_settled(policy, authns, name, other) by {
            assert(self.port_settled(policy, authns, name, other));
        }
        assert(self.port_settled(policy, authns, name, port));
    }
}

impl ExternalGroup {
    /// A group none of whose ports is known.
    pub fn new(meta: Meta, ports: Vec<u16>) -> (r: Self)
        ensures
            r.deep_view() == (ExternalGroupModel {
                meta: meta.deep_view(),
                ports: ports@,
                port_servers: Map::empty(),
            }),
    {
        ExternalGroup { meta, ports, port_servers: PortServers::new() }
    }

    /// Closes the channels of all known ports.
    pub fn close(self) -> (ends: PortTable<PortEnd>)
        ensures
            ends.deep_view() == closed_ends(self.deep_view().port_servers),
    {
        self.port_servers.close()
    }

    /// Whether the group lists these ports, in this order.
    pub fn has_ports(&self, ports: &Vec<u16>) -> (r: bool)
        ensures
            r == (self.deep_view().ports == ports@),
    {
        assert(self.ports.deep_view() =~= self.ports@);
        assert(ports.deep_view() =~= ports@);
        self.ports.same(ports)
    }

    /// Whether the metadata of the group says this.
    pub fn has_meta(&self, meta: &Meta) -> (r: bool)
        ensures
            r == (self.deep_view().meta == meta.deep_view()),
    {
        self.meta.same(meta)
    }

    /// Replaces what the metadata of the group says.
    pub fn set_meta(&mut self, meta: Meta)
        ensures
            final(self).deep_view() == (ExternalGroupModel {
                meta: meta.deep_view(),
                ..old(self).deep_view()
            }),
    {
        self.meta = meta;
    }

    /// The configuration of a port that a group does not list.
    pub fn default_inbound_server(port: u16, settings: &Settings, config: &ClusterInfo) -> (r:
        InboundServer)
        ensures
            r.deep_view() == settings.deep_view().default_server(
                ServerRefModel::External(
                    settings.deep_view().policy_for(port, config.deep_view()).name(),
                ),
                port,
                Seq::empty(),
                config.deep_view(),
            ),
    {
        let policy = settings.policy_for(port, config);
        let no_paths: Vec<String> = Vec::new();
        settings.default_server(
            ServerRef::External(policy.as_str().to_string()),
            port,
            &no_paths,
            config,
        )
    }

    /// Has a port configured by the policies that target it.
    fn update_server(&mut self, port: u16, name: &String, server: InboundServer)
        ensures
            final(self).deep_view() == (ExternalGroupModel {
                port_servers: final(self).deep_view().port_servers,
                ..old(self).deep_view()
            }),
            final(self).deep_view().port_servers.contains_key(port),
            final(self).deep_view().port_servers == old(self).deep_view().port_servers.insert(
                port,
                final(self).deep_view().port_servers[port],
            ),
            assigned(
                old(self).deep_view().port_servers.get(port),
                final(self).deep_view().port_servers[port],
                name@,
                server.deep_view(),
            ),
    {
        self.port_servers.update_server(port, name, server);
    }

    /// Has a port configured by the default.
    fn set_default_server(&mut self, port: u16, config: &ClusterInfo)
        ensures
            final(self).deep_view() == (ExternalGroupModel {
                port_servers: final(self).deep_view().port_servers,
                ..old(self).deep_view()
            }),
            final(self).deep_view().port_servers.contains_key(port),
            final(self).deep_view().port_servers == old(self).deep_view().port_servers.insert(
                port,
                final(self).deep_view().port_servers[port],
            ),
            defaulted(
                old(self).deep_view().port_servers.get(port),
                final(self).deep_view().port_servers[port],
                old(self).deep_view().default_server(port, config.deep_view()),
            ),
    {
        let server = ExternalGroup::default_inbound_server(port, &self.meta.settings, config);
        self.port_servers.set_default_server(port, server);
    }

    /// The server of a port. One that is not known comes to be known, configured
    /// by the default.
    pub fn port_server_or_default(&mut self, port: u16, config: &ClusterInfo) -> (r: &PortServer)
        ensures
            old(self).deep_view().port_discovered(
                final(self).deep_view(),
                port,
                config.deep_view(),
            ),
            r.deep_view() == final(self).deep_view().port_servers[port],
    {
        let ghost known = self.deep_view().port_servers;
        if !self.port_servers.is_known(port) {
            self.set_default_server(port, config);
        }
        assert(known.insert(port, self.deep_view().port_servers[port])
            =~= self.deep_view().port_servers);
        self.port_servers.get(port).unwrap()
    }

    /// The configuration of a port that the group lists.
    fn inbound_server(
        workload_name: &String,
        port: u16,
        policy: &PolicyIndex,
        authns: &AuthenticationNsIndex,
    ) -> (r: InboundServer)
        ensures
            r.deep_view() == ExternalGroupModel::configured(
                policy.deep_view(),
                authns.deep_view(),
                workload_name@,
                port,
            ),
    {
        let no_paths: Vec<String> = Vec::new();
        let authorizations = policy.workload_authzs(workload_name, port, authns);
        let http_routes = policy.http_routes(workload_name, authns, &no_paths);
        InboundServer {
            reference: ServerRef::External(workload_name.clone()),
            protocol: ProxyProtocol::Detect {
                timeout: policy.cluster_info().default_detect_timeout,
            },
            authorizations,
            http_routes,
        }
    }

    /// Has the ports of the group configured as the policy resources ask.
    pub fn reindex_policy(
        &mut self,
        workload_name: &String,
        policy: &PolicyIndex,
        authns: &AuthenticationNsIndex,
    )
        ensures
            old(self).deep_view().reindexed(
                final(self).deep_view(),
                policy.deep_view(),
                authns.deep_view(),
                workload_name@,
            ),
    {
        let ghost group = self.deep_view();
        let ghost pol = policy.deep_view();
        let ghost all = authns.deep_view();
        let ghost name = workload_name@;
        let mut unmatched = self.port_servers.ports();
        let mut matched = PortSet::new();
        let ports = self.ports.dup();
        assert(self.ports.deep_view() =~= self.ports@);
        let mut i: usize = 0;
        while i < ports.len()
            invariant
                i <= ports.len(),
                pol == policy.deep_view(),
                all == authns.deep_view(),
                name == workload_name@,
                ports@ == group.ports,
                self.deep_view() == (ExternalGroupModel {
                    port_servers: self.deep_view().port_servers,
                    ..group
                }),
                matched.deep_view() =~= ports@.take(i as int).to_set(),
                unmatched.deep_view() == group.port_servers.dom().difference(matched.deep_view()),
                forall|port: u16| #[trigger]
                    port_matched(
                        group,
                        self.deep_view().port_servers,
                        ports@.take(i as int).to_set(),
                        pol,
                        all,
                        name,
                        port,
                    ),
            decreases ports.len() - i,
        {
            let port: u16 = ports[i];
            let ghost now = self.deep_view().port_servers;
            proof {
                take_one_more(ports@, i as int);
            }
            if !matched.contains(port) {
                let s = ExternalGroup::inbound_server(workload_name, port, policy, authns);
                self.update_server(port, workload_name, s);
                matched.insert(port);
                unmatched.remove(port);
            }
            assert forall|other: u16| #[trigger]
                port_matched(
                    group,
                    self.deep_view().port_servers,
                    ports@.take(i + 1).to_set(),
                    pol,
                    all,
                    name,
                    other,
                ) by {
                let done = ports@.take(i as int).to_set();
                assert(port_matched(group, now, done, pol, all, name, other));
            }
            i = i + 1;
        }
        assert(ports@.take(i as int) =~= ports@);

        let rest = unmatched.list();
        let ghost chosen = self.deep_view().port_servers;
        assert forall|m: int| 0 <= m < rest.len() implies chosen.get(#[trigger] rest@[m])
            == group.port_servers.get(rest@[m]) by {
            assert(port_matched(group, chosen, ports@.to_set(), pol, all, name, rest@[m]));
        }
        let mut k: usize = 0;
        while k < rest.len()
            invariant
                k <= rest.len(),
                pol == policy.deep_view(),
                rest@.no_duplicates(),
                self.deep_view() == (ExternalGroupModel {
                    port_servers: self.deep_view().port_servers,
                    ..group
                }),
                forall|m: int|
                    0 <= m < rest.len() ==> chosen.get(#[trigger] rest@[m])
                        == group.port_servers.get(rest@[m]),
                forall|m: int|
                    0 <= m < k ==> {
                        &&& self.deep_view().port_servers.contains_key(#[trigger] rest@[m])
                        &&& defaulted(
                            group.port_servers.get(rest@[m]),
                            self.deep_view().port_servers[rest@[m]],
                            group.default_server(rest@[m], pol.cluster),
                        )
                    },
                forall|port: u16|
                    !rest@.take(k as int).to_set().contains(port)
                        ==> #[trigger] self.deep_view().port_servers.get(port) == chosen.get(port),
            decreases rest.len() - k,
        {
            proof {
                take_one_more(rest@, k as int);
            }
            let ghost now = self.deep_view().port_servers;
            self.set_default_server(rest[k], policy.cluster_info());
            assert forall|port: u16|
                !rest@.take(k + 1).to_set().contains(
                    port,
                ) implies #[trigger] self.deep_view().port_servers.get(port) == chosen.get(port) by {
                assert(now.get(port) == chosen.get(port));
            }
            k = k + 1;
        }
        assert forall|port: u16| #[trigger]
            group.port_reindexed(self.deep_view().port_servers, pol, all, name, port) by {
            assert(port_matched(group, chosen, ports@.to_set(), pol, all, name, port));
            if rest@.contains(port) {
                let m = rest@.index_of(port);
            } else {
                assert(!unmatched.deep_view().contains(port));
                assert(self.deep_view().port_servers.get(port) == chosen.get(port));
            }
        }
    }
}

/// What is known of a port while the listed ports are being configured.
spec fn port_matched(
    group: ExternalGroupModel,
    now: Map<u16, PortServerModel>,
    done: Set<u16>,
    policy: PolicyModel,
    authns: AuthenticationsModel,
    name: Text,
    port: u16,
) -> bool {
    if done.contains(port) {
        now.contains_key(port) && assigned(
            group.port_servers.get(port),
            now[port],
            name,
            ExternalGroupModel::configured(policy, authns, name, port),
        )
    } else {
        now.get(port) == group.port_servers.get(port)
    }
}

/// The error of an update that would change the ports of a known group.
#[derive(Debug)]
pub struct PortsChanged {
    /// The name of the group.
    pub group: String,
}

impl PortsChanged {
    /// The text of the error.
    pub fn message(&self) -> (r: String)
        ensures
            r@ == "workload "@ + self.group@ + " port must not change"@,
    {
        "workload ".to_string().concat(self.group.as_str()).concat(" port must not change")
    }
}

/// The external groups of a namespace.
#[derive(Debug)]
pub struct ExternalIndex {
    by_name: NameTable<ExternalGroup>,
}

impl DeepView for ExternalIndex {
    type V = Map<Text, ExternalGroupModel>;

    closed spec fn deep_view(&self) -> Map<Text, ExternalGroupModel> {
        self.by_name.deep_view()
    }
}

/// What becomes of a group: one that is new is taken as it is given; of one that
/// is known, only the metadata is replaced, if it changes, while its ports must
/// not.
pub open spec fn updated_group(
    groups: Map<Text, ExternalGroupModel>,
    name: Text,
    meta: MetaModel,
    ports: Seq<u16>,
) -> Result<Option<ExternalGroupModel>, ()> {
    if !groups.contains_key(name) {
        Ok(Some(ExternalGroupModel { meta, ports, port_servers: Map::empty() }))
    } else if groups[name].ports != ports {
        Err(())
    } else if groups[name].meta == meta {
        Ok(None)
    } else {
        Ok(Some(ExternalGroupModel { meta, ..groups[name] }))
    }
}

/// Whether groups have come to be configured as the policy resources ask.
pub open spec fn groups_reindexed(
    before: Map<Text, ExternalGroupModel>,
    after: Map<Text, ExternalGroupModel>,
    policy: PolicyModel,
    authns: AuthenticationsModel,
) -> bool {
    &&& after.dom() == before.dom()
    &&& forall|name: Text| #[trigger]
        before.contains_key(name) ==> before[name].reindexed(after[name], policy, authns, name)
}

impl ExternalIndex {
    /// No groups.
    pub fn new() -> (r: Self)
        ensures
            r.deep_view() == Map::<Text, ExternalGroupModel>::empty(),
    {
        ExternalIndex { by_name: NameTable::new() }
    }

    /// Whether there are no groups.
    pub fn is_empty(&self) -> (r: bool)
        ensures
            r == (self.deep_view() == Map::<Text, ExternalGroupModel>::empty()),
    {
        self.by_name.is_empty()
    }

    /// A group.
    pub fn get_mut(&mut self, name: &String) -> (r: Option<&mut ExternalGroup>)
        ensures
            r is Some <==> old(self).deep_view().contains_key(name@),
            r matches Some(group) ==> {
                &&& group.deep_view() == old(self).deep_view()[name@]
                &&& final(self).deep_view() == old(self).deep_view().insert(
                    name@,
                    final(group).deep_view(),
                )
            },
            r is None ==> final(self).deep_view() == old(self).deep_view(),
    {
        self.by_name.get_mut(name)
    }

    /// Takes a group out, if it is known.
    pub fn remove(&mut self, name: &String) -> (r: Option<ExternalGroup>)
        ensures
            final(self).deep_view() == old(self).deep_view().remove(name@),
            r.deep_view() == old(self).deep_view().get(name@),
    {
        self.by_name.remove(name)
    }

    /// Adds a group, or updates a known one. Hands the group out unless it stays
    /// as it was.
    pub fn update(&mut self, name: &String, meta: Meta, ports: Vec<u16>) -> (r: Result<
        Option<&mut ExternalGroup>,
        PortsChanged,
    >)
        ensures
            match (r, updated_group(old(self).deep_view(), name@, meta.deep_view(), ports@)) {
                (Ok(Some(group)), Ok(Some(model))) => {
                    &&& group.deep_view() == model
                    &&& final(self).deep_view() == old(self).deep_view().insert(
                        name@,
                        final(group).deep_view(),
                    )
                },
                (Ok(None), Ok(None)) => final(self).deep_view() == old(self).deep_view(),
                (Err(PortsChanged { group }), Err(_)) => {
                    &&& group@ == name@
                    &&& final(self).deep_view() == old(self).deep_view()
                },
                _ => false,
            },
    {
        match self.by_name.get_mut(name) {
            Some(group) => {
                if !group.has_ports(&ports) {
                    return Err(PortsChanged { group: name.clone() });
                }
                if group.has_meta(&meta) {
                    return Ok(None);
                }
                group.set_meta(meta);
            },
            None => {
                self.by_name.insert(name.clone(), ExternalGroup::new(meta, ports));
            },
        }
        Ok(self.by_name.get_mut(name))
    }

    /// Has all groups configured as the policy resources ask.
    pub fn reindex(&mut self, policy: &PolicyIndex, authns: &AuthenticationNsIndex)
        ensures
            groups_reindexed(
                old(self).deep_view(),
                final(self).deep_view(),
                policy.deep_view(),
                authns.deep_view(),
            ),
    {
        let ghost before = self.deep_view();
        let ghost walk = self.by_name.walk();
        let n: usize = self.by_name.len();
        let mut i: usize = 0;
        while i < n
            invariant
                i <= n,
                n == walk.len(),
                walk == self.by_name.walk(),
                lists(walk, before.dom()),
                self.deep_view().dom() == before.dom(),
                forall|j: int|
                    0 <= j < i ==> before[#[trigger] walk[j]].reindexed(
                        self.deep_view()[walk[j]],
                        policy.deep_view(),
                        authns.deep_view(),
                        walk[j],
                    ),
                forall|j: int|
                    i <= j < n ==> self.deep_view()[#[trigger] walk[j]] == before[walk[j]],
            decreases n - i,
        {
            let name = self.by_name.key_at(i).clone();
            self.by_name.value_at_mut(i).reindex_policy(&name, policy, authns);
            i = i + 1;
        }
    }
}

} // verus!
