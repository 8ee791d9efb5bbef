//! Pods and the servers of their ports.
use crate::authentications::{AuthenticationNsIndex, AuthenticationsModel};
use crate::cluster::{ClusterInfo, ClusterInfoModel};
use crate::inbound::{InboundServer, InboundServerModel, ServerRef, ServerRefModel};
use crate::meta::{Meta, MetaModel, Settings};
use crate::policy::{PolicyIndex, PolicyModel};
use crate::ports::PortSet;
use crate::search::{first, first_is_one};
use crate::server::{PortRef, PortRefModel};
use crate::table::{lists, take_one_more, NameTable, PortTable};
use crate::value::{Text, Value};
use crate::watching::{
    assigned, closed_ends, defaulted, PortEnd, PortServer, PortServerModel, PortServers,
};
use vstd::prelude::*;

verus! {

/// A pod, with the servers of all its known ports.
#[derive(Debug)]
pub struct Pod {
    meta: Meta,
    port_names: NameTable<PortSet>,
    port_servers: PortServers,
    probes: PortTable<Vec<String>>,
}

/// What a [`Pod`] means.
#[verifier::ext_equal]
pub struct PodModel {
    /// What its metadata says.
    pub meta: MetaModel,
    /// Its named container ports. Several ports may share a name.
    pub port_names: Map<Text, Set<u16>>,
    /// Its known ports: those that a server selects, and those that a client has
    /// asked for.
    pub port_servers: Map<u16, PortServerModel>,
    /// The paths on which its ports expect probes.
    pub probes: Map<u16, Seq<Text>>,
}

impl DeepView for Pod {
    type V = PodModel;

    closed spec fn deep_view(&self) -> PodModel {
        PodModel {
            meta: self.meta.deep_view(),
            port_names: self.port_names.deep_view(),
            port_servers: self.port_servers.deep_view(),
            probes: self.probes.deep_view(),
        }
    }
}

impl PodModel {
    /// The paths on which a port expects probes.
    pub open spec fn probe_paths(self, port: u16) -> Seq<Text> {
        if self.probes.contains_key(port) {
            self.probes[port]
        } else {
            Seq::empty()
        }
    }

    /// The ports that a server means.
    pub open spec fn ports_of(self, port_ref: PortRefModel) -> Set<u16> {
        match port_ref {
            PortRefModel::Number(port) => set![port],
            PortRefModel::Name(name) => if self.port_names.contains_key(name) {
                self.port_names[name]
            } else {
                Set::empty()
            },
        }
    }

    /// Whether a server selects a port of the pod.
    pub open spec fn selected(self, policy: PolicyModel, name: Text, port: u16) -> bool {
        &&& policy.servers[name].pod_selector.matches(self.meta.labels)
        &&& self.ports_of(policy.servers[name].port_ref).contains(port)
    }

    /// The servers that select a port, by place in the order in which servers
    /// are met.
    pub open spec fn candidates(self, policy: PolicyModel, port: u16) -> spec_fn(int) -> Option<
        Text,
    > {
        |i: int|
            if self.selected(policy, policy.walk[i], port) {
                Some(policy.walk[i])
            } else {
                None
            }
    }

    /// The server that configures a port: the first that selects it.
    pub open spec fn server_of(self, policy: PolicyModel, port: u16) -> Option<Text> {
        first(policy.walk.len(), self.candidates(policy, port))
    }

    /// The configuration of a port by a server.
    pub open spec fn configured(
        self,
        policy: PolicyModel,
        authns: AuthenticationsModel,
        name: Text,
        port: u16,
    ) -> InboundServerModel {
        policy.inbound_server(name, policy.servers[name], authns, self.probe_paths(port))
    }

    /// The configuration of a port that no server selects.
    pub open spec fn default_server(
        self,
        port: u16,
        cluster: ClusterInfoModel,
    ) -> InboundServerModel {
        self.meta.settings.default_server(
            ServerRefModel::Default(self.meta.settings.policy_for(port, cluster).name()),
            port,
            self.probe_paths(port),
            cluster,
        )
    }

    /// The configuration that the policy resources ask for a port: that of the
    /// server that selects it, or else the default.
    pub open spec fn asked(
        self,
        policy: PolicyModel,
        authns: AuthenticationsModel,
        port: u16,
    ) -> InboundServerModel {
        match self.server_of(policy, port) {
            Some(name) => self.configured(policy, authns, name, port),
            None => self.default_server(port, policy.cluster),
        }
    }

    /// Whether a port has come to be known. One that is known already stays as it
    /// is; another is configured by the default. Nothing else of the pod has
    /// changed.
    pub open spec fn port_discovered(
        self,
        after: PodModel,
        port: u16,
        cluster: ClusterInfoModel,
    ) -> bool {
        &&& after.port_servers.contains_key(port)
        &&& after == (PodModel {
            port_servers: self.port_servers.insert(port, after.port_servers[port]),
            ..self
        })
        &&& match self.port_servers.get(port) {
            Some(known) => after.port_servers[port] == known,
            None => defaulted(None, after.port_servers[port], self.default_server(port, cluster)),
        }
    }

    /// Whether a port has come to be configured as the policy resources ask.
    pub open spec fn port_reindexed(
        self,
        after: Map<u16, PortServerModel>,
        policy: PolicyModel,
        authns: AuthenticationsModel,
        port: u16,
    ) -> bool {
        match self.server_of(policy, port) {
            Some(name) => after.contains_key(port) && assigned(
                self.port_servers.get(port),
                after[port],
                name,
                self.configured(policy, authns, name, port),
            ),
            None => if self.port_servers.contains_key(port) {
                after.contains_key(port) && defaulted(
                    self.port_servers.get(port),
                    after[port],
                    self.default_server(port, policy.cluster),
                )
            } else {
                !after.contains_key(port)
            },
        }
    }

    /// Whether a pod has come to be configured as the policy resources ask: the
    /// ports that a server selects by that server, the other known ports by the
    /// default. Nothing else of the pod has changed.
    pub open spec fn reindexed(
        self,
        after: PodModel,
        policy: PolicyModel,
        authns: AuthenticationsModel,
    ) -> bool {
        &&& after == (PodModel { port_servers: after.port_servers, ..self })
        &&& forall|port: u16| #[trigger]
            self.port_reindexed(after.port_servers, policy, authns, port)
    }
}

impl PodModel {
    /// Whether a port is configured as the policy resources ask. Every port that
    /// a server selects is known.
    pub open spec fn port_settled(
        self,
        policy: PolicyModel,
        authns: AuthenticationsModel,
        port: u16,
    ) -> bool {
        match self.server_of(policy, port) {
            Some(name) => {
                &&& self.port_servers.contains_key(port)
                &&& self.port_servers[port].name == Some(name)
                &&& self.port_servers[port].channel.value == self.configured(
                    policy,
                    authns,
                    name,
                    port,
                )
            },
            None => self.port_servers.contains_key(port) ==> {
                &&& self.port_servers[port].name is None
                &&& self.port_servers[port].channel.value == self.default_server(
                    port,
                    policy.cluster,
                )
            },
        }
    }

    /// Whether all ports are configured as the policy resources ask.
    pub open spec fn settled(self, policy: PolicyModel, authns: AuthenticationsModel) -> bool {
        forall|port: u16| #[trigger] self.port_settled(policy, authns, port)
    }

    /// Whether a port goes by the name of the server that selects it. The name is
    /// unset when no server selects the port.
    pub open spec fn port_named(self, policy: PolicyModel, port: u16) -> bool {
        match self.server_of(policy, port) {
            Some(name) => {
                &&& self.port_servers.contains_key(port)
                &&& self.port_servers[port].name == Some(name)
                &&& self.port_servers[port].channel.value.reference == ServerRefModel::Server(name)
            },
            None => self.port_servers.contains_key(port) ==> {
                &&& self.port_servers[port].name is None
                &&& self.port_servers[port].channel.value.reference is Default
            },
        }
    }

    /// Whether all ports go by the names of the servers that select them.
    pub open spec fn named(self, policy: PolicyModel) -> bool {
        forall|port: u16| #[trigger] self.port_named(policy, port)
    }

    /// Whether the name of a known port is that of the server whose configuration
    /// it holds.
    pub open spec fn name_agrees(self, port: u16) -> bool {
        self.port_servers.contains_key(port) ==> match self.port_servers[port].name {
            Some(name) => self.port_servers[port].channel.value.reference
                == ServerRefModel::Server(name),
            None => true,
        }
    }

    /// Whether the names of all known ports are those of the servers whose
    /// configurations they hold.
    pub open spec fn names_agree(self) -> bool {
        forall|port: u16| #[trigger] self.name_agrees(port)
    }

    /// Where all ports are settled, they go by the names of the servers that
    /// select them.
    pub proof fn settled_is_named(self, policy: PolicyModel, authns: AuthenticationsModel)
        requires
            self.settled(policy, authns),
        ensures
            self.named(policy),
    {
        assert forall|port: u16| #[trigger] self.port_named(policy, port) by {
            assert(self.port_settled(policy, authns, port));
        }
    }

    /// Where all ports go by the names of the servers that select them, they hold
    /// the configurations of those servers.
    pub proof fn named_agrees(self, policy: PolicyModel)
        requires
            self.named(policy),
        ensures
            self.names_agree(),
    {
        assert forall|port: u16| #[trigger] self.name_agrees(port) by {
            assert(self.port_named(policy, port));
        }
    }

    /// The server that configures a port is one that selects it; there is none
    /// only if no server does; and where one server alone does, it is that one,
    /// in whatever order the servers are met.
    pub proof fn server_of_selects(self, policy: PolicyModel, port: u16)
        requires
            policy.well_formed(),
        ensures
            self.server_of(policy, port) matches Some(name) ==> policy.servers.contains_key(name)
                && self.selected(policy, name, port),
            self.server_of(policy, port) is None <==> forall|name: Text| #[trigger]
                policy.servers.contains_key(name) ==> !self.selected(policy, name, port),
            forall|name: Text|
                {
                    &&& #[trigger] policy.servers.contains_key(name)
                    &&& self.selected(policy, name, port)
                    &&& forall|other: Text| #[trigger]
                        policy.servers.contains_key(other) && self.selected(policy, other, port)
                            ==> other == name
                } ==> self.server_of(policy, port) == Some(name),
    {
        let n = policy.walk.len();
        let f = self.candidates(policy, port);
        first_is_one(f, n);
        if first(n, f) is None {
            assert forall|name: Text| #[trigger]
                policy.servers.contains_key(name) implies !self.selected(policy, name, port) by {
                let i = choose|i: int| 0 <= i < n && #[trigger] policy.walk[i] == name;
                assert(f(i) is None);
            }
        }
    }

    /// Once a pod has been configured, all its ports are settled, however they were
    /// configured before.
    pub proof fn reindexed_is_settled(
        self,
        after: PodModel,
        policy: PolicyModel,
        authns: AuthenticationsModel,
    )
        requires
            self.names_agree(),
            self.reindexed(after, policy, authns),
        ensures
            after.settled(policy, authns),
            after.named(policy),
    {
        assert forall|port: u16| #[trigger] after.port_settled(policy, authns, port) by {
            assert(self.name_agrees(port));
            assert(self.port_reindexed(after.port_servers, policy, authns, port));
            assert(after.candidates(policy, port) =~= self.candidates(policy, port));
        }
        after.settled_is_named(policy, authns);
    }

    /// To configure a pod a second time changes nothing, and tells no reader
    /// anything.
    pub proof fn reindexed_twice_is_once(
        self,
        once: PodModel,
        twice: PodModel,
        policy: PolicyModel,
        authns: AuthenticationsModel,
    )
        requires
            self.reindexed(once, policy, authns),
            once.reindexed(twice, policy, authns),
        ensures
            twice == once,
    {
        assert forall|port: u16|
            #![trigger once.port_servers.contains_key(port)]
            #![trigger twice.port_servers.contains_key(port)]
            {
                &&& twice.port_servers.contains_key(port) == once.port_servers.contains_key(port)
                &&& once.port_servers.contains_key(port) ==> twice.port_servers[port]
                    == once.port_servers[port]
            } by {
            assert(self.port_reindexed(once.port_servers, policy, authns, port));
            assert(once.port_reindexed(twice.port_servers, policy, authns, port));
            assert(once.candidates(policy, port) =~= self.candidates(policy, port));
        }
    }

    /// A known port stays known, on the same channel, when a pod is configured
    /// anew. Its readers are told at most once, and they are if what it holds
    /// changes.
    pub proof fn reindexed_keeps_channels(
        self,
        after: PodModel,
        policy: PolicyModel,
        authns: AuthenticationsModel,
        port: u16,
    )
        requires
            self.reindexed(after, policy, authns),
            self.port_servers.contains_key(port),
        ensures
            after.port_servers.contains_key(port),
            after.port_servers[port].channel.id == self.port_servers[port].channel.id,
            self.port_servers[port].channel.updates <= after.port_servers[port].channel.updates
                <= self.port_servers[port].channel.updates + 1,
            after.port_servers[port].channel.value != self.port_servers[port].channel.value
                ==> after.port_servers[port].channel.updates
                > self.port_servers[port].channel.updates,
    {
        assert(self.port_reindexed(after.port_servers, policy, authns, port));
    }

    /// A port that a client asks for leaves the other ports with their names, and
    /// has one itself only if a server selects it.
    pub proof fn discovered_is_named(
        self,
        after: PodModel,
        port: u16,
        policy: PolicyModel,
        cluster: ClusterInfoModel,
    )
        requires
            self.named(policy),
            self.port_discovered(after, port, cluster),
        ensures
            after.named(policy),
    {
        assert forall|other: u16| #[trigger] after.port_named(policy, other) by {
            assert(self.port_named(policy, other));
            assert(after.candidates(policy, other) =~= self.candidates(policy, other));
        }
    }

    /// A port that a client asks for leaves a settled pod settled, and is
    /// configured as the policy resources ask.
    pub proof fn discovered_is_settled(
        self,
        after: PodModel,
        port: u16,
        policy: PolicyModel,
        authns: AuthenticationsModel,
    )
        requires
            self.settled(policy, authns),
            self.port_discovered(after, port, policy.cluster),
        ensures
            after.settled(policy, authns),
            after.port_servers[port].channel.value == self.asked(policy, authns, port),
    {
        assert forall|other: u16| #[trigger] after.port_settled(policy, authns, other) by {
            assert(self.port_settled(policy, authns, other));
            assert(after.candidates(policy, other) =~= self.candidates(policy, other));
        }
        assert(self.port_settled(policy, authns, port));
    }
}

impl Pod {
    /// A pod none of whose ports is known.
    pub fn new(
        meta: Meta,
        port_names: NameTable<PortSet>,
        probes: PortTable<Vec<String>>,
    ) -> (r: Self)
        ensures
            r.deep_view() == (PodModel {
                meta: meta.deep_view(),
                port_names: port_names.deep_view(),
                port_servers: Map::empty(),
                probes: probes.deep_view(),
            }),
    {
        Pod { meta, port_names, port_servers: PortServers::new(), probes }
    }

    /// Closes the channels of all known ports.
    pub fn close(self) -> (ends: PortTable<PortEnd>)
        ensures
            ends.deep_view() == closed_ends(self.deep_view().port_servers),
    {
        self.port_servers.close()
    }

    /// Whether the pod names its ports in this way.
    pub fn has_port_names(&self, port_names: &NameTable<PortSet>) -> (r: bool)
        ensures
            r == (self.deep_view().port_names == port_names.deep_view()),
    {
        self.port_names.same(port_names)
    }

    /// Whether the metadata of the pod says this.
    pub fn has_meta(&self, meta: &Meta) -> (r: bool)
        ensures
            r == (self.deep_view().meta == meta.deep_view()),
    {
        self.meta.same(meta)
    }

    /// Replaces what the metadata of the pod says.
    pub fn set_meta(&mut self, meta: Meta)
        ensures
            final(self).deep_view() == (PodModel {
                meta: meta.deep_view(),
                ..old(self).deep_view()
            }),
    {
        self.meta = meta;
    }

    /// The paths on which a port expects probes.
    fn probe_paths(&self, port: u16) -> (r: Vec<String>)
        ensures
            r.deep_view() == self.deep_view().probe_paths(port),
    {
        match self.probes.get(&port) {
            Some(paths) => paths.dup(),
            None => {
                let none: Vec<String> = Vec::new();
                none
            },
        }
    }

    /// The ports that a server means, each once.
    pub fn select_ports(&self, port_ref: &PortRef) -> (r: Vec<u16>)
        ensures
            lists(r@, self.deep_view().ports_of(port_ref.deep_view())),
    {
        match port_ref {
            PortRef::Number(port) => {
                let r = vec![*port];
                r
            },
            PortRef::Name(name) => match self.port_names.get(name) {
                Some(ports) => ports.list(),
                None => Vec::new(),
            },
        }
    }

    /// The configuration of a port that no server selects.
    pub fn default_inbound_server(
        port: u16,
        settings: &Settings,
        probe_paths: &Vec<String>,
        config: &ClusterInfo,
    ) -> (r: InboundServer)
        ensures
            r.deep_view() == settings.deep_view().default_server(
                ServerRefModel::Default(
                    settings.deep_view().policy_for(port, config.deep_view()).name(),
                ),
                port,
                probe_paths.deep_view(),
                config.deep_view(),
            ),
    {
        let policy = settings.policy_for(port, config);
        settings.default_server(
            ServerRef::Default(policy.as_str().to_string()),
            port,
            probe_paths,
            config,
        )
    }

    /// Has a port configured by a server.
    fn update_server(&mut self, port: u16, name: &String, server: InboundServer)
        ensures
            final(self).deep_view() == (PodModel {
                port_servers: final(self).deep_view().port_servers,
                ..old(self).deep_view()
            }),
            final(self).deep_view().port_servers.contains_key(port),
            final(self).deep_view().port_servers == old(self).deep_view().port_servers.insert(
                port,
                final(self).deep_view().port_servers[port],
            ),
            assigned(
                old(self).deep_view().port_servers.get(port),
                final(self).deep_view().port_servers[port],
                name@,
                server.deep_view(),
            ),
    {
        self.port_servers.update_server(port, name, server);
    }

    /// Has a port configured by the default.
    fn set_default_server(&mut self, port: u16, config: &ClusterInfo)
        ensures
            final(self).deep_view() == (PodModel {
                port_servers: final(self).deep_view().port_servers,
                ..old(self).deep_view()
            }),
            final(self).deep_view().port_servers.contains_key(port),
            final(self).deep_view().port_servers == old(self).deep_view().port_servers.insert(
                port,
                final(self).deep_view().port_servers[port],
            ),
            defaulted(
                old(self).deep_view().port_servers.get(port),
                final(self).deep_view().port_servers[port],
                old(self).deep_view().default_server(port, config.deep_view()),
            ),
    {
        let paths = self.probe_paths(port);
        let server = Pod::default_inbound_server(port, &self.meta.settings, &paths, config);
        self.port_servers.set_default_server(port, server);
    }

    /// The server of a port. One that is not known comes to be known, configured
    /// by the default.
    pub fn port_server_or_default(&mut self, port: u16, config: &ClusterInfo) -> (r: &PortServer)
        ensures
            old(self).deep_view().port_discovered(
                final(self).deep_view(),
                port,
                config.deep_view(),
            ),
            r.deep_view() == final(self).deep_view().port_servers[port],
    {
        let ghost known = self.deep_view().port_servers;
        if !self.port_servers.is_known(port) {
            self.set_default_server(port, config);
        }
        assert(known.insert(port, self.deep_view().port_servers[port])
            =~= self.deep_view().port_servers);
        self.port_servers.get(port).unwrap()
    }
}

/// What is known of a port while the servers are being matched: whether one of
/// the servers met so far selects it, and what that has made of it.
spec fn port_matched(
    pod: PodModel,
    now: Map<u16, PortServerModel>,
    policy: PolicyModel,
    authns: AuthenticationsModel,
    server: Option<Text>,
    port: u16,
) -> bool {
    match server {
        Some(name) => now.contains_key(port) && assigned(
            pod.port_servers.get(port),
            now[port],
            name,
            pod.configured(policy, authns, name, port),
        ),
        None => now.get(port) == pod.port_servers.get(port),
    }
}

/// The server that has been met for a port, or else this one if it is among
/// the ports done.
spec fn or_this(met: Option<Text>, done: Seq<u16>, name: Text, port: u16) -> Option<Text> {
    match met {
        Some(earlier) => Some(earlier),
        None => if done.to_set().contains(port) {
            Some(name)
        } else {
            None
        },
    }
}

impl Pod {
    /// Has the ports of the pod configured as the policy resources ask.
    pub fn reindex_servers(&mut self, policy: &PolicyIndex, authns: &AuthenticationNsIndex)
        ensures
            old(self).deep_view().reindexed(
                final(self).deep_view(),
                policy.deep_view(),
                authns.deep_view(),
            ),
    {
        let ghost pod = self.deep_view();
        let ghost pol = policy.deep_view();
        let ghost all = authns.deep_view();
        let mut unmatched = self.port_servers.ports();
        let mut matched = PortSet::new();
        let n: usize = policy.server_count();
        let mut i: usize = 0;
        while i < n
            invariant
                i <= n,
                n == pol.walk.len(),
                pol == policy.deep_view(),
                all == authns.deep_view(),
                self.deep_view() == (PodModel {
                    port_servers: self.deep_view().port_servers,
                    ..pod
                }),
                forall|port: u16| #[trigger]
                    port_matched(
                        pod,
                        self.deep_view().port_servers,
                        pol,
                        all,
                        first(i as nat, pod.candidates(pol, port)),
                        port,
                    ),
                forall|port: u16| #[trigger]
                    matched.deep_view().contains(port) <==> first(
                        i as nat,
                        pod.candidates(pol, port),
                    ) is Some,
                unmatched.deep_view() == pod.port_servers.dom().difference(matched.deep_view()),
            decreases n - i,
        {
            let (name, server) = policy.server_at(i);
            if server.pod_selector.matches(&self.meta.labels) {
                let ports = self.select_ports(&server.port_ref);
                let mut j: usize = 0;
                while j < ports.len()
                    invariant
                        j <= ports.len(),
                        i < n,
                        n == pol.walk.len(),
                        pol == policy.deep_view(),
                        all == authns.deep_view(),
                        name@ == pol.walk[i as int],
                        server.deep_view() == pol.servers[name@],
                        self.deep_view() == (PodModel {
                            port_servers: self.deep_view().port_servers,
                            ..pod
                        }),
                        forall|port: u16| #[trigger]
                            port_matched(
                                pod,
                                self.deep_view().port_servers,
                                pol,
                                all,
                                or_this(
                                    first(i as nat, pod.candidates(pol, port)),
                                    ports@.take(j as int),
                                    name@,
                                    port,
                                ),
                                port,
                            ),
                        forall|port: u16| #[trigger]
                            matched.deep_view().contains(port) <==> or_this(
                                first(i as nat, pod.candidates(pol, port)),
                                ports@.take(j as int),
                                name@,
                                port,
                            ) is Some,
                        unmatched.deep_view() == pod.port_servers.dom().difference(
                            matched.deep_view(),
                        ),
                    decreases ports.len() - j,
                {
                    let port: u16 = ports[j];
                    let ghost now = self.deep_view().port_servers;
                    proof {
                        take_one_more(ports@, j as int);
                    }
                    if !matched.contains(port) {
                        let s = policy.inbound_server(
                            name.clone(),
                            server,
                            authns,
                            &self.probe_paths(port),
                        );
                        self.update_server(port, name, s);
                        matched.insert(port);
                        unmatched.remove(port);
                    }
                    assert forall|other: u16| #[trigger]
                        port_matched(
                            pod,
                            self.deep_view().port_servers,
                            pol,
                            all,
                            or_this(
                                first(i as nat, pod.candidates(pol, other)),
                                ports@.take(j + 1),
                                name@,
                                other,
                            ),
                            other,
                        ) by {
                        let met = first(i as nat, pod.candidates(pol, other));
                        let server = or_this(met, ports@.take(j as int), name@, other);
                        assert(port_matched(pod, now, pol, all, server, other));
                    }
                    j = j + 1;
                }
                assert(ports@.take(j as int) =~= ports@);
                assert forall|port: u16|
                    first((i + 1) as nat, #[trigger] pod.candidates(pol, port)) == or_this(
                        first(i as nat, pod.candidates(pol, port)),
                        ports@,
                        name@,
                        port,
                    ) by {}
                assert forall|port: u16| #[trigger]
                    port_matched(
                        pod,
                        self.deep_view().port_servers,
                        pol,
                        all,
                        first((i + 1) as nat, pod.candidates(pol, port)),
                        port,
                    ) by {}
            } else {
                assert forall|port: u16|
                    first((i + 1) as nat, #[trigger] pod.candidates(pol, port)) == first(
                        i as nat,
                        pod.candidates(pol, port),
                    ) by {}
                assert forall|port: u16| #[trigger]
                    port_matched(
                        pod,
                        self.deep_view().port_servers,
                        pol,
                        all,
                        first((i + 1) as nat, pod.candidates(pol, port)),
                        port,
                    ) by {}
            }
            i = i + 1;
        }

        let rest = unmatched.list();
        let mut k: usize = 0;
        let ghost chosen = self.deep_view().port_servers;
        assert forall|m: int| 0 <= m < rest.len() implies chosen.get(#[trigger] rest@[m])
            == pod.port_servers.get(rest@[m]) by {
            let met = first(i as nat, pod.candidates(pol, rest@[m]));
            assert(port_matched(pod, chosen, pol, all, met, rest@[m]));
        }
        while k < rest.len()
            invariant
                k <= rest.len(),
                pol == policy.deep_view(),
                rest@.no_duplicates(),
                self.deep_view() == (PodModel {
                    port_servers: self.deep_view().port_servers,
                    ..pod
                }),
                forall|m: int|
                    0 <= m < rest.len() ==> chosen.get(#[trigger] rest@[m]) == pod.port_servers.get(
                        rest@[m],
                    ),
                forall|m: int|
                    0 <= m < k ==> {
                        &&& self.deep_view().port_servers.contains_key(#[trigger] rest@[m])
                        &&& defaulted(
                            pod.port_servers.get(rest@[m]),
                            self.deep_view().port_servers[rest@[m]],
                            pod.default_server(rest@[m], pol.cluster),
                        )
                    },
                forall|port: u16|
                    !rest@.take(k as int).to_set().contains(port)
                        ==> #[trigger] self.deep_view().port_servers.get(port) == chosen.get(port),
            decreases rest.len() - k,
        {
            proof {
                take_one_more(rest@, k as int);
            }
            let ghost now = self.deep_view().port_servers;
            self.set_default_server(rest[k], policy.cluster_info());
            assert forall|port: u16|
                !rest@.take(k + 1).to_set().contains(
                    port,
                ) implies #[trigger] self.deep_view().port_servers.get(port) == chosen.get(port) by {
                assert(now.get(port) == chosen.get(port));
            }
            k = k + 1;
        }
        assert forall|port: u16| #[trigger]
            pod.port_reindexed(self.deep_view().port_servers, pol, all, port) by {
            let server = pod.server_of(pol, port);
            assert(port_matched(pod, chosen, pol, all, server, port));
            if !rest@.contains(port) {
                assert(!unmatched.deep_view().contains(port));
                assert(self.deep_view().port_servers.get(port) == chosen.get(port));
            }
        }
    }
}

/// The error of an update that would change the named ports of a known pod.
#[derive(Debug)]
pub struct PortNamesChanged {
    /// The name of the pod.
    pub pod: String,
}

impl PortNamesChanged {
    /// The text of the error.
    pub fn message(&self) -> (r: String)
        ensures
            r@ == "pod "@ + self.pod@ + " port names must not change"@,
    {
        "pod ".to_string().concat(self.pod.as_str()).concat(" port names must not change")
    }
}

/// The pods of a namespace.
#[derive(Debug)]
pub struct PodIndex {
    by_name: NameTable<Pod>,
}

impl DeepView for PodIndex {
    type V = Map<Text, PodModel>;

    closed spec fn deep_view(&self) -> Map<Text, PodModel> {
        self.by_name.deep_view()
    }
}

/// What becomes of a pod: one that is new is taken as it is given; of one that
/// is known, only the metadata is replaced, if it changes, while its named ports
/// must not.
pub open spec fn updated_pod(
    pods: Map<Text, PodModel>,
    name: Text,
    meta: MetaModel,
    port_names: Map<Text, Set<u16>>,
    probes: Map<u16, Seq<Text>>,
) -> Result<Option<PodModel>, ()> {
    if !pods.contains_key(name) {
        Ok(Some(PodModel { meta, port_names, port_servers: Map::empty(), probes }))
    } else if pods[name].port_names != port_names {
        Err(())
    } else if pods[name].meta == meta {
        Ok(None)
    } else {
        Ok(Some(PodModel { meta, ..pods[name] }))
    }
}

/// Whether pods have come to be configured as the policy resources ask.
pub open spec fn pods_reindexed(
    before: Map<Text, PodModel>,
    after: Map<Text, PodModel>,
    policy: PolicyModel,
    authns: AuthenticationsModel,
) -> bool {
    &&& after.dom() == before.dom()
    &&& forall|name: Text| #[trigger]
        before.contains_key(name) ==> before[name].reindexed(after[name], policy, authns)
}

impl PodIndex {
    /// No pods.
    pub fn new() -> (r: Self)
        ensures
            r.deep_view() == Map::<Text, PodModel>::empty(),
    {
        PodIndex { by_name: NameTable::new() }
    }

    /// Whether there are no pods.
    pub fn is_empty(&self) -> (r: bool)
        ensures
            r == (self.deep_view() == Map::<Text, PodModel>::empty()),
    {
        self.by_name.is_empty()
    }

    /// A pod.
    pub fn get_mut(&mut self, name: &String) -> (r: Option<&mut Pod>)
        ensures
            r is Some <==> old(self).deep_view().contains_key(name@),
            r matches Some(pod) ==> {
                &&& pod.deep_view() == old(self).deep_view()[name@]
                &&& final(self).deep_view() == old(self).deep_view().insert(
                    name@,
                    final(pod).deep_view(),
                )
            },
            r is None ==> final(self).deep_view() == old(self).deep_view(),
    {
        self.by_name.get_mut(name)
    }

    /// Takes a pod out, if it is known.
    pub fn remove(&mut self, name: &String) -> (r: Option<Pod>)
        ensures
            final(self).deep_view() == old(self).deep_view().remove(name@),
            r.deep_view() == old(self).deep_view().get(name@),
    {
        self.by_name.remove(name)
    }

    /// Adds a pod, or updates a known one. Hands the pod out unless it stays as
    /// it was.
    pub fn update(
        &mut self,
        name: &String,
        meta: Meta,
        port_names: NameTable<PortSet>,
        probes: PortTable<Vec<String>>,
    ) -> (r: Result<Option<&mut Pod>, PortNamesChanged>)
        ensures
            match (
                r,
                updated_pod(
                    old(self).deep_view(),
                    name@,
                    meta.deep_view(),
                    port_names.deep_view(),
                    probes.deep_view(),
                ),
            ) {
                (Ok(Some(pod)), Ok(Some(model))) => {
                    &&& pod.deep_view() == model
                    &&& final(self).deep_view() == old(self).deep_view().insert(
                        name@,
                        final(pod).deep_view(),
                    )
                },
                (Ok(None), Ok(None)) => final(self).deep_view() == old(self).deep_view(),
                (Err(PortNamesChanged { pod }), Err(_)) => {
                    &&& pod@ == name@
                    &&& final(self).deep_view() == old(self).deep_view()
                },
                _ => false,
            },
    {
        match self.by_name.get_mut(name) {
            Some(pod) => {
                if !pod.has_port_names(&port_names) {
                    return Err(PortNamesChanged { pod: name.clone() });
                }
                if pod.has_meta(&meta) {
                    return Ok(None);
                }
                pod.set_meta(meta);
            },
            None => {
                self.by_name.insert(name.clone(), Pod::new(meta, port_names, probes));
            },
        }
        Ok(self.by_name.get_mut(name))
    }

    /// Has all pods configured as the policy resources ask.
    pub fn reindex(&mut self, policy: &PolicyIndex, authns: &AuthenticationNsIndex)
        ensures
            pods_reindexed(
                old(self).deep_view(),
                final(self).deep_view(),
                policy.deep_view(),
                authns.deep_view(),
            ),
    {
        let ghost before = self.deep_view();
        let ghost walk = self.by_name.walk();
        let n: usize = self.by_name.len();
        let mut i: usize = 0;
        while i < n
            invariant
                i <= n,
                n == walk.len(),
                walk == self.by_name.walk(),
                lists(walk, before.dom()),
                self.deep_view().dom() == before.dom(),
                forall|j: int|
                    0 <= j < i ==> before[#[trigger] walk[j]].reindexed(
                        self.deep_view()[walk[j]],
                        policy.deep_view(),
                        authns.deep_view(),
                    ),
                forall|j: int|
                    i <= j < n ==> self.deep_view()[#[trigger] walk[j]] == before[walk[j]],
            decreases n - i,
        {
            self.by_name.value_at_mut(i).reindex_servers(policy, authns);
            i = i + 1;
        }
    }
}

} // verus!
