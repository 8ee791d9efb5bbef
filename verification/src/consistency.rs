//! What always holds of an index, whatever is applied, deleted, listed or looked
//! up.
use crate::authentications::{
    with_all_meshtls, with_all_network, with_meshtls, with_network, without_meshtls,
    without_network, AuthenticationIndexModel, AuthenticationsModel,
};
use crate::authz::{IdentityMatchModel, NetworkMatchModel};
use crate::cluster::ClusterInfoModel;
use crate::external::{updated_group, ExternalGroupModel};
use crate::inbound::{InboundServer, InboundServerModel};
use crate::index::IndexModel;
use crate::listing::{ChangeModel, ListedModel, NsUpdateModel};
use crate::meta::MetaModel;
use crate::namespace::NamespaceModel;
use crate::pod::{updated_pod, PodModel};
use crate::policy::{PolicyChangeModel, PolicyResource};
use crate::value::Text;
use crate::watching::{closed_ends, subscription};
use tokio::sync::watch;
use vstd::prelude::*;

verus! {

/// Whether no namespace without authentications is kept.
pub open spec fn no_empty_namespace(authns: AuthenticationsModel) -> bool {
    forall|ns: Text| #[trigger]
        authns.contains_key(ns) ==> authns[ns] != AuthenticationIndexModel::empty()
}

impl IndexModel {
    /// Whether the index is kept as it should be: every namespace that is known
    /// has resources, and its ports go by the names of what configures them.
    pub open spec fn kept(self) -> bool {
        &&& self.namespaces.cluster == self.cluster
        &&& no_empty_namespace(self.authentications)
        &&& forall|ns: Text| #[trigger]
            self.namespaces.by_ns.contains_key(ns) ==> self.namespaces.by_ns[ns].kept(
                ns,
                self.cluster,
            )
    }

    /// Whether the index is kept as it should be and all known ports are
    /// configured as the policy resources ask.
    pub open spec fn consistent(self) -> bool {
        &&& self.kept()
        &&& forall|ns: Text| #[trigger]
            self.namespaces.by_ns.contains_key(ns) ==> self.namespaces.by_ns[ns].settled(
                self.authentications,
            )
    }

    /// The configuration that the policy resources ask for a port of a known pod.
    pub open spec fn asked_of_pod(
        self,
        namespace: Text,
        pod: Text,
        port: u16,
    ) -> InboundServerModel {
        let ns = self.namespaces.by_ns[namespace];
        ns.pods[pod].asked(ns.policy, self.authentications, port)
    }

    /// The configuration that the policy resources ask for a port of a known
    /// external group.
    pub open spec fn asked_of_group(
        self,
        namespace: Text,
        name: Text,
        port: u16,
    ) -> InboundServerModel {
        let ns = self.namespaces.by_ns[namespace];
        ns.external[name].asked(ns.policy, self.authentications, name, port)
    }

    /// An index in which nothing is known is consistent.
    pub proof fn new_is_consistent(cluster: ClusterInfoModel)
        ensures
            IndexModel::new(cluster).consistent(),
    {
    }

    /// Whether a namespace, if it is known, is kept as it should be, and settled if
    /// that is asked.
    spec fn ns_kept(self, ns: Text, settled: bool) -> bool {
        self.namespaces.by_ns.contains_key(ns) ==> {
            &&& self.namespaces.by_ns[ns].kept(ns, self.cluster)
            &&& settled ==> self.namespaces.by_ns[ns].settled(self.authentications)
        }
    }

    /// A namespace that is as it was, in an index that is otherwise as it was, is
    /// kept as it should be if it was.
    proof fn same_is_kept(self, after: IndexModel, ns: Text)
        requires
            self.kept(),
            self.same_but_namespaces(after),
            self.ns_same(after, ns),
        ensures
            after.ns_kept(ns, self.consistent()),
    {
    }

    /// A namespace whose policy resources have changed is kept as it should be.
    proof fn ns_changed_is_kept(self, after: IndexModel, ns: Text, change: PolicyChangeModel)
        requires
            self.kept(),
            self.same_but_namespaces(after),
            self.ns_changed(after, ns, change),
        ensures
            after.ns_kept(ns, self.consistent()),
    {
        if self.namespaces.by_ns.contains_key(ns) && after.namespaces.by_ns.contains_key(ns) {
            let b = self.namespaces.by_ns[ns];
            let a = after.namespaces.by_ns[ns];
            b.empty_by_change(a, change, self.authentications);
            b.followed_is_settled(a, change, self.authentications);
        }
    }

    /// A namespace whose policy resources have changed, and which may be new, is
    /// kept as it should be if the change leaves any.
    proof fn ns_or_default_changed_is_kept(
        self,
        after: IndexModel,
        ns: Text,
        change: PolicyChangeModel,
    )
        requires
            self.kept(),
            self.same_but_namespaces(after),
            self.ns_or_default_changed(after, ns, change),
            !self.namespaces.get_or_default(ns).policy.changed(
                change,
                self.namespaces.get_or_default(ns).policy.walk,
            ).is_empty(),
        ensures
            after.ns_kept(ns, self.consistent()),
    {
        let b = self.namespaces.get_or_default(ns);
        let a = after.namespaces.by_ns[ns];
        b.empty_by_change(a, change, self.authentications);
        b.followed_is_settled(a, change, self.authentications);
    }

    /// An index in which only one namespace has changed stays kept and consistent
    /// if that namespace is.
    proof fn only_ns_is_kept(self, after: IndexModel, ns: Text)
        requires
            self.kept(),
            self.only_ns(after, ns),
            after.ns_kept(ns, self.consistent()),
        ensures
            after.kept(),
            self.consistent() ==> after.consistent(),
    {
        assert forall|other: Text| #[trigger]
            after.namespaces.by_ns.contains_key(other) implies after.ns_kept(
            other,
            self.consistent(),
        ) by {
            if other != ns {
                assert(self.ns_same(after, other));
                self.same_is_kept(after, other);
            }
        }
    }

    /// An index stays kept and consistent when the policy resources of a namespace
    /// change that need not be known.
    pub proof fn stays_consistent_if_known(
        self,
        after: IndexModel,
        ns: Text,
        change: PolicyChangeModel,
    )
        requires
            self.kept(),
            self.only_ns(after, ns),
            self.ns_changed(after, ns, change),
        ensures
            after.kept(),
            self.consistent() ==> after.consistent(),
    {
        self.ns_changed_is_kept(after, ns, change);
        self.only_ns_is_kept(after, ns);
    }

    /// An index stays kept and consistent when a policy resource is applied.
    pub proof fn stays_consistent_when_applied<T: PolicyResource>(
        self,
        after: IndexModel,
        ns: Text,
        key: <T::Key as DeepView>::V,
        value: <T as DeepView>::V,
    )
        requires
            self.kept(),
            self.only_ns(after, ns),
            self.ns_or_default_changed(after, ns, T::change_of(ChangeModel::Update(key, value))),
        ensures
            after.kept(),
            self.consistent() ==> after.consistent(),
    {
        let b = self.namespaces.get_or_default(ns).policy;
        let c = ChangeModel::Update(key, value);
        T::something_is_left(b, c, b.walk);
        self.ns_or_default_changed_is_kept(after, ns, T::change_of(c));
        self.only_ns_is_kept(after, ns);
    }

    /// An index stays kept and consistent when the policy resources of a kind are
    /// listed.
    pub proof fn stays_consistent_when_reset<T: PolicyResource>(
        self,
        after: IndexModel,
        updates: Map<Text, NsUpdateModel<<T::Key as DeepView>::V, <T as DeepView>::V>>,
    )
        requires
            self.kept(),
            self.same_but_namespaces(after),
            forall|ns: Text| #[trigger] self.ns_reset::<T>(after, ns, updates),
        ensures
            after.kept(),
            self.consistent() ==> after.consistent(),
    {
        assert forall|ns: Text| #[trigger]
            after.namespaces.by_ns.contains_key(ns) implies after.ns_kept(
            ns,
            self.consistent(),
        ) by {
            assert(self.ns_reset::<T>(after, ns, updates));
            if !updates.contains_key(ns) {
                self.same_is_kept(after, ns);
            } else if updates[ns].added.len() == 0 {
                self.ns_changed_is_kept(after, ns, T::change_of(ChangeModel::Clear));
            } else {
                let b = self.namespaces.get_or_default(ns).policy;
                let c = ChangeModel::Replace(updates[ns]);
                T::something_is_left(b, c, b.walk);
                self.ns_or_default_changed_is_kept(after, ns, T::change_of(c));
            }
        }
    }

    /// An index stays kept and consistent when a pod is applied, whether or not
    /// that is legal.
    pub proof fn stays_consistent_with_pod(
        self,
        after: IndexModel,
        ns: Text,
        name: Text,
        meta: MetaModel,
        port_names: Map<Text, Set<u16>>,
        probes: Map<u16, Seq<Text>>,
    )
        requires
            self.kept(),
            self.only_ns(after, ns),
            after.namespaces.by_ns.contains_key(ns),
            self.namespaces.get_or_default(ns).pod_applied(
                after.namespaces.by_ns[ns],
                name,
                updated_pod(
                    self.namespaces.get_or_default(ns).pods,
                    name,
                    meta,
                    port_names,
                    probes,
                ),
                self.authentications,
            ),
        ensures
            after.kept(),
            self.consistent() ==> after.consistent(),
    {
        let b = self.namespaces.get_or_default(ns);
        let a = after.namespaces.by_ns[ns];
        if let Ok(Some(pod)) = updated_pod(b.pods, name, meta, port_names, probes) {
            if b.pods.contains_key(name) {
                b.pods[name].named_agrees(b.policy);
            }
            assert forall|port: u16| #[trigger] pod.name_agrees(port) by {
                assert(b.pods.contains_key(name) ==> b.pods[name].name_agrees(port));
            }
            pod.reindexed_is_settled(a.pods[name], b.policy, self.authentications);
            assert(!a.is_empty());
        }
        self.only_ns_is_kept(after, ns);
    }

    /// An index stays kept and consistent when an external group is applied,
    /// whether or not that is legal.
    pub proof fn stays_consistent_with_group(
        self,
        after: IndexModel,
        ns: Text,
        name: Text,
        meta: MetaModel,
        ports: Seq<u16>,
    )
        requires
            self.kept(),
            self.only_ns(after, ns),
            after.namespaces.by_ns.contains_key(ns),
            self.namespaces.get_or_default(ns).group_applied(
                after.namespaces.by_ns[ns],
                name,
                updated_group(self.namespaces.get_or_default(ns).external, name, meta, ports),
                self.authentications,
            ),
        ensures
            after.kept(),
            self.consistent() ==> after.consistent(),
    {
        let b = self.namespaces.get_or_default(ns);
        let a = after.namespaces.by_ns[ns];
        if let Ok(Some(group)) = updated_group(b.external, name, meta, ports) {
            if b.external.contains_key(name) {
                b.external[name].named_agrees(name);
            }
            assert forall|port: u16| #[trigger] group.name_agrees(port) by {
                assert(b.external.contains_key(name) ==> b.external[name].name_agrees(port));
            }
            group.reindexed_is_settled(a.external[name], b.policy, self.authentications, name);
            assert(!a.is_empty());
        }
        self.only_ns_is_kept(after, ns);
    }

    /// An index stays kept and consistent when a pod or an external group is
    /// deleted.
    pub proof fn stays_consistent_without(self, after: IndexModel, ns: Text, name: Text)
        requires
            self.kept(),
            self.pod_deleted(after, ns, name) || self.group_deleted(after, ns, name),
        ensures
            after.kept(),
            self.consistent() ==> after.consistent(),
    {
        self.only_ns_is_kept(after, ns);
    }

    /// A pod that is deleted is not found any more. Nothing else changes, but that
    /// its namespace is forgotten if nothing is left of it; and nothing at all
    /// changes if the pod was not known.
    pub proof fn deleted_pod_is_gone(self, after: IndexModel, ns: Text, name: Text, other: Text)
        requires
            self.pod_deleted(after, ns, name),
        ensures
            after.find_pod(ns, name) is Err,
            self.find_pod(ns, name) is Err ==> after == self,
            other != ns ==> self.ns_same(after, other),
            self.find_pod(ns, name) is Ok ==> {
                let b = self.namespaces.by_ns[ns];
                let left = NamespaceModel { pods: b.pods.remove(name), ..b };
                &&& after.namespaces.by_ns.contains_key(ns) == !left.is_empty()
                &&& !left.is_empty() ==> after.namespaces.by_ns[ns] == left
                &&& other != name && b.pods.contains_key(other) ==> after.find_pod(ns, other)
                    == self.find_pod(ns, other)
            },
    {
        self.same_map(after, ns);
        if self.find_pod(ns, name) is Ok && other != name {
            let b = self.namespaces.by_ns[ns];
            assert(b.pods.contains_key(other) ==> b.pods.remove(name).contains_key(other));
        }
    }

    /// An external group that is deleted is not found any more. Nothing else
    /// changes, but that its namespace is forgotten if nothing is left of it; and
    /// nothing at all changes if the group was not known.
    pub proof fn deleted_group_is_gone(self, after: IndexModel, ns: Text, name: Text, other: Text)
        requires
            self.group_deleted(after, ns, name),
        ensures
            after.find_group(ns, name) is Err,
            self.find_group(ns, name) is Err ==> after == self,
            other != ns ==> self.ns_same(after, other),
            self.find_group(ns, name) is Ok ==> {
                let b = self.namespaces.by_ns[ns];
                let left = NamespaceModel { external: b.external.remove(name), ..b };
                &&& after.namespaces.by_ns.contains_key(ns) == !left.is_empty()
                &&& !left.is_empty() ==> after.namespaces.by_ns[ns] == left
                &&& other != name && b.external.contains_key(other) ==> after.find_group(ns, other)
                    == self.find_group(ns, other)
            },
    {
        self.same_map(after, ns);
        if self.find_group(ns, name) is Ok && other != name {
            let b = self.namespaces.by_ns[ns];
            assert(b.external.contains_key(other) ==> b.external.remove(name).contains_key(other));
        }
    }

    /// The watches of a pod that is deleted complete: whoever follows the
    /// channel of one of its ports finds it closed.
    pub proof fn watches_of_deleted_pod_complete(
        self,
        ns: Text,
        name: Text,
        port: u16,
        rx: watch::Receiver<InboundServer>,
    )
        requires
            self.find_pod(ns, name) is Ok,
            self.find_pod(ns, name)->Ok_0.port_servers.contains_key(port),
            subscription(rx).id == self.find_pod(ns, name)->Ok_0.port_servers[port].channel.id,
        ensures
            ({
                let closed = closed_ends(self.find_pod(ns, name)->Ok_0.port_servers);
                &&& closed.contains_key(port)
                &&& closed[port].channel.id == subscription(rx).id
                &&& !closed[port].open
            }),
    {
    }

    /// The watches of an external group that is deleted complete: whoever follows the
    /// channel of one of its ports finds it closed.
    pub proof fn watches_of_deleted_group_complete(
        self,
        ns: Text,
        name: Text,
        port: u16,
        rx: watch::Receiver<InboundServer>,
    )
        requires
            self.find_group(ns, name) is Ok,
            self.find_group(ns, name)->Ok_0.port_servers.contains_key(port),
            subscription(rx).id == self.find_group(ns, name)->Ok_0.port_servers[port].channel.id,
        ensures
            ({
                let closed = closed_ends(self.find_group(ns, name)->Ok_0.port_servers);
                &&& closed.contains_key(port)
                &&& closed[port].channel.id == subscription(rx).id
                &&& !closed[port].open
            }),
    {
    }

    /// An index in which only one namespace may have changed, and has not, is as
    /// it was.
    proof fn same_map(self, after: IndexModel, ns: Text)
        requires
            self.only_ns(after, ns),
        ensures
            self.ns_same(after, ns) ==> after == self,
    {
        if self.ns_same(after, ns) {
            assert forall|other: Text|
                #![trigger self.namespaces.by_ns.contains_key(other)]
                #![trigger after.namespaces.by_ns.contains_key(other)]
                {
                    &&& after.namespaces.by_ns.contains_key(other)
                        == self.namespaces.by_ns.contains_key(other)
                    &&& self.namespaces.by_ns.contains_key(other)
                        ==> after.namespaces.by_ns[other] == self.namespaces.by_ns[other]
                } by {
                assert(self.ns_same(after, other));
            }
            assert(after.namespaces.by_ns =~= self.namespaces.by_ns);
        }
    }

    /// An index stays kept and consistent when a client asks for a port of a pod,
    /// and from a consistent one the client gets the configuration that the policy
    /// resources ask for.
    pub proof fn stays_consistent_with_port(
        self,
        after: IndexModel,
        ns: Text,
        name: Text,
        pod: PodModel,
        port: u16,
    )
        requires
            self.kept(),
            self.find_pod(ns, name) is Ok,
            after == self.with_pod(ns, name, pod),
            self.find_pod(ns, name)->Ok_0.port_discovered(pod, port, self.cluster),
        ensures
            after.kept(),
            self.consistent() ==> after.consistent(),
            self.consistent() ==> pod.port_servers[port].channel.value == self.asked_of_pod(
                ns,
                name,
                port,
            ),
    {
        let b = self.namespaces.by_ns[ns];
        b.pods[name].discovered_is_named(pod, port, b.policy, self.cluster);
        if self.consistent() {
            b.pods[name].discovered_is_settled(pod, port, b.policy, self.authentications);
        }
        assert(after.namespaces.by_ns[ns].pods.contains_key(name));
        assert(!after.namespaces.by_ns[ns].is_empty());
        assert forall|other: Text| other != ns implies #[trigger] self.ns_same(after, other) by {}
        self.only_ns_is_kept(after, ns);
    }

    /// An index stays kept and consistent when a client asks for a port of an
    /// external group, and from a consistent one the client gets the configuration
    /// that the policy resources ask for.
    pub proof fn stays_consistent_with_group_port(
        self,
        after: IndexModel,
        ns: Text,
        name: Text,
        group: ExternalGroupModel,
        port: u16,
    )
        requires
            self.kept(),
            self.find_group(ns, name) is Ok,
            after == self.with_group(ns, name, group),
            self.find_group(ns, name)->Ok_0.port_discovered(group, port, self.cluster),
        ensures
            after.kept(),
            self.consistent() ==> after.consistent(),
            self.consistent() ==> group.port_servers[port].channel.value == self.asked_of_group(
                ns,
                name,
                port,
            ),
    {
        let b = self.namespaces.by_ns[ns];
        b.external[name].discovered_is_named(group, port, self.cluster, name);
        if self.consistent() {
            b.external[name].discovered_is_settled(
                group,
                port,
                b.policy,
                self.authentications,
                name,
            );
        }
        assert(after.namespaces.by_ns[ns].external.contains_key(name));
        assert(!after.namespaces.by_ns[ns].is_empty());
        assert forall|other: Text| other != ns implies #[trigger] self.ns_same(after, other) by {}
        self.only_ns_is_kept(after, ns);
    }

    /// To ask for a known port of a pod changes nothing.
    pub proof fn asking_again_changes_nothing(
        self,
        after: IndexModel,
        ns: Text,
        name: Text,
        pod: PodModel,
        port: u16,
    )
        requires
            self.find_pod(ns, name) is Ok,
            self.find_pod(ns, name)->Ok_0.port_servers.contains_key(port),
            self.find_pod(ns, name)->Ok_0.port_discovered(pod, port, self.cluster),
            after == self.with_pod(ns, name, pod),
        ensures
            after == self,
    {
        let b = self.namespaces.by_ns[ns];
        assert(pod.port_servers =~= b.pods[name].port_servers);
        assert(b.pods.insert(name, pod) =~= b.pods);
    }

    /// To ask for a known port of an external group changes nothing.
    pub proof fn asking_a_group_again_changes_nothing(
        self,
        after: IndexModel,
        ns: Text,
        name: Text,
        group: ExternalGroupModel,
        port: u16,
    )
        requires
            self.find_group(ns, name) is Ok,
            self.find_group(ns, name)->Ok_0.port_servers.contains_key(port),
            self.find_group(ns, name)->Ok_0.port_discovered(group, port, self.cluster),
            after == self.with_group(ns, name, group),
        ensures
            after == self,
    {
        let b = self.namespaces.by_ns[ns];
        assert(group.port_servers =~= b.external[name].port_servers);
        assert(b.external.insert(name, group) =~= b.external);
    }

    /// An index stays kept when the authentications change. Where everything is
    /// configured anew, it comes to be consistent, and where they have not changed
    /// after all it stays so.
    pub proof fn stays_consistent_with_authentications(self, after: IndexModel, anew: bool)
        requires
            self.kept(),
            no_empty_namespace(after.authentications),
            self.followed_authentications(after, anew),
        ensures
            after.kept(),
            anew ==> after.consistent(),
            self.consistent() && after.authentications == self.authentications
                ==> after.consistent(),
    {
        if anew {
            assert forall|ns: Text| #[trigger]
                after.namespaces.by_ns.contains_key(ns) implies after.ns_kept(ns, true) by {
                assert(self.namespaces.by_ns.contains_key(ns));
                let b = self.namespaces.by_ns[ns];
                let a = after.namespaces.by_ns[ns];
                b.named_agrees();
                b.reindexed_is_settled(a, after.authentications);
                b.reindexed_is_empty(a, after.authentications);
            }
        }
    }
}

/// What is set leaves no namespace without authentications.
pub proof fn with_leaves_no_empty_namespace(
    authns: AuthenticationsModel,
    ns: Text,
    name: Text,
    ids: Seq<IdentityMatchModel>,
    nets: Seq<NetworkMatchModel>,
)
    requires
        no_empty_namespace(authns),
    ensures
        no_empty_namespace(with_meshtls(authns, ns, name, ids)),
        no_empty_namespace(with_network(authns, ns, name, nets)),
{
    assert(with_meshtls(authns, ns, name, ids)[ns].meshtls.contains_key(name));
    assert(with_network(authns, ns, name, nets)[ns].network.contains_key(name));
}

/// What is listed leaves no namespace without authentications.
pub proof fn with_all_leaves_no_empty_namespace(
    authns: AuthenticationsModel,
    ids: Seq<ListedModel<Text, Seq<IdentityMatchModel>>>,
    nets: Seq<ListedModel<Text, Seq<NetworkMatchModel>>>,
)
    requires
        no_empty_namespace(authns),
    ensures
        no_empty_namespace(with_all_meshtls(authns, ids)),
        no_empty_namespace(with_all_network(authns, nets)),
    decreases ids.len() + nets.len(),
{
    if ids.len() > 0 {
        let last = ids.last();
        with_all_leaves_no_empty_namespace(authns, ids.drop_last(), nets);
        with_leaves_no_empty_namespace(
            with_all_meshtls(authns, ids.drop_last()),
            last.namespace,
            last.key,
            last.value,
            Seq::empty(),
        );
    } else if nets.len() > 0 {
        let last = nets.last();
        with_all_leaves_no_empty_namespace(authns, ids, nets.drop_last());
        with_leaves_no_empty_namespace(
            with_all_network(authns, nets.drop_last()),
            last.namespace,
            last.key,
            Seq::empty(),
            last.value,
        );
    }
}

/// What is deleted leaves no namespace without authentications.
pub proof fn without_leaves_no_empty_namespace(
    authns: AuthenticationsModel,
    ns: Text,
    name: Text,
    deleted: Map<Text, Seq<Text>>,
)
    requires
        no_empty_namespace(authns),
    ensures
        no_empty_namespace(without_network(authns, ns, name)),
        no_empty_namespace(without_meshtls(authns, deleted)),
{
}

} // verus!
