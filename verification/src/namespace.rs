//! Namespaces: their pods, their external groups and their policy resources.
use crate::authentications::{AuthenticationNsIndex, AuthenticationsModel};
use crate::cluster::{ClusterInfo, ClusterInfoModel};
use crate::external::{
    groups_reindexed, updated_group, ExternalGroup, ExternalGroupModel, ExternalIndex, PortsChanged,
};
use crate::meta::Meta;
use crate::pod::{pods_reindexed, updated_pod, Pod, PodIndex, PodModel, PortNamesChanged};
use crate::policy::{PolicyChange, PolicyChangeModel, PolicyIndex, PolicyModel};
use crate::ports::PortSet;
use crate::table::{lists, NameTable, PortTable};
use crate::value::Text;
use std::sync::Arc;
use vstd::prelude::*;

verus! {

/// A namespace.
#[derive(Debug)]
pub struct Namespace {
    pods: PodIndex,
    external: ExternalIndex,
    policy: PolicyIndex,
}

/// What a [`Namespace`] means.
#[verifier::ext_equal]
pub struct NamespaceModel {
    pub pods: Map<Text, PodModel>,
    pub external: Map<Text, ExternalGroupModel>,
    pub policy: PolicyModel,
}

impl DeepView for Namespace {
    type V = NamespaceModel;

    closed spec fn deep_view(&self) -> NamespaceModel {
        NamespaceModel {
            pods: self.pods.deep_view(),
            external: self.external.deep_view(),
            policy: self.policy.deep_view(),
        }
    }
}

impl NamespaceModel {
    /// A namespace without resources.
    pub open spec fn new(namespace: Text, cluster: ClusterInfoModel) -> NamespaceModel {
        NamespaceModel {
            pods: Map::empty(),
            external: Map::empty(),
            policy: PolicyModel::new(namespace, cluster),
        }
    }

    /// Whether the namespace has no resources.
    pub open spec fn is_empty(self) -> bool {
        &&& self.pods == Map::<Text, PodModel>::empty()
        &&& self.external == Map::<Text, ExternalGroupModel>::empty()
        &&& self.policy.is_empty()
    }

    /// Whether the namespace has come to be configured as its policy resources
    /// ask.
    pub open spec fn reindexed(self, after: NamespaceModel, authns: AuthenticationsModel) -> bool {
        &&& after.policy == self.policy
        &&& pods_reindexed(self.pods, after.pods, self.policy, authns)
        &&& groups_reindexed(self.external, after.external, self.policy, authns)
    }

    /// The namespace with its policy resources changed. Where its servers
    /// change, `walk` is the order in which they are met from then on.
    pub open spec fn changed(self, change: PolicyChangeModel, walk: Seq<Text>) -> NamespaceModel {
        NamespaceModel { policy: self.policy.changed(change, walk), ..self }
    }

    /// Whether the namespace has come through a change of its policy resources:
    /// if that is reported they have changed, and everything is configured as they
    /// now ask; if not, there was nothing to change.
    pub open spec fn followed(
        self,
        after: NamespaceModel,
        change: PolicyChangeModel,
        authns: AuthenticationsModel,
    ) -> bool {
        &&& after.policy.well_formed()
        &&& if self.policy.reports(change) {
            self.changed(change, after.policy.walk).reindexed(after, authns)
        } else {
            after == self
        }
    }

    /// What applying a pod makes of the namespace: a pod that is new, or whose
    /// metadata changes, is configured as the policy resources ask; nothing else
    /// changes.
    pub open spec fn pod_applied(
        self,
        after: NamespaceModel,
        name: Text,
        update: Result<Option<PodModel>, ()>,
        authns: AuthenticationsModel,
    ) -> bool {
        match update {
            Ok(Some(pod)) => {
                &&& after.pods.contains_key(name)
                &&& after == (NamespaceModel {
                    pods: self.pods.insert(name, after.pods[name]),
                    ..self
                })
                &&& pod.reindexed(after.pods[name], self.policy, authns)
            },
            _ => after == self,
        }
    }

    /// What applying an external group makes of the namespace: a group that is
    /// new, or whose metadata changes, is configured as the policy resources ask;
    /// nothing else changes.
    pub open spec fn group_applied(
        self,
        after: NamespaceModel,
        name: Text,
        update: Result<Option<ExternalGroupModel>, ()>,
        authns: AuthenticationsModel,
    ) -> bool {
        match update {
            Ok(Some(group)) => {
                &&& after.external.contains_key(name)
                &&& after == (NamespaceModel {
                    external: self.external.insert(name, after.external[name]),
                    ..self
                })
                &&& group.reindexed(after.external[name], self.policy, authns, name)
            },
            _ => after == self,
        }
    }

    /// The namespace if it has resources.
    pub open spec fn unless_empty(self) -> Option<NamespaceModel> {
        if self.is_empty() {
            None
        } else {
            Some(self)
        }
    }

    /// What is left of the namespace without a pod, if anything is.
    pub open spec fn without_pod(self, name: Text) -> Option<NamespaceModel> {
        if self.pods.contains_key(name) {
            (NamespaceModel { pods: self.pods.remove(name), ..self }).unless_empty()
        } else {
            Some(self)
        }
    }

    /// What is left of the namespace without an external group, if anything is.
    pub open spec fn without_group(self, name: Text) -> Option<NamespaceModel> {
        if self.external.contains_key(name) {
            (NamespaceModel { external: self.external.remove(name), ..self }).unless_empty()
        } else {
            Some(self)
        }
    }

    /// Whether everything is configured as the policy resources ask.
    pub open spec fn settled(self, authns: AuthenticationsModel) -> bool {
        &&& forall|name: Text| #[trigger]
            self.pods.contains_key(name) ==> self.pods[name].settled(self.policy, authns)
        &&& forall|name: Text| #[trigger]
            self.external.contains_key(name) ==> self.external[name].settled(
                self.policy,
                authns,
                name,
            )
    }

    /// Whether every port goes by the name of what configures it, and has none
    /// where that is the default.
    pub open spec fn named(self) -> bool {
        &&& forall|name: Text| #[trigger]
            self.pods.contains_key(name) ==> self.pods[name].named(self.policy)
        &&& forall|name: Text| #[trigger]
            self.external.contains_key(name) ==> self.external[name].named(name)
    }

    /// Whether no port has a name that what it holds does not go by.
    pub open spec fn names_agree(self) -> bool {
        &&& forall|name: Text| #[trigger]
            self.pods.contains_key(name) ==> self.pods[name].names_agree()
        &&& forall|name: Text| #[trigger]
            self.external.contains_key(name) ==> self.external[name].names_agree()
    }

    /// Whether the namespace is kept as it should be: it has resources, its
    /// policies know where they are, and its ports go by the names of what
    /// configures them.
    pub open spec fn kept(self, namespace: Text, cluster: ClusterInfoModel) -> bool {
        &&& !self.is_empty()
        &&& self.policy.namespace == namespace
        &&& self.policy.cluster == cluster
        &&& self.policy.well_formed()
        &&& self.named()
    }

    /// Where every port goes by the name of what configures it, what it holds goes
    /// by that name.
    pub proof fn named_agrees(self)
        requires
            self.named(),
        ensures
            self.names_agree(),
    {
        assert forall|name: Text| #[trigger]
            self.pods.contains_key(name) implies self.pods[name].names_agree() by {
            self.pods[name].named_agrees(self.policy);
        }
        assert forall|name: Text| #[trigger]
            self.external.contains_key(name) implies self.external[name].names_agree() by {
            self.external[name].named_agrees(name);
        }
    }

    /// Once a namespace has been configured, everything in it is settled, however
    /// it was configured before.
    pub proof fn reindexed_is_settled(self, after: NamespaceModel, authns: AuthenticationsModel)
        requires
            self.names_agree(),
            self.reindexed(after, authns),
        ensures
            after.settled(authns),
            after.named(),
    {
        assert forall|name: Text| #[trigger]
            after.pods.contains_key(name) implies after.pods[name].settled(after.policy, authns)
            && after.pods[name].named(after.policy) by {
            assert(self.pods.contains_key(name));
            self.pods[name].reindexed_is_settled(after.pods[name], self.policy, authns);
        }
        assert forall|name: Text| #[trigger]
            after.external.contains_key(name) implies after.external[name].settled(
            after.policy,
            authns,
            name,
        ) && after.external[name].named(name) by {
            assert(self.external.contains_key(name));
            self.external[name].reindexed_is_settled(
                after.external[name],
                self.policy,
                authns,
                name,
            );
        }
    }

    /// Whatever changes among its policy resources, the ports of a namespace go by
    /// the names of what configures them, and a namespace that is settled stays
    /// so. One that is not comes to be if the change is reported.
    pub proof fn followed_is_settled(
        self,
        after: NamespaceModel,
        change: PolicyChangeModel,
        authns: AuthenticationsModel,
    )
        requires
            self.named(),
            self.followed(after, change, authns),
        ensures
            after.named(),
            self.settled(authns) || self.policy.reports(change) ==> after.settled(authns),
    {
        if self.policy.reports(change) {
            let changed = self.changed(change, after.policy.walk);
            self.named_agrees();
            assert(changed.names_agree());
            changed.reindexed_is_settled(after, authns);
        }
    }

    /// Whatever changes among its policy resources, a namespace keeps its pods and
    /// their known ports, each on the same channel: clients go on following it, and
    /// are told at most once.
    pub proof fn followed_keeps_pod_channels(
        self,
        after: NamespaceModel,
        change: PolicyChangeModel,
        authns: AuthenticationsModel,
        name: Text,
        port: u16,
    )
        requires
            self.followed(after, change, authns),
        ensures
            after.pods.contains_key(name) == self.pods.contains_key(name),
            self.pods.contains_key(name) && self.pods[name].port_servers.contains_key(port) ==> {
                &&& after.pods[name].port_servers.contains_key(port)
                &&& after.pods[name].port_servers[port].channel.id
                    == self.pods[name].port_servers[port].channel.id
                &&& after.pods[name].port_servers[port].channel.updates
                    <= self.pods[name].port_servers[port].channel.updates + 1
            },
    {
        if self.policy.reports(change) {
            let changed = self.changed(change, after.policy.walk);
            assert(changed.pods.contains_key(name) == after.pods.contains_key(name));
            if self.pods.contains_key(name) && self.pods[name].port_servers.contains_key(port) {
                self.pods[name].reindexed_keeps_channels(
                    after.pods[name],
                    changed.policy,
                    authns,
                    port,
                );
            }
        }
    }

    /// Whatever changes among its policy resources, a namespace keeps its external
    /// groups and their known ports, each on the same channel: clients go on
    /// following it, and are told at most once.
    pub proof fn followed_keeps_group_channels(
        self,
        after: NamespaceModel,
        change: PolicyChangeModel,
        authns: AuthenticationsModel,
        name: Text,
        port: u16,
    )
        requires
            self.followed(after, change, authns),
        ensures
            after.external.contains_key(name) == self.external.contains_key(name),
            self.external.contains_key(name) && self.external[name].port_servers.contains_key(port)
                ==> {
                &&& after.external[name].port_servers.contains_key(port)
                &&& after.external[name].port_servers[port].channel.id
                    == self.external[name].port_servers[port].channel.id
                &&& after.external[name].port_servers[port].channel.updates
                    <= self.external[name].port_servers[port].channel.updates + 1
            },
    {
        if self.policy.reports(change) {
            let changed = self.changed(change, after.policy.walk);
            assert(changed.external.contains_key(name) == after.external.contains_key(name));
            if self.external.contains_key(name) && self.external[name].port_servers.contains_key(
                port,
            ) {
                self.external[name].reindexed_keeps_channels(
                    after.external[name],
                    changed.policy,
                    authns,
                    name,
                    port,
                );
            }
        }
    }

    /// A namespace that has come through a change has resources left if the
    /// change leaves any.
    pub proof fn empty_by_change(
        self,
        after: NamespaceModel,
        change: PolicyChangeModel,
        authns: AuthenticationsModel,
    )
        requires
            self.followed(after, change, authns),
        ensures
            after.is_empty() == self.changed(change, self.policy.walk).is_empty(),
    {
        self.policy.unreported_is_none(change);
        if self.policy.reports(change) {
            self.changed(change, after.policy.walk).reindexed_is_empty(after, authns);
        }
    }

    /// A namespace that has been configured anew has resources if it had any.
    pub proof fn reindexed_is_empty(self, after: NamespaceModel, authns: AuthenticationsModel)
        requires
            self.reindexed(after, authns),
        ensures
            after.is_empty() == self.is_empty(),
    {
        if after.pods.dom() == Set::<Text>::empty() {
            assert(after.pods =~= Map::empty());
        }
        if self.pods.dom() == Set::<Text>::empty() {
            assert(self.pods =~= Map::empty());
        }
        if after.external.dom() == Set::<Text>::empty() {
            assert(after.external =~= Map::empty());
        }
        if self.external.dom() == Set::<Text>::empty() {
            assert(self.external =~= Map::empty());
        }
    }
}

impl Namespace {
    /// A namespace without resources.
    pub fn new(namespace: String, cluster_info: Arc<ClusterInfo>) -> (r: Self)
        ensures
            r.deep_view() == NamespaceModel::new(namespace@, cluster_info.deep_view()),
    {
        Namespace {
            pods: PodIndex::new(),
            external: ExternalIndex::new(),
            policy: PolicyIndex::new(namespace, cluster_info),
        }
    }

    /// Whether the namespace has no resources.
    pub fn is_empty(&self) -> (r: bool)
        ensures
            r == self.deep_view().is_empty(),
    {
        self.pods.is_empty() && self.external.is_empty() && self.policy.is_empty()
    }

    /// Has everything configured as the policy resources ask.
    pub fn reindex(&mut self, authns: &AuthenticationNsIndex)
        ensures
            old(self).deep_view().reindexed(final(self).deep_view(), authns.deep_view()),
    {
        self.pods.reindex(&self.policy, authns);
        self.external.reindex(&self.policy, authns);
    }

    /// Changes the policy resources and, if that is to be reported, has
    /// everything configured as they now ask.
    fn follow(&mut self, change: PolicyChange, authns: &AuthenticationNsIndex)
        ensures
            old(self).deep_view().followed(
                final(self).deep_view(),
                change.deep_view(),
                authns.deep_view(),
            ),
    {
        if self.policy.change(change) {
            self.reindex(authns);
        }
    }
}

impl Namespace {
    /// The pods of the namespace.
    pub fn pods_mut(&mut self) -> (r: &mut PodIndex)
        ensures
            r.deep_view() == old(self).deep_view().pods,
            final(self).deep_view() == (NamespaceModel {
                pods: final(r).deep_view(),
                ..old(self).deep_view()
            }),
    {
        &mut self.pods
    }

    /// The external groups of the namespace.
    pub fn external_mut(&mut self) -> (r: &mut ExternalIndex)
        ensures
            r.deep_view() == old(self).deep_view().external,
            final(self).deep_view() == (NamespaceModel {
                external: final(r).deep_view(),
                ..old(self).deep_view()
            }),
    {
        &mut self.external
    }

    /// Adds a pod, or updates a known one. If that changes it, it is configured
    /// as the policy resources ask.
    pub fn apply_pod(
        &mut self,
        name: &String,
        meta: Meta,
        port_names: NameTable<PortSet>,
        probes: PortTable<Vec<String>>,
        authns: &AuthenticationNsIndex,
    ) -> (r: Result<(), PortNamesChanged>)
        ensures
            ({
                let update = updated_pod(
                    old(self).deep_view().pods,
                    name@,
                    meta.deep_view(),
                    port_names.deep_view(),
                    probes.deep_view(),
                );
                &&& old(self).deep_view().pod_applied(
                    final(self).deep_view(),
                    name@,
                    update,
                    authns.deep_view(),
                )
                &&& r is Err <==> update is Err
                &&& r matches Err(e) ==> e.pod@ == name@
            }),
    {
        match self.pods.update(name, meta, port_names, probes) {
            Ok(None) => Ok(()),
            Ok(Some(pod)) => {
                pod.reindex_servers(&self.policy, authns);
                Ok(())
            },
            Err(error) => Err(error),
        }
    }

    /// Adds an external group, or updates a known one. If that changes it, it is
    /// configured as the policy resources ask.
    pub fn apply_group(
        &mut self,
        name: &String,
        meta: Meta,
        ports: Vec<u16>,
        authns: &AuthenticationNsIndex,
    ) -> (r: Result<(), PortsChanged>)
        ensures
            ({
                let update = updated_group(
                    old(self).deep_view().external,
                    name@,
                    meta.deep_view(),
                    ports@,
                );
                &&& old(self).deep_view().group_applied(
                    final(self).deep_view(),
                    name@,
                    update,
                    authns.deep_view(),
                )
                &&& r is Err <==> update is Err
                &&& r matches Err(e) ==> e.group@ == name@
            }),
    {
        match self.external.update(name, meta, ports) {
            Ok(None) => Ok(()),
            Ok(Some(group)) => {
                group.reindex_policy(name, &self.policy, authns);
                Ok(())
            },
            Err(error) => Err(error),
        }
    }
}

/// All namespaces.
#[derive(Debug)]
pub struct NamespaceIndex {
    cluster_info: Arc<ClusterInfo>,
    by_ns: NameTable<Namespace>,
}

/// What a [`NamespaceIndex`] means.
#[verifier::ext_equal]
pub struct NamespacesModel {
    pub cluster: ClusterInfoModel,
    pub by_ns: Map<Text, NamespaceModel>,
}

impl DeepView for NamespaceIndex {
    type V = NamespacesModel;

    closed spec fn deep_view(&self) -> NamespacesModel {
        NamespacesModel {
            cluster: self.cluster_info.deep_view(),
            by_ns: self.by_ns.deep_view(),
        }
    }
}

/// What a change of its policy resources makes of a namespace. One that is not
/// known stays so, and one without resources is forgotten.
pub open spec fn changed_if_known(
    before: Option<NamespaceModel>,
    after: Option<NamespaceModel>,
    change: PolicyChangeModel,
    authns: AuthenticationsModel,
) -> bool {
    match before {
        None => after is None,
        Some(ns) => if ns.changed(change, ns.policy.walk).is_empty() {
            after is None
        } else {
            after matches Some(after) && ns.followed(after, change, authns)
        },
    }
}

impl NamespacesModel {
    /// A namespace, as it is known or without resources.
    pub open spec fn get_or_default(self, namespace: Text) -> NamespaceModel {
        if self.by_ns.contains_key(namespace) {
            self.by_ns[namespace]
        } else {
            NamespaceModel::new(namespace, self.cluster)
        }
    }

    /// Whether every namespace has come to be configured as its policy resources
    /// ask.
    pub open spec fn reindexed(self, after: NamespacesModel, authns: AuthenticationsModel) -> bool {
        &&& after.cluster == self.cluster
        &&& after.by_ns.dom() == self.by_ns.dom()
        &&& forall|ns: Text| #[trigger]
            self.by_ns.contains_key(ns) ==> self.by_ns[ns].reindexed(after.by_ns[ns], authns)
    }

    /// Whether nothing but one namespace has changed.
    pub open spec fn same_but(self, after: NamespacesModel, namespace: Text) -> bool {
        &&& after.cluster == self.cluster
        &&& after.by_ns.remove(namespace) == self.by_ns.remove(namespace)
    }
}

impl NamespaceIndex {
    /// No namespaces.
    pub fn new(cluster_info: Arc<ClusterInfo>) -> (r: Self)
        ensures
            r.deep_view() == (NamespacesModel {
                cluster: cluster_info.deep_view(),
                by_ns: Map::empty(),
            }),
    {
        NamespaceIndex { cluster_info, by_ns: NameTable::new() }
    }

    /// A namespace. One that is not known comes to be known, without resources.
    pub fn get_or_default<'a>(&'a mut self, ns: &String) -> (r: &'a mut Namespace)
        ensures
            r.deep_view() == old(self).deep_view().get_or_default(ns@),
            final(self).deep_view() == (NamespacesModel {
                by_ns: old(self).deep_view().by_ns.insert(ns@, final(r).deep_view()),
                ..old(self).deep_view()
            }),
    {
        if self.by_ns.get(ns).is_none() {
            self.by_ns.insert(ns.clone(), Namespace::new(ns.clone(), self.cluster_info.clone()));
        }
        self.by_ns.get_mut(ns).unwrap()
    }

    /// A known namespace.
    pub fn get_mut(&mut self, ns: &String) -> (r: Option<&mut Namespace>)
        ensures
            r is Some <==> old(self).deep_view().by_ns.contains_key(ns@),
            r matches Some(namespace) ==> {
                &&& namespace.deep_view() == old(self).deep_view().by_ns[ns@]
                &&& final(self).deep_view() == (NamespacesModel {
                    by_ns: old(self).deep_view().by_ns.insert(ns@, final(namespace).deep_view()),
                    ..old(self).deep_view()
                })
            },
            r is None ==> final(self).deep_view() == old(self).deep_view(),
    {
        self.by_ns.get_mut(ns)
    }

    /// Takes a pod out, if it is known. Once it is gone, nothing else is to be updated; if nothing
    /// is left of its namespace, that is removed from the index.
    pub fn delete_pod(&mut self, namespace: &String, name: &String) -> (r: Option<Pod>)
        ensures
            old(self).deep_view().same_but(final(self).deep_view(), namespace@),
            match old(self).deep_view().by_ns.get(namespace@) {
                Some(ns) => {
                    &&& r.deep_view() == ns.pods.get(name@)
                    &&& final(self).deep_view().by_ns.get(namespace@) == ns.without_pod(name@)
                },
                None => {
                    &&& r is None
                    &&& final(self).deep_view().by_ns.get(namespace@) is None
                },
            },
    {
        let ghost before = self.deep_view();
        let (r, empty) = match self.by_ns.get_mut(namespace) {
            Some(ns) => {
                let r = ns.pods.remove(name);
                let empty = r.is_some() && ns.is_empty();
                (r, empty)
            },
            None => (None, false),
        };
        if empty {
            let _ = self.by_ns.remove(namespace);
        }
        assert(self.by_ns.deep_view().remove(namespace@) =~= before.by_ns.remove(namespace@));
        r
    }

    /// Takes an external group out, if it is known. Once it is gone, nothing else is to be updated;
    /// if nothing is left of its namespace, that is removed from the index.
    pub fn delete_group(&mut self, namespace: &String, name: &String) -> (r: Option<ExternalGroup>)
        ensures
            old(self).deep_view().same_but(final(self).deep_view(), namespace@),
            match old(self).deep_view().by_ns.get(namespace@) {
                Some(ns) => {
                    &&& r.deep_view() == ns.external.get(name@)
                    &&& final(self).deep_view().by_ns.get(namespace@) == ns.without_group(name@)
                },
                None => {
                    &&& r is None
                    &&& final(self).deep_view().by_ns.get(namespace@) is None
                },
            },
    {
        let ghost before = self.deep_view();
        let (r, empty) = match self.by_ns.get_mut(namespace) {
            Some(ns) => {
                let r = ns.external.remove(name);
                let empty = r.is_some() && ns.is_empty();
                (r, empty)
            },
            None => (None, false),
        };
        if empty {
            let _ = self.by_ns.remove(namespace);
        }
        assert(self.by_ns.deep_view().remove(namespace@) =~= before.by_ns.remove(namespace@));
        r
    }

    /// Changes the policy resources of a namespace, if it is known. If that is
    /// to be reported, all pods in the namespace are reindexed; if nothing is
    /// left of the namespace, it is removed from the index.
    pub fn get_with_reindex(
        &mut self,
        namespace: &String,
        authns: &AuthenticationNsIndex,
        change: PolicyChange,
    )
        ensures
            old(self).deep_view().same_but(final(self).deep_view(), namespace@),
            changed_if_known(
                old(self).deep_view().by_ns.get(namespace@),
                final(self).deep_view().by_ns.get(namespace@),
                change.deep_view(),
                authns.deep_view(),
            ),
    {
        let ghost before = self.deep_view();
        let ghost model = change.deep_view();
        let empty = match self.by_ns.get_mut(namespace) {
            Some(ns) => {
                let ghost old_ns = ns.deep_view();
                ns.follow(change, authns);
                proof {
                    old_ns.empty_by_change(ns.deep_view(), model, authns.deep_view());
                }
                ns.is_empty()
            },
            None => false,
        };
        if empty {
            let _ = self.by_ns.remove(namespace);
        }
        assert(self.by_ns.deep_view().remove(namespace@) =~= before.by_ns.remove(namespace@));
    }

    /// Changes the policy resources of a namespace, which comes to be known if
    /// it is not. If that is to be reported, all pods in the namespace are
    /// reindexed.
    pub fn get_or_default_with_reindex(
        &mut self,
        namespace: &String,
        authns: &AuthenticationNsIndex,
        change: PolicyChange,
    )
        ensures
            old(self).deep_view().same_but(final(self).deep_view(), namespace@),
            final(self).deep_view().by_ns.contains_key(namespace@),
            old(self).deep_view().get_or_default(namespace@).followed(
                final(self).deep_view().by_ns[namespace@],
                change.deep_view(),
                authns.deep_view(),
            ),
    {
        let ghost before = self.deep_view();
        self.get_or_default(namespace).follow(change, authns);
        assert(self.by_ns.deep_view().remove(namespace@) =~= before.by_ns.remove(namespace@));
    }

    /// Has everything in all namespaces configured as the policy resources ask.
    pub fn reindex(&mut self, authns: &AuthenticationNsIndex)
        ensures
            old(self).deep_view().reindexed(final(self).deep_view(), authns.deep_view()),
    {
        let ghost before = self.deep_view();
        let ghost walk = self.by_ns.walk();
        let n: usize = self.by_ns.len();
        let mut i: usize = 0;
        while i < n
            invariant
                i <= n,
                n == walk.len(),
                walk == self.by_ns.walk(),
                lists(walk, before.by_ns.dom()),
                self.deep_view().cluster == before.cluster,
                self.deep_view().by_ns.dom() == before.by_ns.dom(),
                forall|j: int|
                    0 <= j < i ==> before.by_ns[#[trigger] walk[j]].reindexed(
                        self.deep_view().by_ns[walk[j]],
                        authns.deep_view(),
                    ),
                forall|j: int|
                    i <= j < n ==> self.deep_view().by_ns[#[trigger] walk[j]]
                        == before.by_ns[walk[j]],
            decreases n - i,
        {
            self.by_ns.value_at_mut(i).reindex(authns);
            i = i + 1;
        }
    }
}

} // verus!
