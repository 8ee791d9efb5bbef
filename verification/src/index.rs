//! Keeps track of pods, external groups and policy resources to provide a
//! dynamic server configuration for all their known ports.
//!
//! Clients look ports up with [`Index::pod_server_rx`] and
//! [`Index::external_server_rx`]. Everything else tells the index what is there
//! and what is gone.
use crate::authentications::{
    some_meshtls_change, some_network_change, with_all_meshtls, with_all_network, with_meshtls,
    with_network, without_meshtls, without_network, AuthenticationNsIndex, AuthenticationsModel,
};
use crate::authz::{IdentityMatch, NetworkMatch};
use crate::cluster::{ClusterInfo, ClusterInfoModel};
use crate::consistency::{
    with_all_leaves_no_empty_namespace, with_leaves_no_empty_namespace,
    without_leaves_no_empty_namespace,
};
use crate::external::{updated_group, ExternalGroupModel, PortsChanged};
use crate::inbound::InboundServer;
use crate::listing::{
    group_by_ns, keep_valid, updates_by_ns, valid, valid_start, valid_start_of_part, Change,
    ChangeModel, Listed, NsUpdateModel,
};
use crate::meta::{Meta, MetaModel, ObjectMeta};
use crate::namespace::{changed_if_known, NamespaceIndex, NamespaceModel, NamespacesModel};
use crate::pod::{updated_pod, PodModel, PortNamesChanged};
use crate::policy::{PolicyChange, PolicyChangeModel, PolicyResource};
use crate::ports::PortSet;
use crate::route::{GroupKindName, GroupKindNameModel, RouteBinding};
use crate::table::{NameTable, PortTable};
use crate::value::Text;
use crate::watching::{closed_ends, is_open, subscription, PortEnd};
use parking_lot::RwLock;
use std::sync::Arc;
use tokio::sync::watch;
use vstd::prelude::*;

verus! {

/// All that is known.
#[derive(Debug)]
pub struct Index {
    cluster_info: Arc<ClusterInfo>,
    namespaces: NamespaceIndex,
    authentications: AuthenticationNsIndex,
}

/// What an [`Index`] means.
#[verifier::ext_equal]
pub struct IndexModel {
    pub cluster: ClusterInfoModel,
    pub namespaces: NamespacesModel,
    pub authentications: AuthenticationsModel,
}

impl DeepView for Index {
    type V = IndexModel;

    closed spec fn deep_view(&self) -> IndexModel {
        IndexModel {
            cluster: self.cluster_info.deep_view(),
            namespaces: self.namespaces.deep_view(),
            authentications: self.authentications.deep_view(),
        }
    }
}

impl IndexModel {
    /// Nothing is known.
    pub open spec fn new(cluster: ClusterInfoModel) -> IndexModel {
        IndexModel {
            cluster,
            namespaces: NamespacesModel { cluster, by_ns: Map::empty() },
            authentications: Map::empty(),
        }
    }

    /// Whether nothing but what is known of namespaces has changed.
    pub open spec fn same_but_namespaces(self, after: IndexModel) -> bool {
        &&& after.cluster == self.cluster
        &&& after.namespaces.cluster == self.namespaces.cluster
        &&& after.authentications == self.authentications
    }

    /// What becomes of a namespace whose policy resources change, if it is
    /// known.
    pub open spec fn ns_changed(
        self,
        after: IndexModel,
        namespace: Text,
        change: PolicyChangeModel,
    ) -> bool {
        changed_if_known(
            self.namespaces.by_ns.get(namespace),
            after.namespaces.by_ns.get(namespace),
            change,
            self.authentications,
        )
    }

    /// What becomes of a namespace whose policy resources change, and which comes
    /// to be known if it is not.
    pub open spec fn ns_or_default_changed(
        self,
        after: IndexModel,
        namespace: Text,
        change: PolicyChangeModel,
    ) -> bool {
        &&& after.namespaces.by_ns.contains_key(namespace)
        &&& self.namespaces.get_or_default(namespace).followed(
            after.namespaces.by_ns[namespace],
            change,
            self.authentications,
        )
    }

    /// Whether a namespace is as it was.
    pub open spec fn ns_same(self, after: IndexModel, namespace: Text) -> bool {
        after.namespaces.by_ns.get(namespace) == self.namespaces.by_ns.get(namespace)
    }

    /// Whether only one namespace has changed.
    pub open spec fn only_ns(self, after: IndexModel, namespace: Text) -> bool {
        &&& self.same_but_namespaces(after)
        &&& forall|other: Text| other != namespace ==> #[trigger] self.ns_same(after, other)
    }

    /// Whether everything is configured as the policy resources ask, with the
    /// authentications as they now are.
    pub open spec fn all_reindexed(self, after: IndexModel) -> bool {
        self.namespaces.reindexed(after.namespaces, after.authentications)
    }

    /// What becomes of the namespaces where the authentications change:
    /// everything is configured anew if that is asked for, and else nothing
    /// changes.
    pub open spec fn followed_authentications(self, after: IndexModel, anew: bool) -> bool {
        &&& after.cluster == self.cluster
        &&& if anew {
            self.all_reindexed(after)
        } else {
            after.namespaces == self.namespaces
        }
    }

    /// A pod, or what is missing.
    pub open spec fn find_pod(self, namespace: Text, pod: Text) -> Result<PodModel, NotFoundModel> {
        if !self.namespaces.by_ns.contains_key(namespace) {
            Err(NotFoundModel::Namespace { namespace })
        } else if !self.namespaces.by_ns[namespace].pods.contains_key(pod) {
            Err(NotFoundModel::Pod { namespace, pod })
        } else {
            Ok(self.namespaces.by_ns[namespace].pods[pod])
        }
    }

    /// The index with a known pod replaced.
    pub open spec fn with_pod(self, namespace: Text, name: Text, pod: PodModel) -> IndexModel {
        let ns = self.namespaces.by_ns[namespace];
        let ns = NamespaceModel { pods: ns.pods.insert(name, pod), ..ns };
        let by_ns = self.namespaces.by_ns.insert(namespace, ns);
        IndexModel { namespaces: NamespacesModel { by_ns, ..self.namespaces }, ..self }
    }

    /// An external group, or what is missing.
    pub open spec fn find_group(self, namespace: Text, name: Text) -> Result<
        ExternalGroupModel,
        NotFoundModel,
    > {
        if !self.namespaces.by_ns.contains_key(namespace) {
            Err(NotFoundModel::Namespace { namespace })
        } else if !self.namespaces.by_ns[namespace].external.contains_key(name) {
            Err(NotFoundModel::Workload { namespace, name })
        } else {
            Ok(self.namespaces.by_ns[namespace].external[name])
        }
    }

    /// The index with a known external group replaced.
    pub open spec fn with_group(
        self,
        namespace: Text,
        name: Text,
        group: ExternalGroupModel,
    ) -> IndexModel {
        let ns = self.namespaces.by_ns[namespace];
        let ns = NamespaceModel { external: ns.external.insert(name, group), ..ns };
        let by_ns = self.namespaces.by_ns.insert(namespace, ns);
        IndexModel { namespaces: NamespacesModel { by_ns, ..self.namespaces }, ..self }
    }

    /// What becomes of the index when a pod is deleted.
    pub open spec fn pod_deleted(self, after: IndexModel, namespace: Text, name: Text) -> bool {
        &&& self.only_ns(after, namespace)
        &&& after.namespaces.by_ns.get(namespace) == match self.namespaces.by_ns.get(namespace) {
            Some(ns) => ns.without_pod(name),
            None => None,
        }
    }

    /// What becomes of the index when an external group is deleted.
    pub open spec fn group_deleted(self, after: IndexModel, namespace: Text, name: Text) -> bool {
        &&& self.only_ns(after, namespace)
        &&& after.namespaces.by_ns.get(namespace) == match self.namespaces.by_ns.get(namespace) {
            Some(ns) => ns.without_group(name),
            None => None,
        }
    }

    /// What becomes of a namespace by a listing of the resources of one kind. A
    /// namespace of which none are listed loses all of them, and is forgotten if
    /// nothing else is left of it. In any other, those that are gone are removed
    /// and those that are listed are set.
    pub open spec fn ns_reset<T: PolicyResource>(
        self,
        after: IndexModel,
        namespace: Text,
        updates: Map<Text, NsUpdateModel<<T::Key as DeepView>::V, <T as DeepView>::V>>,
    ) -> bool {
        if !updates.contains_key(namespace) {
            self.ns_same(after, namespace)
        } else if updates[namespace].added.len() == 0 {
            self.ns_changed(after, namespace, T::change_of(ChangeModel::Clear))
        } else {
            self.ns_or_default_changed(
                after,
                namespace,
                T::change_of(ChangeModel::Replace(updates[namespace])),
            )
        }
    }

    /// What becomes of all namespaces by a listing of the resources of one kind.
    pub open spec fn all_ns_reset<T: PolicyResource>(
        self,
        after: IndexModel,
        updates: Map<Text, NsUpdateModel<<T::Key as DeepView>::V, <T as DeepView>::V>>,
    ) -> bool {
        forall|ns: Text| #[trigger] self.ns_reset::<T>(after, ns, updates)
    }
}

impl Index {
    /// Nothing is known.
    pub fn new(cluster_info: Arc<ClusterInfo>) -> (r: Self)
        ensures
            r.deep_view() == IndexModel::new(cluster_info.deep_view()),
            r.deep_view().consistent(),
    {
        proof {
            IndexModel::new_is_consistent(cluster_info.deep_view());
        }
        Index {
            cluster_info: cluster_info.clone(),
            namespaces: NamespaceIndex::new(cluster_info),
            authentications: AuthenticationNsIndex::new(),
        }
    }

    /// Changes the policy resources of a namespace, if it is known.
    fn ns_with_reindex(&mut self, namespace: &String, change: PolicyChange)
        ensures
            old(self).deep_view().only_ns(final(self).deep_view(), namespace@),
            old(self).deep_view().ns_changed(
                final(self).deep_view(),
                namespace@,
                change.deep_view(),
            ),
    {
        let ghost before = self.deep_view();
        self.namespaces.get_with_reindex(namespace, &self.authentications, change);
        proof {
            others_same(before, self.deep_view(), namespace@);
        }
    }

    /// Changes the policy resources of a namespace, which comes to be known if
    /// it is not.
    fn ns_or_default_with_reindex(&mut self, namespace: &String, change: PolicyChange)
        ensures
            old(self).deep_view().only_ns(final(self).deep_view(), namespace@),
            old(self).deep_view().ns_or_default_changed(
                final(self).deep_view(),
                namespace@,
                change.deep_view(),
            ),
    {
        let ghost before = self.deep_view();
        self.namespaces.get_or_default_with_reindex(namespace, &self.authentications, change);
        proof {
            others_same(before, self.deep_view(), namespace@);
        }
    }

    /// Has everything in all namespaces configured as the policy resources ask.
    fn reindex_all(&mut self)
        ensures
            final(self).deep_view().cluster == old(self).deep_view().cluster,
            final(self).deep_view().authentications == old(self).deep_view().authentications,
            old(self).deep_view().all_reindexed(final(self).deep_view()),
    {
        self.namespaces.reindex(&self.authentications);
    }

    /// A policy resource is there. Its namespace comes to be known if it is not.
    pub fn apply<T: PolicyResource>(&mut self, namespace: String, key: T::Key, value: T)
        ensures
            old(self).deep_view().only_ns(final(self).deep_view(), namespace@),
            old(self).deep_view().ns_or_default_changed(
                final(self).deep_view(),
                namespace@,
                T::change_of(ChangeModel::Update(key.deep_view(), value.deep_view())),
            ),
            old(self).deep_view().kept() ==> final(self).deep_view().kept(),
            old(self).deep_view().consistent() ==> final(self).deep_view().consistent(),
    {
        let ghost before = self.deep_view();
        self.ns_or_default_with_reindex(&namespace, T::into_change(Change::Update(key, value)));
        proof {
            if before.kept() {
                before.stays_consistent_when_applied::<T>(
                    self.deep_view(),
                    namespace@,
                    key.deep_view(),
                    value.deep_view(),
                );
            }
        }
    }

    /// A policy resource is gone.
    pub fn delete<T: PolicyResource>(&mut self, namespace: String, key: T::Key)
        ensures
            old(self).deep_view().only_ns(final(self).deep_view(), namespace@),
            old(self).deep_view().ns_changed(
                final(self).deep_view(),
                namespace@,
                T::change_of(ChangeModel::Remove(key.deep_view())),
            ),
            old(self).deep_view().kept() ==> final(self).deep_view().kept(),
            old(self).deep_view().consistent() ==> final(self).deep_view().consistent(),
    {
        let ghost before = self.deep_view();
        let change = T::into_change(Change::Remove(key));
        let ghost model = change.deep_view();
        self.ns_with_reindex(&namespace, change);
        proof {
            if before.kept() {
                before.stays_consistent_if_known(self.deep_view(), namespace@, model);
            }
        }
    }

    /// These are all the policy resources of a kind, and those that were deleted
    /// since the last listing. What is not valid is ignored.
    pub fn reset<T: PolicyResource>(
        &mut self,
        listed: Vec<Listed<T::Key, Option<T>>>,
        deleted: NameTable<Vec<T::Key>>,
    )
        ensures
            old(self).deep_view().same_but_namespaces(final(self).deep_view()),
            forall|ns: Text| #[trigger]
                old(self).deep_view().ns_reset::<T>(
                    final(self).deep_view(),
                    ns,
                    updates_by_ns(valid(listed.deep_view()), deleted.deep_view()),
                ),
            old(self).deep_view().all_ns_reset::<T>(
                final(self).deep_view(),
                updates_by_ns(valid(listed.deep_view()), deleted.deep_view()),
            ),
            old(self).deep_view().kept() ==> final(self).deep_view().kept(),
            old(self).deep_view().consistent() ==> final(self).deep_view().consistent(),
    {
        let ghost before = self.deep_view();
        let mut updates = group_by_ns(keep_valid(listed), deleted);
        let ghost all = updates.deep_view();
        loop
            invariant
                updates.deep_view().submap_of(all),
                before.same_but_namespaces(self.deep_view()),
                forall|ns: Text|
                    updates.deep_view().contains_key(ns) ==> #[trigger] before.ns_same(
                        self.deep_view(),
                        ns,
                    ),
                forall|ns: Text|
                    !updates.deep_view().contains_key(ns) ==> #[trigger] before.ns_reset::<T>(
                        self.deep_view(),
                        ns,
                        all,
                    ),
            ensures
                before.same_but_namespaces(self.deep_view()),
                forall|ns: Text| #[trigger] before.ns_reset::<T>(self.deep_view(), ns, all),
            decreases updates.walk().len(),
        {
            let ghost now = self.deep_view();
            let (namespace, update) = match updates.pop() {
                Some(entry) => entry,
                None => break,
            };
            if update.added.is_empty() {
                self.ns_with_reindex(&namespace, T::into_change(Change::Clear));
            } else {
                self.ns_or_default_with_reindex(
                    &namespace,
                    T::into_change(Change::Replace(update)),
                );
            }
            assert(before.ns_same(now, namespace@));
            assert forall|ns: Text|
                updates.deep_view().contains_key(ns) implies #[trigger] before.ns_same(
                self.deep_view(),
                ns,
            ) by {
                assert(before.ns_same(now, ns));
                assert(now.ns_same(self.deep_view(), ns));
            }
            assert forall|ns: Text|
                !updates.deep_view().contains_key(ns) implies #[trigger] before.ns_reset::<T>(
                self.deep_view(),
                ns,
                all,
            ) by {
                if ns != namespace@ {
                    assert(before.ns_reset::<T>(now, ns, all));
                    assert(now.ns_same(self.deep_view(), ns));
                }
            }
        }
        proof {
            if before.kept() {
                before.stays_consistent_when_reset::<T>(self.deep_view(), all);
            }
        }
    }
}

impl Index {
    /// A route is there.
    pub fn apply_route(&mut self, namespace: String, gkn: GroupKindName, route: RouteBinding)
        ensures
            old(self).deep_view().only_ns(final(self).deep_view(), namespace@),
            old(self).deep_view().ns_or_default_changed(
                final(self).deep_view(),
                namespace@,
                PolicyChangeModel::HttpRoutes(
                    ChangeModel::Update(gkn.deep_view(), route.deep_view()),
                ),
            ),
            old(self).deep_view().kept() ==> final(self).deep_view().kept(),
            old(self).deep_view().consistent() ==> final(self).deep_view().consistent(),
    {
        self.apply::<RouteBinding>(namespace, gkn, route);
    }

    /// A route is gone.
    pub fn delete_route(&mut self, namespace: String, gkn: GroupKindName)
        ensures
            old(self).deep_view().only_ns(final(self).deep_view(), namespace@),
            old(self).deep_view().ns_changed(
                final(self).deep_view(),
                namespace@,
                PolicyChangeModel::HttpRoutes(ChangeModel::Remove(gkn.deep_view())),
            ),
            old(self).deep_view().kept() ==> final(self).deep_view().kept(),
            old(self).deep_view().consistent() ==> final(self).deep_view().consistent(),
    {
        self.delete::<RouteBinding>(namespace, gkn);
    }

    /// These are all the routes of a kind, and the names of those that were
    /// deleted since the last listing. What is not valid is ignored.
    pub fn reset_route(
        &mut self,
        routes: Vec<Listed<GroupKindName, Option<RouteBinding>>>,
        group: &String,
        kind: &String,
        deleted: NameTable<Vec<String>>,
    )
        ensures
            old(self).deep_view().same_but_namespaces(final(self).deep_view()),
            forall|ns: Text| #[trigger]
                old(self).deep_view().ns_reset::<RouteBinding>(
                    final(self).deep_view(),
                    ns,
                    updates_by_ns(
                        valid(routes.deep_view()),
                        routes_named(group@, kind@, deleted.deep_view()),
                    ),
                ),
            old(self).deep_view().all_ns_reset::<RouteBinding>(
                final(self).deep_view(),
                updates_by_ns(
                    valid(routes.deep_view()),
                    routes_named(group@, kind@, deleted.deep_view()),
                ),
            ),
            old(self).deep_view().kept() ==> final(self).deep_view().kept(),
            old(self).deep_view().consistent() ==> final(self).deep_view().consistent(),
    {
        let ghost names = deleted.deep_view();
        let mut deleted = deleted;
        let mut removed: NameTable<Vec<GroupKindName>> = NameTable::new();
        loop
            invariant
                deleted.deep_view().submap_of(names),
                removed.deep_view() =~= routes_named(
                    group@,
                    kind@,
                    names.remove_keys(deleted.deep_view().dom()),
                ),
            ensures
                removed.deep_view() == routes_named(group@, kind@, names),
            decreases deleted.walk().len(),
        {
            let (ns, gone) = match deleted.pop() {
                Some(entry) => entry,
                None => break,
            };
            removed.insert(ns, GroupKindName::each(group, kind, gone));
        }
        self.reset::<RouteBinding>(routes, removed);
    }

    /// A pod is there. Unless it is known and stays as it was, it is configured
    /// as the policy resources ask.
    pub fn apply_pod(
        &mut self,
        namespace: String,
        name: String,
        metadata: ObjectMeta,
        port_names: NameTable<PortSet>,
        probes: PortTable<Vec<String>>,
    ) -> (r: Result<(), PortNamesChanged>)
        ensures
            ({
                let ns = old(self).deep_view().namespaces.get_or_default(namespace@);
                let update = updated_pod(
                    ns.pods,
                    name@,
                    MetaModel::from_metadata(metadata.deep_view()),
                    port_names.deep_view(),
                    probes.deep_view(),
                );
                &&& old(self).deep_view().only_ns(final(self).deep_view(), namespace@)
                &&& final(self).deep_view().namespaces.by_ns.contains_key(namespace@)
                &&& ns.pod_applied(
                    final(self).deep_view().namespaces.by_ns[namespace@],
                    name@,
                    update,
                    old(self).deep_view().authentications,
                )
                &&& r is Err <==> update is Err
                &&& r matches Err(e) ==> e.pod@ == name@
            }),
            old(self).deep_view().kept() ==> final(self).deep_view().kept(),
            old(self).deep_view().consistent() ==> final(self).deep_view().consistent(),
    {
        let ghost before = self.deep_view();
        let meta = Meta::from_metadata(metadata);
        let ns = self.namespaces.get_or_default(&namespace);
        let r = ns.apply_pod(&name, meta, port_names, probes, &self.authentications);
        assert(self.deep_view().namespaces.by_ns.remove(namespace@)
            =~= before.namespaces.by_ns.remove(namespace@));
        proof {
            others_same(before, self.deep_view(), namespace@);
            if before.kept() {
                before.stays_consistent_with_pod(
                    self.deep_view(),
                    namespace@,
                    name@,
                    MetaModel::from_metadata(metadata.deep_view()),
                    port_names.deep_view(),
                    probes.deep_view(),
                );
            }
        }
        r
    }

    /// A pod is gone. The watches of all its known ports complete: their channels
    /// are closed, and an end of each is handed back.
    pub fn delete_pod(&mut self, namespace: String, name: String) -> (closed: Option<
        PortTable<PortEnd>,
    >)
        ensures
            old(self).deep_view().pod_deleted(final(self).deep_view(), namespace@, name@),
            closed.deep_view() == (match old(self).deep_view().find_pod(namespace@, name@) {
                Ok(pod) => Some(closed_ends(pod.port_servers)),
                Err(_) => None,
            }),
            old(self).deep_view().kept() ==> final(self).deep_view().kept(),
            old(self).deep_view().consistent() ==> final(self).deep_view().consistent(),
    {
        let ghost before = self.deep_view();
        let removed = self.namespaces.delete_pod(&namespace, &name);
        proof {
            others_same(before, self.deep_view(), namespace@);
            if before.kept() {
                before.stays_consistent_without(self.deep_view(), namespace@, name@);
            }
        }
        match removed {
            Some(pod) => Some(pod.close()),
            None => None,
        }
    }

    /// An external group is there. Unless it is known and stays as it was, it is
    /// configured as the policy resources ask.
    pub fn apply_external_group(
        &mut self,
        namespace: String,
        name: String,
        metadata: ObjectMeta,
        ports: Vec<u16>,
    ) -> (r: Result<(), PortsChanged>)
        ensures
            ({
                let ns = old(self).deep_view().namespaces.get_or_default(namespace@);
                let update = updated_group(
                    ns.external,
                    name@,
                    MetaModel::from_metadata(metadata.deep_view()),
                    ports@,
                );
                &&& old(self).deep_view().only_ns(final(self).deep_view(), namespace@)
                &&& final(self).deep_view().namespaces.by_ns.contains_key(namespace@)
                &&& ns.group_applied(
                    final(self).deep_view().namespaces.by_ns[namespace@],
                    name@,
                    update,
                    old(self).deep_view().authentications,
                )
                &&& r is Err <==> update is Err
                &&& r matches Err(e) ==> e.group@ == name@
            }),
            old(self).deep_view().kept() ==> final(self).deep_view().kept(),
            old(self).deep_view().consistent() ==> final(self).deep_view().consistent(),
    {
        let ghost before = self.deep_view();
        let meta = Meta::from_metadata(metadata);
        let ns = self.namespaces.get_or_default(&namespace);
        let r = ns.apply_group(&name, meta, ports, &self.authentications);
        assert(self.deep_view().namespaces.by_ns.remove(namespace@)
            =~= before.namespaces.by_ns.remove(namespace@));
        proof {
            others_same(before, self.deep_view(), namespace@);
            if before.kept() {
                before.stays_consistent_with_group(
                    self.deep_view(),
                    namespace@,
                    name@,
                    MetaModel::from_metadata(metadata.deep_view()),
                    ports@,
                );
            }
        }
        r
    }

    /// An external group is gone. The watches of all its known ports complete:
    /// their channels are closed, and an end of each is handed back.
    pub fn delete_external_group(&mut self, namespace: String, name: String) -> (closed: Option<
        PortTable<PortEnd>,
    >)
        ensures
            old(self).deep_view().group_deleted(final(self).deep_view(), namespace@, name@),
            closed.deep_view() == (match old(self).deep_view().find_group(namespace@, name@) {
                Ok(group) => Some(closed_ends(group.port_servers)),
                Err(_) => None,
            }),
            old(self).deep_view().kept() ==> final(self).deep_view().kept(),
            old(self).deep_view().consistent() ==> final(self).deep_view().consistent(),
    {
        let ghost before = self.deep_view();
        let removed = self.namespaces.delete_group(&namespace, &name);
        proof {
            others_same(before, self.deep_view(), namespace@);
            if before.kept() {
                before.stays_consistent_without(self.deep_view(), namespace@, name@);
            }
        }
        match removed {
            Some(group) => Some(group.close()),
            None => None,
        }
    }
}

impl Index {
    /// A `MeshTLSAuthentication` is there.
    pub fn apply_meshtls_authentication(
        &mut self,
        namespace: String,
        name: String,
        ids: Vec<IdentityMatch>,
    )
        ensures
            final(self).deep_view().authentications == with_meshtls(
                old(self).deep_view().authentications,
                namespace@,
                name@,
                ids.deep_view(),
            ),
            old(self).deep_view().followed_authentications(
                final(self).deep_view(),
                final(self).deep_view().authentications
                    != old(self).deep_view().authentications,
            ),
            old(self).deep_view().kept() ==> final(self).deep_view().kept(),
            old(self).deep_view().kept() && final(self).deep_view().authentications
                != old(self).deep_view().authentications ==> final(self).deep_view().consistent(),
            old(self).deep_view().consistent() ==> final(self).deep_view().consistent(),
    {
        let ghost before = self.deep_view();
        let changed = self.authentications.update_meshtls(namespace, name, ids);
        if changed {
            self.reindex_all();
        }
        proof {
            if before.kept() {
                with_leaves_no_empty_namespace(
                    before.authentications,
                    namespace@,
                    name@,
                    ids.deep_view(),
                    Seq::empty(),
                );
                before.stays_consistent_with_authentications(self.deep_view(), changed);
            }
        }
    }

    /// A `MeshTLSAuthentication` is gone.
    ///
    /// What is forgotten is the `NetworkAuthentication` of that name. A
    /// `MeshTLSAuthentication` is only forgotten by a listing.
    pub fn delete_meshtls_authentication(&mut self, namespace: String, name: String)
        ensures
            final(self).deep_view().authentications == without_network(
                old(self).deep_view().authentications,
                namespace@,
                name@,
            ),
            old(self).deep_view().followed_authentications(
                final(self).deep_view(),
                old(self).deep_view().authentications.contains_key(namespace@),
            ),
            old(self).deep_view().kept() ==> final(self).deep_view().kept(),
            old(self).deep_view().kept() && old(self).deep_view().authentications.contains_key(
                namespace@,
            ) ==> final(self).deep_view().consistent(),
            old(self).deep_view().consistent() ==> final(self).deep_view().consistent(),
    {
        let ghost before = self.deep_view();
        let known = self.authentications.delete_network(&namespace, &name);
        if known {
            self.reindex_all();
        }
        proof {
            if before.kept() {
                without_leaves_no_empty_namespace(
                    before.authentications,
                    namespace@,
                    name@,
                    Map::empty(),
                );
                before.stays_consistent_with_authentications(self.deep_view(), known);
            }
        }
    }

    /// These are all the `MeshTLSAuthentication`s, and the names of those that
    /// were deleted since the last listing. What is not valid is ignored.
    pub fn reset_meshtls_authentications(
        &mut self,
        listed: Vec<Listed<String, Option<Vec<IdentityMatch>>>>,
        deleted: NameTable<Vec<String>>,
    )
        ensures
            ({
                let before = old(self).deep_view().authentications;
                let listed = valid(listed.deep_view());
                &&& final(self).deep_view().authentications == without_meshtls(
                    with_all_meshtls(before, listed),
                    deleted.deep_view(),
                )
                &&& old(self).deep_view().followed_authentications(
                    final(self).deep_view(),
                    some_meshtls_change(before, listed),
                )
                &&& old(self).deep_view().kept() ==> final(self).deep_view().kept()
                &&& old(self).deep_view().kept() && some_meshtls_change(before, listed)
                    ==> final(self).deep_view().consistent()
                &&& old(self).deep_view().consistent()
                    && final(self).deep_view().authentications == before
                    ==> final(self).deep_view().consistent()
            }),
    {
        let ghost before = self.deep_view();
        let changed = self.authentications.update_all_meshtls(listed);
        let ghost updated = self.authentications.deep_view();
        self.authentications.delete_meshtls(deleted);
        if changed {
            self.reindex_all();
        }
        proof {
            if before.kept() {
                with_all_leaves_no_empty_namespace(
                    before.authentications,
                    valid(listed.deep_view()),
                    Seq::empty(),
                );
                without_leaves_no_empty_namespace(
                    updated,
                    Seq::empty(),
                    Seq::empty(),
                    deleted.deep_view(),
                );
                before.stays_consistent_with_authentications(self.deep_view(), changed);
            }
        }
    }

    /// A `NetworkAuthentication` is there.
    pub fn apply_network_authentication(
        &mut self,
        namespace: String,
        name: String,
        nets: Vec<NetworkMatch>,
    )
        ensures
            final(self).deep_view().authentications == with_network(
                old(self).deep_view().authentications,
                namespace@,
                name@,
                nets.deep_view(),
            ),
            old(self).deep_view().followed_authentications(
                final(self).deep_view(),
                final(self).deep_view().authentications
                    != old(self).deep_view().authentications,
            ),
            old(self).deep_view().kept() ==> final(self).deep_view().kept(),
            old(self).deep_view().kept() && final(self).deep_view().authentications
                != old(self).deep_view().authentications ==> final(self).deep_view().consistent(),
            old(self).deep_view().consistent() ==> final(self).deep_view().consistent(),
    {
        let ghost before = self.deep_view();
        let changed = self.authentications.update_network(namespace, name, nets);
        if changed {
            self.reindex_all();
        }
        proof {
            if before.kept() {
                with_leaves_no_empty_namespace(
                    before.authentications,
                    namespace@,
                    name@,
                    Seq::empty(),
                    nets.deep_view(),
                );
                before.stays_consistent_with_authentications(self.deep_view(), changed);
            }
        }
    }

    /// A `NetworkAuthentication` is gone.
    pub fn delete_network_authentication(&mut self, namespace: String, name: String)
        ensures
            final(self).deep_view().authentications == without_network(
                old(self).deep_view().authentications,
                namespace@,
                name@,
            ),
            old(self).deep_view().followed_authentications(
                final(self).deep_view(),
                old(self).deep_view().authentications.contains_key(namespace@),
            ),
            old(self).deep_view().kept() ==> final(self).deep_view().kept(),
            old(self).deep_view().kept() && old(self).deep_view().authentications.contains_key(
                namespace@,
            ) ==> final(self).deep_view().consistent(),
            old(self).deep_view().consistent() ==> final(self).deep_view().consistent(),
    {
        let ghost before = self.deep_view();
        let known = self.authentications.delete_network(&namespace, &name);
        if known {
            self.reindex_all();
        }
        proof {
            if before.kept() {
                without_leaves_no_empty_namespace(
                    before.authentications,
                    namespace@,
                    name@,
                    Map::empty(),
                );
                before.stays_consistent_with_authentications(self.deep_view(), known);
            }
        }
    }

    /// These are all the `NetworkAuthentication`s, and the names of those that
    /// were deleted since the last listing.
    ///
    /// The listing is followed up to the first one that is not valid. If there
    /// is one, nothing is deleted and nothing is configured anew. What is deleted
    /// are the `MeshTLSAuthentication`s of those names.
    pub fn reset_network_authentications(
        &mut self,
        listed: Vec<Listed<String, Option<Vec<NetworkMatch>>>>,
        deleted: NameTable<Vec<String>>,
    )
        ensures
            ({
                let before = old(self).deep_view().authentications;
                let n = valid_start(listed.deep_view());
                let taken = valid(listed.deep_view().take(n as int));
                let complete = n == listed.deep_view().len();
                &&& final(self).deep_view().authentications == if complete {
                    without_meshtls(with_all_network(before, taken), deleted.deep_view())
                } else {
                    with_all_network(before, taken)
                }
                &&& old(self).deep_view().followed_authentications(
                    final(self).deep_view(),
                    complete && some_network_change(before, taken),
                )
                &&& old(self).deep_view().kept() ==> final(self).deep_view().kept()
                &&& old(self).deep_view().kept() && complete && some_network_change(before, taken)
                    ==> final(self).deep_view().consistent()
                &&& old(self).deep_view().consistent()
                    && final(self).deep_view().authentications == before
                    ==> final(self).deep_view().consistent()
            }),
    {
        let ghost before = self.deep_view();
        proof {
            valid_start_of_part(listed.deep_view(), 0);
        }
        proof {
            if before.kept() {
                with_all_leaves_no_empty_namespace(
                    before.authentications,
                    Seq::empty(),
                    valid(listed.deep_view().take(valid_start(listed.deep_view()) as int)),
                );
            }
        }
        let changed = match self.authentications.update_all_network(listed) {
            Some(changed) => changed,
            None => {
                proof {
                    if before.kept() {
                        before.stays_consistent_with_authentications(self.deep_view(), false);
                    }
                }
                return ;
            },
        };
        let ghost updated = self.authentications.deep_view();
        self.authentications.delete_meshtls(deleted);
        if changed {
            self.reindex_all();
        }
        proof {
            if before.kept() {
                without_leaves_no_empty_namespace(
                    updated,
                    Seq::empty(),
                    Seq::empty(),
                    deleted.deep_view(),
                );
                before.stays_consistent_with_authentications(self.deep_view(), changed);
            }
        }
    }
}

/// Why a server is not found.
#[derive(Debug)]
pub enum NotFound {
    /// The namespace is not known.
    Namespace { namespace: String },
    /// The pod is not known in its namespace.
    Pod { namespace: String, pod: String },
    /// The external group is not known in its namespace.
    Workload { namespace: String, name: String },
}

/// What a [`NotFound`] means.
#[verifier::ext_equal]
pub enum NotFoundModel {
    Namespace { namespace: Text },
    Pod { namespace: Text, pod: Text },
    Workload { namespace: Text, name: Text },
}

impl DeepView for NotFound {
    type V = NotFoundModel;

    open spec fn deep_view(&self) -> NotFoundModel {
        match self {
            NotFound::Namespace { namespace } => NotFoundModel::Namespace { namespace: namespace@ },
            NotFound::Pod { namespace, pod } => NotFoundModel::Pod {
                namespace: namespace@,
                pod: pod@,
            },
            NotFound::Workload { namespace, name } => NotFoundModel::Workload {
                namespace: namespace@,
                name: name@,
            },
        }
    }
}

impl NotFoundModel {
    /// The text of the error.
    pub open spec fn message(self) -> Text {
        match self {
            NotFoundModel::Namespace { namespace } => "namespace not found: "@ + namespace,
            NotFoundModel::Pod { namespace, pod } => {
                "pod "@ + pod + "."@ + namespace + " not found"@
            },
            NotFoundModel::Workload { namespace, name } => {
                "workload "@ + name + "."@ + namespace + " not found"@
            },
        }
    }
}

impl NotFound {
    /// The text of the error.
    pub fn message(&self) -> (r: String)
        ensures
            r@ == self.deep_view().message(),
    {
        match self {
            NotFound::Namespace { namespace } => {
                "namespace not found: ".to_string().concat(namespace.as_str())
            },
            NotFound::Pod { namespace, pod } => {
                "pod ".to_string().concat(pod.as_str()).concat(".").concat(
                    namespace.as_str(),
                ).concat(" not found")
            },
            NotFound::Workload { namespace, name } => {
                "workload ".to_string().concat(name.as_str()).concat(".").concat(
                    namespace.as_str(),
                ).concat(" not found")
            },
        }
    }
}

impl Index {
    /// Obtains the receiver of the server of a pod's port.
    ///
    /// An error is returned if the pod is not found. If the port is not found, a
    /// default server is created.
    pub fn pod_server_rx(&mut self, namespace: &str, pod: &str, port: u16) -> (r: Result<
        watch::Receiver<InboundServer>,
        NotFound,
    >)
        ensures
            ({
                let before = old(self).deep_view();
                let after = final(self).deep_view();
                match before.find_pod(namespace@, pod@) {
                    Err(e) => {
                        &&& after == before
                        &&& r matches Err(error) && error.deep_view() == e
                    },
                    Ok(p) => {
                        &&& after.find_pod(namespace@, pod@) is Ok
                        &&& after == before.with_pod(
                            namespace@,
                            pod@,
                            after.namespaces.by_ns[namespace@].pods[pod@],
                        )
                        &&& p.port_discovered(
                            after.namespaces.by_ns[namespace@].pods[pod@],
                            port,
                            before.cluster,
                        )
                        &&& r matches Ok(rx) && {
                            &&& is_open(rx)
                            &&& subscription(rx)
                                == after.namespaces.by_ns[namespace@].pods[pod@].port_servers[port].channel
                            &&& before.consistent() ==> subscription(rx).value
                                == before.asked_of_pod(namespace@, pod@, port)
                        }
                    },
                }
            }),
            old(self).deep_view().kept() ==> final(self).deep_view().kept(),
            old(self).deep_view().consistent() ==> final(self).deep_view().consistent(),
    {
        let ghost before = self.deep_view();
        let namespace = namespace.to_string();
        let name = pod.to_string();
        let ns = match self.namespaces.get_mut(&namespace) {
            Some(ns) => ns,
            None => return Err(NotFound::Namespace { namespace }),
        };
        match ns.pods_mut().get_mut(&name) {
            Some(pod) => {
                let rx = pod.port_server_or_default(port, &self.cluster_info).subscribe();
                proof {
                    if before.kept() {
                        let after = self.deep_view();
                        let pod = after.namespaces.by_ns[namespace@].pods[name@];
                        before.stays_consistent_with_port(after, namespace@, name@, pod, port);
                    }
                }
                Ok(rx)
            },
            None => Err(NotFound::Pod { namespace, pod: name }),
        }
    }

    /// Obtains the receiver of the server of an external group's port.
    ///
    /// An error is returned if the group is not found. If the port is not found,
    /// a default server is created.
    pub fn external_server_rx(&mut self, namespace: &str, name: &str, port: u16) -> (r: Result<
        watch::Receiver<InboundServer>,
        NotFound,
    >)
        ensures
            ({
                let before = old(self).deep_view();
                let after = final(self).deep_view();
                match before.find_group(namespace@, name@) {
                    Err(e) => {
                        &&& after == before
                        &&& r matches Err(error) && error.deep_view() == e
                    },
                    Ok(group) => {
                        &&& after.find_group(namespace@, name@) is Ok
                        &&& after == before.with_group(
                            namespace@,
                            name@,
                            after.namespaces.by_ns[namespace@].external[name@],
                        )
                        &&& group.port_discovered(
                            after.namespaces.by_ns[namespace@].external[name@],
                            port,
                            before.cluster,
                        )
                        &&& r matches Ok(rx) && {
                            &&& is_open(rx)
                            &&& subscription(rx)
                                == after.namespaces.by_ns[namespace@].external[name@].port_servers[port].channel
                            &&& before.consistent() ==> subscription(rx).value
                                == before.asked_of_group(namespace@, name@, port)
                        }
                    },
                }
            }),
            old(self).deep_view().kept() ==> final(self).deep_view().kept(),
            old(self).deep_view().consistent() ==> final(self).deep_view().consistent(),
    {
        let ghost before = self.deep_view();
        let namespace = namespace.to_string();
        let name = name.to_string();
        let ns = match self.namespaces.get_mut(&namespace) {
            Some(ns) => ns,
            None => return Err(NotFound::Namespace { namespace }),
        };
        match ns.external_mut().get_mut(&name) {
            Some(group) => {
                let rx = group.port_server_or_default(port, &self.cluster_info).subscribe();
                proof {
                    if before.kept() {
                        let after = self.deep_view();
                        let group = after.namespaces.by_ns[namespace@].external[name@];
                        before.stays_consistent_with_group_port(
                            after,
                            namespace@,
                            name@,
                            group,
                            port,
                        );
                    }
                }
                Ok(rx)
            },
            None => Err(NotFound::Workload { namespace, name }),
        }
    }
}

/// `parking_lot::RawRwLock`, the raw lock under a `parking_lot::RwLock`.
#[verifier::external_type_specification]
#[verifier::external_body]
pub struct ExRawRwLock(parking_lot::RawRwLock);

/// `parking_lot::lock_api::RwLock`, of which `parking_lot::RwLock` is an
/// instance: a value that many may read or one may write at a time.
#[verifier::external_type_specification]
#[verifier::external_body]
#[verifier::reject_recursive_types(R)]
#[verifier::reject_recursive_types(T)]
pub struct ExRwLock<R, T: ?Sized>(parking_lot::lock_api::RwLock<R, T>);

/// An index that is shared.
pub type SharedIndex = Arc<RwLock<Index>>;

/// The index that a lock was made to guard, as it was then.
pub uninterp spec fn guarded(lock: RwLock<Index>) -> IndexModel;

/// `RwLock::new` makes a lock that guards the value given.
#[verifier::external_body]
fn guard(index: Index) -> (lock: RwLock<Index>)
    ensures
        guarded(lock) == index.deep_view(),
{
    RwLock::new(index)
}

impl Index {
    /// An index to share, in which nothing is known.
    pub fn shared<C: Into<Arc<ClusterInfo>>>(cluster_info: C) -> (r: SharedIndex)
        ensures
            exists|c: Arc<ClusterInfo>|
                {
                    &&& #[trigger] call_ensures(C::into, (cluster_info,), c)
                    &&& guarded(*r) == IndexModel::new(c.deep_view())
                },
    {
        let c = cluster_info.into();
        Arc::new(guard(Index::new(c)))
    }
}

/// The routes of some names, given by namespace.
pub open spec fn routes_named(group: Text, kind: Text, names: Map<Text, Seq<Text>>) -> Map<
    Text,
    Seq<GroupKindNameModel>,
> {
    names.map_values(
        |names: Seq<Text>|
            names.map_values(|name: Text| GroupKindNameModel { group, kind, name }),
    )
}

/// Where a map changes under one key only, every other namespace is as it was.
proof fn others_same(before: IndexModel, after: IndexModel, namespace: Text)
    requires
        before.namespaces.same_but(after.namespaces, namespace),
    ensures
        forall|other: Text| other != namespace ==> #[trigger] before.ns_same(after, other),
{
    assert forall|other: Text| other != namespace implies #[trigger] before.ns_same(
        after,
        other,
    ) by {
        let b = before.namespaces.by_ns;
        let a = after.namespaces.by_ns;
        assert(a.remove(namespace).contains_key(other) == b.remove(namespace).contains_key(other));
        if b.contains_key(other) {
            assert(a.remove(namespace)[other] == b.remove(namespace)[other]);
        }
    }
}

} // verus!
