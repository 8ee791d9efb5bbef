//! The identities and networks that policies may ask for, by namespace.
use crate::authz::{IdentityMatch, IdentityMatchModel, NetworkMatch, NetworkMatchModel};
use crate::listing::{keep_valid, valid, valid_start, valid_start_of_part, Listed, ListedModel};
use crate::table::NameTable;
use crate::value::Text;
use vstd::prelude::*;

verus! {

/// The `MeshTLSAuthentication`s and `NetworkAuthentication`s of a namespace.
#[derive(Debug)]
pub struct AuthenticationIndex {
    meshtls: NameTable<Vec<IdentityMatch>>,
    network: NameTable<Vec<NetworkMatch>>,
}

/// What an [`AuthenticationIndex`] means.
#[verifier::ext_equal]
pub struct AuthenticationIndexModel {
    pub meshtls: Map<Text, Seq<IdentityMatchModel>>,
    pub network: Map<Text, Seq<NetworkMatchModel>>,
}

impl DeepView for AuthenticationIndex {
    type V = AuthenticationIndexModel;

    closed spec fn deep_view(&self) -> AuthenticationIndexModel {
        AuthenticationIndexModel {
            meshtls: self.meshtls.deep_view(),
            network: self.network.deep_view(),
        }
    }
}

impl AuthenticationIndexModel {
    /// A namespace without authentications.
    pub open spec fn empty() -> AuthenticationIndexModel {
        AuthenticationIndexModel { meshtls: Map::empty(), network: Map::empty() }
    }

    /// The namespace without some of its `MeshTLSAuthentication`s.
    pub open spec fn without_meshtls(self, names: Seq<Text>) -> AuthenticationIndexModel {
        AuthenticationIndexModel { meshtls: self.meshtls.remove_keys(names.to_set()), ..self }
    }

    /// The namespace without one of its `NetworkAuthentication`s.
    pub open spec fn without_network(self, name: Text) -> AuthenticationIndexModel {
        AuthenticationIndexModel { network: self.network.remove(name), ..self }
    }
}

impl AuthenticationIndex {
    /// A namespace without authentications.
    fn new() -> (r: Self)
        ensures
            r.deep_view() == AuthenticationIndexModel::empty(),
    {
        AuthenticationIndex { meshtls: NameTable::new(), network: NameTable::new() }
    }

    /// Whether the namespace has no authentications.
    fn is_empty(&self) -> (r: bool)
        ensures
            r == (self.deep_view() == AuthenticationIndexModel::empty()),
    {
        self.meshtls.is_empty() && self.network.is_empty()
    }
}

/// The authentications of all namespaces.
///
/// Policies may ask for authentications of other namespaces than their own, so
/// these are kept apart from what else is known of a namespace.
#[derive(Debug)]
pub struct AuthenticationNsIndex {
    by_ns: NameTable<AuthenticationIndex>,
}

/// What an [`AuthenticationNsIndex`] means.
pub type AuthenticationsModel = Map<Text, AuthenticationIndexModel>;

impl DeepView for AuthenticationNsIndex {
    type V = AuthenticationsModel;

    closed spec fn deep_view(&self) -> AuthenticationsModel {
        self.by_ns.deep_view()
    }
}

/// The authentications of a namespace.
pub open spec fn authentications_of(
    all: AuthenticationsModel,
    namespace: Text,
) -> AuthenticationIndexModel {
    if all.contains_key(namespace) {
        all[namespace]
    } else {
        AuthenticationIndexModel::empty()
    }
}

/// The authentications with a `MeshTLSAuthentication` set.
pub open spec fn with_meshtls(
    all: AuthenticationsModel,
    namespace: Text,
    name: Text,
    ids: Seq<IdentityMatchModel>,
) -> AuthenticationsModel {
    let ns = authentications_of(all, namespace);
    all.insert(namespace, AuthenticationIndexModel { meshtls: ns.meshtls.insert(name, ids), ..ns })
}

/// The authentications with a `NetworkAuthentication` set.
pub open spec fn with_network(
    all: AuthenticationsModel,
    namespace: Text,
    name: Text,
    nets: Seq<NetworkMatchModel>,
) -> AuthenticationsModel {
    let ns = authentications_of(all, namespace);
    all.insert(namespace, AuthenticationIndexModel { network: ns.network.insert(name, nets), ..ns })
}

/// The authentications with one namespace replaced, or forgotten if nothing is
/// left of it.
pub open spec fn with_namespace(
    all: AuthenticationsModel,
    namespace: Text,
    ns: AuthenticationIndexModel,
) -> AuthenticationsModel {
    if ns == AuthenticationIndexModel::empty() {
        all.remove(namespace)
    } else {
        all.insert(namespace, ns)
    }
}

/// The authentications without a `NetworkAuthentication`.
pub open spec fn without_network(
    all: AuthenticationsModel,
    namespace: Text,
    name: Text,
) -> AuthenticationsModel {
    if all.contains_key(namespace) {
        with_namespace(all, namespace, all[namespace].without_network(name))
    } else {
        all
    }
}

/// The authentications without some `MeshTLSAuthentication`s, given by
/// namespace. A namespace of which nothing is left is forgotten.
pub open spec fn without_meshtls(
    all: AuthenticationsModel,
    deleted: Map<Text, Seq<Text>>,
) -> AuthenticationsModel {
    Map::new(
        |ns: Text|
            all.contains_key(ns) && !(deleted.contains_key(ns) && all[ns].without_meshtls(
                deleted[ns],
            ) == AuthenticationIndexModel::empty()),
        |ns: Text|
            if deleted.contains_key(ns) {
                all[ns].without_meshtls(deleted[ns])
            } else {
                all[ns]
            },
    )
}

/// The identities of a `MeshTLSAuthentication`.
pub open spec fn meshtls_of(all: AuthenticationsModel, namespace: Text, name: Text) -> Option<
    Seq<IdentityMatchModel>,
> {
    authentications_of(all, namespace).meshtls.get(name)
}

/// The networks of a `NetworkAuthentication`.
pub open spec fn network_of(all: AuthenticationsModel, namespace: Text, name: Text) -> Option<
    Seq<NetworkMatchModel>,
> {
    authentications_of(all, namespace).network.get(name)
}

impl AuthenticationNsIndex {
    /// No authentications.
    pub fn new() -> (r: Self)
        ensures
            r.deep_view() == AuthenticationsModel::empty(),
    {
        AuthenticationNsIndex { by_ns: NameTable::new() }
    }

    /// The identities of a `MeshTLSAuthentication`.
    pub fn meshtls(&self, namespace: &String, name: &String) -> (r: Option<&Vec<IdentityMatch>>)
        ensures
            r.deep_view() == meshtls_of(self.deep_view(), namespace@, name@),
    {
        match self.by_ns.get(namespace) {
            Some(ns) => ns.meshtls.get(name),
            None => None,
        }
    }

    /// The networks of a `NetworkAuthentication`.
    pub fn network(&self, namespace: &String, name: &String) -> (r: Option<&Vec<NetworkMatch>>)
        ensures
            r.deep_view() == network_of(self.deep_view(), namespace@, name@),
    {
        match self.by_ns.get(namespace) {
            Some(ns) => ns.network.get(name),
            None => None,
        }
    }

    /// Sets a `MeshTLSAuthentication` and tells whether that changed anything.
    pub fn update_meshtls(
        &mut self,
        namespace: String,
        name: String,
        ids: Vec<IdentityMatch>,
    ) -> (changed: bool)
        ensures
            final(self).deep_view() == with_meshtls(
                old(self).deep_view(),
                namespace@,
                name@,
                ids.deep_view(),
            ),
            changed == (final(self).deep_view() != old(self).deep_view()),
    {
        let ghost before = self.deep_view();
        if let Some(ns) = self.by_ns.get_mut(&namespace) {
            let changed = ns.meshtls.update(name, ids);
            if !changed {
                assert(with_meshtls(before, namespace@, name@, ids.deep_view()) =~~= before);
            }
            return changed;
        }
        let mut ns = AuthenticationIndex::new();
        let _ = ns.meshtls.update(name, ids);
        self.by_ns.insert(namespace, ns);
        true
    }

    /// Sets a `NetworkAuthentication` and tells whether that changed anything.
    pub fn update_network(
        &mut self,
        namespace: String,
        name: String,
        nets: Vec<NetworkMatch>,
    ) -> (changed: bool)
        ensures
            final(self).deep_view() == with_network(
                old(self).deep_view(),
                namespace@,
                name@,
                nets.deep_view(),
            ),
            changed == (final(self).deep_view() != old(self).deep_view()),
    {
        let ghost before = self.deep_view();
        if let Some(ns) = self.by_ns.get_mut(&namespace) {
            let changed = ns.network.update(name, nets);
            if !changed {
                assert(with_network(before, namespace@, name@, nets.deep_view()) =~~= before);
            }
            return changed;
        }
        let mut ns = AuthenticationIndex::new();
        let _ = ns.network.update(name, nets);
        self.by_ns.insert(namespace, ns);
        true
    }
}

/// The authentications with some `MeshTLSAuthentication`s set, one after the
/// other.
pub open spec fn with_all_meshtls(
    all: AuthenticationsModel,
    listed: Seq<ListedModel<Text, Seq<IdentityMatchModel>>>,
) -> AuthenticationsModel
    decreases listed.len(),
{
    if listed.len() == 0 {
        all
    } else {
        let last = listed.last();
        let earlier = with_all_meshtls(all, listed.drop_last());
        with_meshtls(earlier, last.namespace, last.key, last.value)
    }
}

/// The authentications with some `NetworkAuthentication`s set, one after the
/// other.
pub open spec fn with_all_network(
    all: AuthenticationsModel,
    listed: Seq<ListedModel<Text, Seq<NetworkMatchModel>>>,
) -> AuthenticationsModel
    decreases listed.len(),
{
    if listed.len() == 0 {
        all
    } else {
        let last = listed.last();
        let earlier = with_all_network(all, listed.drop_last());
        with_network(earlier, last.namespace, last.key, last.value)
    }
}

/// Whether one of the `MeshTLSAuthentication`s, when it is set, changes
/// anything.
pub open spec fn some_meshtls_change(
    all: AuthenticationsModel,
    listed: Seq<ListedModel<Text, Seq<IdentityMatchModel>>>,
) -> bool {
    exists|i: int|
        0 <= i < listed.len() && #[trigger] with_all_meshtls(all, listed.take(i))
            != with_all_meshtls(all, listed.take(i + 1))
}

/// Whether one of the `NetworkAuthentication`s, when it is set, changes
/// anything.
pub open spec fn some_network_change(
    all: AuthenticationsModel,
    listed: Seq<ListedModel<Text, Seq<NetworkMatchModel>>>,
) -> bool {
    exists|i: int|
        0 <= i < listed.len() && #[trigger] with_all_network(all, listed.take(i))
            != with_all_network(all, listed.take(i + 1))
}

/// One more `NetworkAuthentication` is set after the others, and changes
/// something if one of the others does or it does itself.
proof fn one_more_network(
    all: AuthenticationsModel,
    listed: Seq<ListedModel<Text, Seq<NetworkMatchModel>>>,
    last: ListedModel<Text, Seq<NetworkMatchModel>>,
)
    ensures
        with_all_network(all, listed.push(last)) == with_network(
            with_all_network(all, listed),
            last.namespace,
            last.key,
            last.value,
        ),
        some_network_change(all, listed.push(last)) == (some_network_change(all, listed)
            || with_all_network(all, listed) != with_all_network(all, listed.push(last))),
{
    let more = listed.push(last);
    let n = listed.len() as int;
    assert(more.take(n) =~= listed);
    assert(more.take(n + 1) =~= more);
    assert forall|i: int| 0 <= i < n implies more.take(i) == #[trigger] listed.take(i) && more.take(
        i + 1,
    ) == listed.take(i + 1) by {}
    if some_network_change(all, more) {
        let i = choose|i: int|
            0 <= i < n + 1 && #[trigger] with_all_network(all, more.take(i)) != with_all_network(
                all,
                more.take(i + 1),
            );
        if i < n {
            assert(with_all_network(all, listed.take(i)) != with_all_network(
                all,
                listed.take(i + 1),
            ));
        }
    }
}

impl AuthenticationNsIndex {
    /// Sets the valid `MeshTLSAuthentication`s of a listing and tells whether
    /// one of them changed anything.
    pub fn update_all_meshtls(
        &mut self,
        listed: Vec<Listed<String, Option<Vec<IdentityMatch>>>>,
    ) -> (changed: bool)
        ensures
            final(self).deep_view() == with_all_meshtls(
                old(self).deep_view(),
                valid(listed.deep_view()),
            ),
            changed == some_meshtls_change(old(self).deep_view(), valid(listed.deep_view())),
    {
        let ghost before = self.deep_view();
        let listed = keep_valid(listed);
        let ghost all = listed.deep_view();
        let mut changed = false;
        for item in it: listed
            invariant
                all.len() == it.seq().len(),
                forall|j: int| 0 <= j < all.len() ==> #[trigger] all[j] == it.seq()[j].deep_view(),
                self.deep_view() == with_all_meshtls(before, all.take(it.index())),
                changed == exists|i: int|
                    0 <= i < it.index() && #[trigger] with_all_meshtls(before, all.take(i))
                        != with_all_meshtls(before, all.take(i + 1)),
        {
            let ghost i = it.index();
            assert(all.take(i + 1).drop_last() =~= all.take(i));
            changed = self.update_meshtls(item.namespace, item.key, item.value) || changed;
        }
        assert(all.take(all.len() as int) =~= all);
        changed
    }

    /// Sets the `NetworkAuthentication`s of a listing, up to the first that is
    /// not valid. Tells whether one of them changed anything, or nothing if not
    /// all are valid.
    pub fn update_all_network(
        &mut self,
        listed: Vec<Listed<String, Option<Vec<NetworkMatch>>>>,
    ) -> (changed: Option<bool>)
        ensures
            ({
                let n = valid_start(listed.deep_view());
                let taken = valid(listed.deep_view().take(n as int));
                &&& final(self).deep_view() == with_all_network(old(self).deep_view(), taken)
                &&& changed == if n < listed.deep_view().len() {
                    None
                } else {
                    Some(some_network_change(old(self).deep_view(), taken))
                }
            }),
    {
        let ghost before = self.deep_view();
        let ghost all = listed.deep_view();
        let mut changed = false;
        for item in it: listed
            invariant
                all == listed.deep_view(),
                all.len() == it.seq().len(),
                before == old(self).deep_view(),
                forall|j: int| 0 <= j < all.len() ==> #[trigger] all[j] == it.seq()[j].deep_view(),
                valid_start(all.take(it.index())) == it.index(),
                self.deep_view() == with_all_network(before, valid(all.take(it.index()))),
                changed == some_network_change(before, valid(all.take(it.index()))),
        {
            let ghost i = it.index();
            assert(all.take(i + 1).drop_last() =~= all.take(i));
            let Listed { namespace, key, value } = item;
            let value = match value {
                Some(value) => value,
                None => {
                    proof {
                        valid_start_of_part(all, i + 1);
                    }
                    return None;
                },
            };
            let ghost last = ListedModel {
                namespace: namespace@,
                key: key@,
                value: value.deep_view(),
            };
            proof {
                one_more_network(before, valid(all.take(i)), last);
            }
            changed = self.update_network(namespace, key, value) || changed;
        }
        assert(all.take(all.len() as int) =~= all);
        Some(changed)
    }

    /// Forgets the `MeshTLSAuthentication`s of some names, given by namespace.
    pub fn delete_meshtls(&mut self, deleted: NameTable<Vec<String>>)
        ensures
            final(self).deep_view() == without_meshtls(old(self).deep_view(), deleted.deep_view()),
    {
        let ghost before = self.deep_view();
        let ghost gone = deleted.deep_view();
        let mut deleted = deleted;
        loop
            invariant
                deleted.deep_view().submap_of(gone),
                self.deep_view() == without_meshtls(
                    before,
                    gone.remove_keys(deleted.deep_view().dom()),
                ),
            ensures
                self.deep_view() == without_meshtls(before, gone),
            decreases deleted.walk().len(),
        {
            let ghost left = deleted.deep_view();
            let (namespace, names) = match deleted.pop() {
                Some(entry) => entry,
                None => break,
            };
            assert(gone.contains_key(namespace@) && gone[namespace@] == left[namespace@]);
            let empty = match self.by_ns.get_mut(&namespace) {
                Some(ns) => {
                    ns.meshtls.remove_all(&names);
                    ns.is_empty()
                },
                None => false,
            };
            if empty {
                let _ = self.by_ns.remove(&namespace);
            }
        }
    }

    /// Forgets a `NetworkAuthentication` and tells whether its namespace was
    /// known.
    pub fn delete_network(&mut self, namespace: &String, name: &String) -> (known: bool)
        ensures
            final(self).deep_view() == without_network(old(self).deep_view(), namespace@, name@),
            known == old(self).deep_view().contains_key(namespace@),
    {
        let empty = match self.by_ns.get_mut(namespace) {
            Some(ns) => {
                let _ = ns.network.remove(name);
                ns.is_empty()
            },
            None => return false,
        };
        if empty {
            let _ = self.by_ns.remove(namespace);
        }
        true
    }
}

} // verus!
