//! Which routes a server offers, and what a port publishes with them.
use crate::authentications::AuthenticationsModel;
use crate::authz::{
    AuthorizationRefModel, ClientAuthenticationModel, ClientAuthorizationModel, NetworkMatchModel,
};
use crate::cluster::ClusterInfoModel;
use crate::external::ExternalGroupModel;
use crate::inbound::{ProxyProtocol, ServerRefModel};
use crate::policy::PolicyModel;
use crate::route::{
    GroupKindNameModel, HttpRouteMatchModel, HttpRouteModel, HttpRouteRefModel, ParentRefModel,
    PathMatchModel,
};
use crate::server::ServerModel;
use crate::value::Text;
use vstd::prelude::*;

verus! {

/// A route that asks for a server and is accepted by it is offered by the server
/// as the resource describes it: with its hosts, its rules and the time at which it
/// was created. Who may use it is for the policies that target it to say.
pub proof fn attached_route_is_offered_whole(
    policy: PolicyModel,
    name: Text,
    authns: AuthenticationsModel,
    probe_paths: Seq<Text>,
    gkn: GroupKindNameModel,
    parent: int,
    answer: int,
)
    requires
        policy.http_routes.contains_key(gkn),
        0 <= parent < policy.http_routes[gkn].parents.len(),
        policy.http_routes[gkn].parents[parent] == ParentRefModel::Server(name),
        0 <= answer < policy.http_routes[gkn].statuses.len(),
        policy.http_routes[gkn].statuses[answer].parent == ParentRefModel::Server(name),
        policy.http_routes[gkn].statuses[answer].accepted,
    ensures
        ({
            let routes = policy.routes(name, authns, probe_paths);
            let reference = HttpRouteRefModel::Linkerd(gkn);
            let given = policy.http_routes[gkn].route;
            &&& routes.contains_key(reference)
            &&& routes[reference].hostnames == given.hostnames
            &&& routes[reference].rules == given.rules
            &&& routes[reference].creation_timestamp == given.creation_timestamp
            &&& routes[reference].authorizations == policy.route_client_authzs(gkn, authns)
        }),
{
    assert(policy.http_routes[gkn].accepted_by_server(name));
    policy.attached_routes_replace_defaults(name, authns, probe_paths, gkn, Seq::empty());
}

/// A server offers no route resource that does not ask for it, or that it has not
/// accepted.
pub proof fn offered_route_is_attached(
    policy: PolicyModel,
    name: Text,
    authns: AuthenticationsModel,
    probe_paths: Seq<Text>,
    gkn: GroupKindNameModel,
)
    requires
        policy.routes(name, authns, probe_paths).contains_key(HttpRouteRefModel::Linkerd(gkn)),
    ensures
        policy.http_routes.contains_key(gkn),
        exists|i: int|
            0 <= i < policy.http_routes[gkn].parents.len()
                && #[trigger] policy.http_routes[gkn].parents[i] == ParentRefModel::Server(name),
        exists|i: int|
            0 <= i < policy.http_routes[gkn].statuses.len()
                && (#[trigger] policy.http_routes[gkn].statuses[i]).parent
                == ParentRefModel::Server(name) && policy.http_routes[gkn].statuses[i].accepted,
{
    let binding = policy.http_routes[gkn];
    crate::laws::selection::route_asks_for_its_parents(binding, name);
    reveal_strlit("default");
    reveal_strlit("probe");
}

/// A server offers a default route exactly if no route resource is attached to it:
/// one for all requests and, where probes are expected and may come from somewhere,
/// one for the probes.
pub proof fn default_routes_stand_in(
    policy: PolicyModel,
    name: Text,
    authns: AuthenticationsModel,
    probe_paths: Seq<Text>,
    default: Text,
)
    ensures
        policy.routes(name, authns, probe_paths).contains_key(HttpRouteRefModel::Default(default))
            <==> {
            &&& forall|gkn: GroupKindNameModel| #[trigger]
                policy.http_routes.contains_key(gkn) ==> !({
                    &&& policy.http_routes[gkn].selects_server(name)
                    &&& policy.http_routes[gkn].accepted_by_server(name)
                })
            &&& default == "default"@ || (default == "probe"@ && policy.cluster.probe_networks.len()
                > 0 && probe_paths.len() > 0)
        },
{
    let attached = policy.attached_routes(name, authns);
    let none = Map::<HttpRouteRefModel, HttpRouteModel>::empty();
    if forall|gkn: GroupKindNameModel| #[trigger]
        policy.http_routes.contains_key(gkn) ==> !({
            &&& policy.http_routes[gkn].selects_server(name)
            &&& policy.http_routes[gkn].accepted_by_server(name)
        }) {
        assert(attached =~= none);
    } else {
        let gkn = choose|gkn: GroupKindNameModel| #[trigger]
            policy.http_routes.contains_key(gkn) && policy.http_routes[gkn].selects_server(name)
                && policy.http_routes[gkn].accepted_by_server(name);
        assert(attached.contains_key(HttpRouteRefModel::Linkerd(gkn)));
        assert(attached != none);
    }
}

/// Where default routes stand in, they are those of the cluster.
pub proof fn default_routes_are_those_of_the_cluster(
    policy: PolicyModel,
    name: Text,
    authns: AuthenticationsModel,
    probe_paths: Seq<Text>,
    default: Text,
)
    requires
        policy.routes(name, authns, probe_paths).contains_key(HttpRouteRefModel::Default(default)),
    ensures
        policy.routes(name, authns, probe_paths)[HttpRouteRefModel::Default(default)]
            == policy.cluster.default_routes(probe_paths)[HttpRouteRefModel::Default(default)],
{
}

/// The default route is for every host, has one rule that every request meets, and
/// lets in nobody of its own.
pub proof fn default_route_takes_every_request(cluster: ClusterInfoModel, probe_paths: Seq<Text>)
    ensures
        ({
            let routes = cluster.default_routes(probe_paths);
            let route = routes[HttpRouteRefModel::Default("default"@)];
            &&& routes.contains_key(HttpRouteRefModel::Default("default"@))
            &&& route.hostnames.len() == 0
            &&& route.rules.len() == 1
            &&& route.rules[0].filters.len() == 0
            &&& route.rules[0].matches.len() == 1
            &&& route.rules[0].matches[0].path == Some(PathMatchModel::Prefix("/"@))
            &&& route.rules[0].matches[0].headers.len() == 0
            &&& route.rules[0].matches[0].query_params.len() == 0
            &&& route.rules[0].matches[0].method is None
            &&& route.authorizations
                == Map::<AuthorizationRefModel, ClientAuthorizationModel>::empty()
            &&& route.creation_timestamp is None
        }),
{
    reveal_strlit("default");
    reveal_strlit("probe");
    assert("default"@.len() != "probe"@.len());
}

/// The route for probes takes a request exactly if it reads one of the paths on
/// which probes are expected. It lets in every probe network, whole, and nobody
/// else, without authentication.
pub proof fn probe_route_takes_probes(cluster: ClusterInfoModel, probe_paths: Seq<Text>)
    requires
        cluster.probe_networks.len() > 0,
        probe_paths.len() > 0,
    ensures
        ({
            let routes = cluster.default_routes(probe_paths);
            let route = routes[HttpRouteRefModel::Default("probe"@)];
            let probe = AuthorizationRefModel::Default("probe"@);
            &&& routes.contains_key(HttpRouteRefModel::Default("probe"@))
            &&& route.hostnames.len() == 0
            &&& route.rules.len() == 1
            &&& route.rules[0].filters.len() == 0
            &&& route.rules[0].matches.len() == probe_paths.len()
            &&& forall|i: int|
                0 <= i < probe_paths.len() ==> #[trigger] route.rules[0].matches[i] == (
                HttpRouteMatchModel {
                    path: Some(PathMatchModel::Exact(probe_paths[i])),
                    headers: Seq::empty(),
                    query_params: Seq::empty(),
                    method: Some("GET"@),
                })
            &&& route.creation_timestamp is None
            &&& forall|r: AuthorizationRefModel|
                #![trigger route.authorizations.contains_key(r)]
                route.authorizations.contains_key(r) <==> r == probe
            &&& route.authorizations[probe].authentication
                == ClientAuthenticationModel::Unauthenticated
            &&& route.authorizations[probe].networks.len() == cluster.probe_networks.len()
            &&& forall|i: int|
                0 <= i < cluster.probe_networks.len()
                    ==> #[trigger] route.authorizations[probe].networks[i] == (NetworkMatchModel {
                    net: cluster.probe_networks[i],
                    except: Seq::empty(),
                })
        }),
{
}

/// A port that a server selects publishes that server: its name, its protocol, who
/// may talk to it and the routes that it offers.
pub proof fn server_is_published_whole(
    policy: PolicyModel,
    name: Text,
    server: ServerModel,
    authns: AuthenticationsModel,
    probe_paths: Seq<Text>,
)
    ensures
        ({
            let published = policy.inbound_server(name, server, authns, probe_paths);
            &&& published.reference == ServerRefModel::Server(name)
            &&& published.protocol == server.protocol
            &&& published.authorizations == policy.client_authzs(name, server, authns)
            &&& published.http_routes == policy.routes(name, authns, probe_paths)
        }),
{
}

/// A port that an external group lists publishes the group: its name, a protocol
/// that is to be detected in the time that the cluster allows, who may talk to it
/// and the routes that are attached to its name. It expects no probes.
pub proof fn group_is_published_whole(
    policy: PolicyModel,
    authns: AuthenticationsModel,
    name: Text,
    port: u16,
)
    ensures
        ({
            let published = ExternalGroupModel::configured(policy, authns, name, port);
            &&& published.reference == ServerRefModel::External(name)
            &&& published.protocol == (ProxyProtocol::Detect {
                timeout: policy.cluster.default_detect_timeout,
            })
            &&& published.authorizations == policy.workload_authzs(name, port, authns)
            &&& published.http_routes == policy.routes(name, authns, Seq::empty())
            &&& !published.http_routes.contains_key(HttpRouteRefModel::Default("probe"@))
        }),
{
    default_routes_stand_in(policy, name, authns, Seq::empty(), "probe"@);
    reveal_strlit("default");
    reveal_strlit("probe");
    assert("default"@.len() != "probe"@.len());
}

} // verus!
