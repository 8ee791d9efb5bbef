//! What selectors, targets and names pick.
use crate::authorization_policy::{SubjectModel, TargetModel};
use crate::labels::{ExpressionModel, Operator, SelectorModel};
use crate::pod::PodModel;
use crate::policy::PolicyModel;
use crate::route::{GroupKindNameModel, ParentRefModel, RouteBindingModel};
use crate::server::PortRefModel;
use crate::server_authorization::ServerSelectorModel;
use crate::text::equal_but_for_ascii_case;
use crate::value::Text;
use vstd::prelude::*;

verus! {

/// An expression that compares with values is met by exactly one of the labels
/// that have one of them and the labels that do not, as it is positive or
/// negative. The values of other labels are of no account.
pub proof fn expression_compares_one_label(
    key: Text,
    values: Seq<Text>,
    labels: Map<Text, Text>,
    other: Map<Text, Text>,
)
    ensures
        ({
            let is_in = ExpressionModel { key, operator: Operator::In, values: Some(values) };
            let is_not = ExpressionModel { key, operator: Operator::NotIn, values: Some(values) };
            &&& is_in.matches(labels) <==> exists|i: int|
                0 <= i < values.len() && labels.contains_pair(key, #[trigger] values[i])
            &&& is_not.matches(labels) <==> !is_in.matches(labels)
            &&& labels.get(key) == other.get(key) ==> is_in.matches(labels) == is_in.matches(other)
        }),
{
    let is_in = ExpressionModel { key, operator: Operator::In, values: Some(values) };
    if is_in.matches(labels) {
        let i = choose|i: int| 0 <= i < values.len() && values[i] == labels[key];
        assert(labels.contains_pair(key, values[i]));
    }
    if labels.get(key) == other.get(key) {
        assert(labels.contains_key(key) == other.contains_key(key));
    }
}

/// An expression that asks whether a label is there is met accordingly, whatever
/// the value of the label.
pub proof fn expression_asks_for_a_label(key: Text, labels: Map<Text, Text>)
    ensures
        (ExpressionModel { key, operator: Operator::Exists, values: None }).matches(labels)
            <==> labels.dom().contains(key),
        (ExpressionModel { key, operator: Operator::DoesNotExist, values: None }).matches(labels)
            <==> !labels.dom().contains(key),
{
}

/// An expression with values that are not asked for, or without values that are,
/// is met by nothing.
pub proof fn malformed_expression_is_never_met(
    key: Text,
    values: Seq<Text>,
    labels: Map<Text, Text>,
)
    ensures
        !(ExpressionModel { key, operator: Operator::In, values: None }).matches(labels),
        !(ExpressionModel { key, operator: Operator::NotIn, values: None }).matches(labels),
        !(ExpressionModel { key, operator: Operator::Exists, values: Some(values) }).matches(
            labels,
        ),
        !(ExpressionModel { key, operator: Operator::DoesNotExist, values: Some(values) }).matches(
            labels,
        ),
{
}

/// A selector picks a resource exactly if the resource has every label that the
/// selector names, with its value, and meets every expression.
pub proof fn selector_asks_for_all(selector: SelectorModel, labels: Map<Text, Text>)
    ensures
        selector.matches(labels) <==> {
            &&& forall|key: Text| #[trigger]
                selector.match_labels.contains_key(key) ==> labels.contains_pair(
                    key,
                    selector.match_labels[key],
                )
            &&& forall|i: int|
                0 <= i < selector.match_expressions.len()
                    ==> (#[trigger] selector.match_expressions[i]).matches(labels)
        },
{
    if forall|key: Text| #[trigger]
        selector.match_labels.contains_key(key) ==> labels.contains_pair(
            key,
            selector.match_labels[key],
        ) {
        assert(selector.match_labels.submap_of(labels));
    }
    if selector.match_labels.submap_of(labels) {
        assert forall|key: Text| #[trigger]
            selector.match_labels.contains_key(key) implies labels.contains_pair(
            key,
            selector.match_labels[key],
        ) by {
            assert(labels.dom().contains(key));
        }
    }
}

/// A selector without conditions picks everything.
pub proof fn empty_selector_picks_all(labels: Map<Text, Text>)
    ensures
        (SelectorModel { match_labels: Map::empty(), match_expressions: Seq::empty() }).matches(
            labels,
        ),
{
}

/// A `ServerAuthorization` selects servers either by their name, whatever their
/// labels, or by their labels, whatever their name.
pub proof fn server_selector_goes_by_name_or_labels(
    wanted: Text,
    selector: SelectorModel,
    name: Text,
    labels: Map<Text, Text>,
)
    ensures
        ServerSelectorModel::Name(wanted).selects(name, labels) <==> name == wanted,
        ServerSelectorModel::Selector(selector).selects(name, labels) <==> selector.matches(labels),
{
}

/// A policy that targets a server applies to it and to nothing else.
pub proof fn server_target_applies_to_it(name: Text, subject: SubjectModel)
    ensures
        TargetModel::Server(name).applies_to(subject) <==> subject == SubjectModel::Server(name),
{
}

/// A policy that targets a port of an external group applies to it and to nothing
/// else; without a port it applies to nothing.
pub proof fn group_target_applies_to_its_port(name: Text, port: u16, subject: SubjectModel)
    ensures
        TargetModel::ExternalGroup((name, Some(port))).applies_to(subject) <==> subject
            == SubjectModel::Workload(name, port),
        !TargetModel::ExternalGroup((name, None)).applies_to(subject),
{
}

/// A policy that targets the namespace applies to all its servers and all ports of
/// its external groups, but to no route.
pub proof fn namespace_target_applies_to_all_but_routes(subject: SubjectModel)
    ensures
        TargetModel::Namespace.applies_to(subject) <==> subject is Server || subject is Workload,
{
}

/// A policy that targets a route applies to the routes of that name and to nothing
/// else, where the case of ASCII letters is of no account.
pub proof fn route_target_applies_to_its_name(target: GroupKindNameModel, subject: SubjectModel)
    ensures
        TargetModel::HttpRoute(target).applies_to(subject) <==> (subject
            matches SubjectModel::Route(gkn) && {
            &&& equal_but_for_ascii_case(target.group, gkn.group)
            &&& equal_but_for_ascii_case(target.kind, gkn.kind)
            &&& equal_but_for_ascii_case(target.name, gkn.name)
        }),
{
}

/// Texts are equal but for the case of ASCII letters if they are equally long and
/// hold, place by place, the same character or the two cases of one letter.
pub proof fn case_is_that_of_ascii_letters(a: Text, b: Text)
    ensures
        equal_but_for_ascii_case(a, b) <==> a.len() == b.len() && forall|i: int|
            0 <= i < a.len() ==> {
                ||| #[trigger] a[i] == b[i]
                ||| 'A' <= a[i] <= 'Z' && b[i] as int == a[i] as int + ('a' as int - 'A' as int)
                ||| 'A' <= b[i] <= 'Z' && a[i] as int == b[i] as int + ('a' as int - 'A' as int)
            },
{
    let x = crate::text::ascii_small_text(a);
    let y = crate::text::ascii_small_text(b);
    assert(x.len() == a.len() && y.len() == b.len());
    assert forall|i: int| 0 <= i < a.len() implies #[trigger] x[i] == crate::text::ascii_small(
        a[i],
    ) by {}
    assert forall|i: int| 0 <= i < b.len() implies #[trigger] y[i] == crate::text::ascii_small(
        b[i],
    ) by {}
    if equal_but_for_ascii_case(a, b) {
        assert forall|i: int| 0 <= i < a.len() implies {
            ||| #[trigger] a[i] == b[i]
            ||| 'A' <= a[i] <= 'Z' && b[i] as int == a[i] as int + ('a' as int - 'A' as int)
            ||| 'A' <= b[i] <= 'Z' && a[i] as int == b[i] as int + ('a' as int - 'A' as int)
        } by {
            assert(x[i] == y[i]);
        }
    } else if a.len() == b.len() {
        assert(!(x =~= y));
        let i = choose|i: int| 0 <= i < a.len() && x[i] != y[i];
        assert(a[i] != b[i]);
    }
}

/// A route asks for the servers among its parents.
pub proof fn route_asks_for_its_parents(binding: RouteBindingModel, name: Text)
    ensures
        binding.selects_server(name) <==> exists|i: int|
            0 <= i < binding.parents.len() && #[trigger] binding.parents[i]
                == ParentRefModel::Server(name),
{
    if binding.selects_server(name) {
        let i = choose|i: int|
            0 <= i < binding.parents.len() && binding.parents[i] == ParentRefModel::Server(name);
        assert(binding.parents[i] == ParentRefModel::Server(name));
    }
}

/// A route is accepted by a server if, and only if, one of the answers of that
/// server accepts it. The answers of others are of no account.
pub proof fn route_is_accepted_by_answer(binding: RouteBindingModel, name: Text)
    ensures
        binding.accepted_by_server(name) <==> exists|i: int|
            0 <= i < binding.statuses.len() && #[trigger] binding.statuses[i].accepted
                && binding.statuses[i].parent == ParentRefModel::Server(name),
{
    if binding.accepted_by_server(name) {
        let i = choose|i: int|
            0 <= i < binding.statuses.len() && (#[trigger] binding.statuses[i]).parent
                == ParentRefModel::Server(name) && binding.statuses[i].accepted;
        assert(binding.statuses[i].accepted);
    }
}

/// A server selects a port of a pod exactly if it picks the pod by its labels and
/// means the port, by its number or by one of the names that the pod gives it.
pub proof fn server_selects_pod_and_port(pod: PodModel, policy: PolicyModel, name: Text, port: u16)
    ensures
        pod.selected(policy, name, port) <==> {
            let server = policy.servers[name];
            &&& server.pod_selector.matches(pod.meta.labels)
            &&& {
                ||| server.port_ref == PortRefModel::Number(port)
                ||| server.port_ref matches PortRefModel::Name(port_name)
                    && pod.port_names.contains_key(port_name)
                    && pod.port_names[port_name].contains(port)
            }
        },
{
}

} // verus!
