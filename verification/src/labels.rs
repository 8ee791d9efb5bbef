//! Labels and the selectors that pick resources by them.
use crate::table::NameTable;
use crate::value::{Text, Value};
use vstd::prelude::*;

verus! {

/// The labels of a resource.
pub type Labels = NameTable<String>;

/// What an expression asks of the value of a label.
#[derive(Clone, Copy, Debug, PartialEq, Eq, Structural)]
pub enum Operator {
    /// That it is one of the values given.
    In,
    /// That it is none of the values given; a missing label passes.
    NotIn,
    /// That there is one.
    Exists,
    /// That there is none.
    DoesNotExist,
}

impl DeepView for Operator {
    type V = Operator;

    open spec fn deep_view(&self) -> Operator {
        *self
    }
}

impl Value for Operator {
    fn same(&self, other: &Self) -> (r: bool) {
        *self == *other
    }

    fn dup(&self) -> (r: Self) {
        *self
    }
}

/// A condition on one label.
#[derive(Debug)]
pub struct Expression {
    /// The label.
    pub key: String,
    /// What is asked of it.
    pub operator: Operator,
    /// The values that `In` and `NotIn` compare with, in ascending order.
    pub values: Option<Vec<String>>,
}

/// What an [`Expression`] means.
#[verifier::ext_equal]
pub struct ExpressionModel {
    pub key: Text,
    pub operator: Operator,
    pub values: Option<Seq<Text>>,
}

impl DeepView for Expression {
    type V = ExpressionModel;

    open spec fn deep_view(&self) -> ExpressionModel {
        ExpressionModel {
            key: self.key.deep_view(),
            operator: self.operator.deep_view(),
            values: self.values.deep_view(),
        }
    }
}

impl Value for Expression {
    fn same(&self, other: &Self) -> (r: bool) {
        self.key.same(&other.key)
            && self.operator.same(&other.operator)
            && self.values.same(&other.values)
    }

    fn dup(&self) -> (r: Self) {
        Expression {
            key: self.key.dup(),
            operator: self.operator.dup(),
            values: self.values.dup(),
        }
    }
}

/// A choice of resources by their labels.
#[derive(Debug)]
pub struct Selector {
    /// The labels that a resource must have.
    pub match_labels: Labels,
    /// The conditions that its labels must meet.
    pub match_expressions: Vec<Expression>,
}

/// What a [`Selector`] means.
#[verifier::ext_equal]
pub struct SelectorModel {
    pub match_labels: Map<Text, Text>,
    pub match_expressions: Seq<ExpressionModel>,
}

impl DeepView for Selector {
    type V = SelectorModel;

    open spec fn deep_view(&self) -> SelectorModel {
        SelectorModel {
            match_labels: self.match_labels.deep_view(),
            match_expressions: self.match_expressions.deep_view(),
        }
    }
}

impl Value for Selector {
    fn same(&self, other: &Self) -> (r: bool) {
        self.match_labels.same(&other.match_labels)
            && self.match_expressions.same(&other.match_expressions)
    }

    fn dup(&self) -> (r: Self) {
        Selector {
            match_labels: self.match_labels.dup(),
            match_expressions: self.match_expressions.dup(),
        }
    }
}

impl ExpressionModel {
    /// Whether labels meet the condition. One that gives values where none are
    /// asked for, or none where some are, is met by nothing.
    pub open spec fn matches(self, labels: Map<Text, Text>) -> bool {
        match (self.operator, self.values) {
            (Operator::In, Some(values)) => labels.contains_key(self.key) && values.contains(
                labels[self.key],
            ),
            (Operator::NotIn, Some(values)) => !(labels.contains_key(self.key) && values.contains(
                labels[self.key],
            )),
            (Operator::Exists, None) => labels.contains_key(self.key),
            (Operator::DoesNotExist, None) => !labels.contains_key(self.key),
            _ => false,
        }
    }
}

impl SelectorModel {
    /// Whether a resource with these labels is chosen.
    pub open spec fn matches(self, labels: Map<Text, Text>) -> bool {
        &&& self.match_labels.submap_of(labels)
        &&& forall|i: int|
            0 <= i < self.match_expressions.len()
                ==> (#[trigger] self.match_expressions[i]).matches(labels)
    }
}

/// Whether a list of texts holds one of them.
fn holds(values: &Vec<String>, value: &String) -> (r: bool)
    ensures
        r == values.deep_view().contains(value@),
{
    let mut i: usize = 0;
    while i < values.len()
        invariant
            i <= values.len(),
            forall|j: int| 0 <= j < i ==> (#[trigger] values.deep_view()[j]) != value@,
        decreases values.len() - i,
    {
        if values[i] == *value {
            assert(values.deep_view()[i as int] == value@);
            return true;
        }
        i = i + 1;
    }
    false
}

impl Expression {
    /// Whether labels meet the condition.
    pub fn matches(&self, labels: &Labels) -> (r: bool)
        ensures
            r == self.deep_view().matches(labels.deep_view()),
    {
        match (self.operator, &self.values) {
            (Operator::In, Some(values)) => match labels.get(&self.key) {
                Some(value) => holds(values, value),
                None => false,
            },
            (Operator::NotIn, Some(values)) => match labels.get(&self.key) {
                Some(value) => !holds(values, value),
                None => true,
            },
            (Operator::Exists, None) => labels.get(&self.key).is_some(),
            (Operator::DoesNotExist, None) => labels.get(&self.key).is_none(),
            _ => false,
        }
    }
}

impl Selector {
    /// Whether a resource with these labels is chosen.
    pub fn matches(&self, labels: &Labels) -> (r: bool)
        ensures
            r == self.deep_view().matches(labels.deep_view()),
    {
        let mut i: usize = 0;
        while i < self.match_expressions.len()
            invariant
                i <= self.match_expressions.len(),
                forall|j: int|
                    0 <= j < i ==> (#[trigger] self.deep_view().match_expressions[j]).matches(
                        labels.deep_view(),
                    ),
            decreases self.match_expressions.len() - i,
        {
            assert(self.deep_view().match_expressions[i as int]
                == self.match_expressions[i as int].deep_view());
            if !self.match_expressions[i].matches(labels) {
                return false;
            }
            i = i + 1;
        }
        self.match_labels.within(labels)
    }
}

} // verus!
