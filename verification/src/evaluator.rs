//! The evaluator: what an expression amounts to over given input slots, and
//! the compiled form that computes it.

use crate::ast::AstNode;
use crate::errors::SecelError;
pub use crate::lexer::IndexKey;
use crate::values::Value;
use std::collections::HashMap;
use vstd::prelude::*;

verus! {

broadcast use vstd::std_specs::hash::group_hash_axioms;

/// The input slots: a value for some of the keys.
pub type IndexedValues = HashMap<IndexKey, Value>;

/// The content of the slot `key`: `Null` where the slots hold nothing
/// for it.
pub open spec fn slot(values: Map<IndexKey, Value>, key: IndexKey) -> Value {
    if values.contains_key(key) {
        values[key]
    } else {
        Value::Null
    }
}

/// `and` of two values: defined for two truth values only.
pub open spec fn and_values(left: Value, right: Value) -> Value {
    match (left, right) {
        (Value::Bool(a), Value::Bool(b)) => Value::Bool(a && b),
        _ => Value::Null,
    }
}

/// `or` of two values: defined for two truth values only.
pub open spec fn or_values(left: Value, right: Value) -> Value {
    match (left, right) {
        (Value::Bool(a), Value::Bool(b)) => Value::Bool(a || b),
        _ => Value::Null,
    }
}

/// `=` of two values: numbers are compared, `null` equals `null` and no
/// number; a truth value on either side gives `Null`.
pub open spec fn eq_values(left: Value, right: Value) -> Value {
    match (left, right) {
        (Value::Number(a), Value::Number(b)) => Value::Bool(a@.same(b@)),
        (Value::Number(_), Value::Null) => Value::Bool(false),
        (Value::Null, Value::Number(_)) => Value::Bool(false),
        (Value::Null, Value::Null) => Value::Bool(true),
        _ => Value::Null,
    }
}

/// `<>` of two values: the opposite of `=` where that is a truth value.
pub open spec fn nq_values(left: Value, right: Value) -> Value {
    match (left, right) {
        (Value::Number(a), Value::Number(b)) => Value::Bool(!a@.same(b@)),
        (Value::Number(_), Value::Null) => Value::Bool(true),
        (Value::Null, Value::Number(_)) => Value::Bool(true),
        (Value::Null, Value::Null) => Value::Bool(false),
        _ => Value::Null,
    }
}

/// `>=` of two values: defined for two numbers only.
pub open spec fn ge_values(left: Value, right: Value) -> Value {
    match (left, right) {
        (Value::Number(a), Value::Number(b)) => Value::Bool(!a@.below(b@)),
        _ => Value::Null,
    }
}

/// `>` of two values: defined for two numbers only.
pub open spec fn gt_values(left: Value, right: Value) -> Value {
    match (left, right) {
        (Value::Number(a), Value::Number(b)) => Value::Bool(b@.below(a@)),
        _ => Value::Null,
    }
}

/// `<=` of two values: defined for two numbers only.
pub open spec fn le_values(left: Value, right: Value) -> Value {
    match (left, right) {
        (Value::Number(a), Value::Number(b)) => Value::Bool(!b@.below(a@)),
        _ => Value::Null,
    }
}

/// `<` of two values: defined for two numbers only.
pub open spec fn lt_values(left: Value, right: Value) -> Value {
    match (left, right) {
        (Value::Number(a), Value::Number(b)) => Value::Bool(a@.below(b@)),
        _ => Value::Null,
    }
}

/// `if`: the second value where the first is true, the third where it is
/// false, `Null` where it is no truth value.
pub open spec fn if_values(test: Value, accept: Value, reject: Value) -> Value {
    match test {
        Value::Bool(true) => accept,
        Value::Bool(false) => reject,
        _ => Value::Null,
    }
}

/// What the expression amounts to over the input slots `values`.
pub open spec fn result(node: AstNode, values: Map<IndexKey, Value>) -> Value
    decreases node,
{
    match node {
        AstNode::And(lhs, rhs) => and_values(result(*lhs, values), result(*rhs, values)),
        AstNode::Eq(lhs, rhs) => eq_values(result(*lhs, values), result(*rhs, values)),
        AstNode::Ge(lhs, rhs) => ge_values(result(*lhs, values), result(*rhs, values)),
        AstNode::Gt(lhs, rhs) => gt_values(result(*lhs, values), result(*rhs, values)),
        AstNode::If(mhs, lhs, rhs) => if_values(
            result(*mhs, values),
            result(*lhs, values),
            result(*rhs, values),
        ),
        AstNode::Le(lhs, rhs) => le_values(result(*lhs, values), result(*rhs, values)),
        AstNode::Lt(lhs, rhs) => lt_values(result(*lhs, values), result(*rhs, values)),
        AstNode::Or(lhs, rhs) => or_values(result(*lhs, values), result(*rhs, values)),
        AstNode::Null => Value::Null,
        AstNode::Number(key) => slot(values, key),
        AstNode::Nq(lhs, rhs) => nq_values(result(*lhs, values), result(*rhs, values)),
    }
}

/// A slot that the input does not hold amounts to `Null`.
pub proof fn lemma_absent_slot_is_null(key: IndexKey, values: Map<IndexKey, Value>)
    requires
        !values.contains_key(key),
    ensures
        result(AstNode::Number(key), values) == Value::Null,
{
}

/// An ordering comparison has no truth value unless both operands are
/// numbers: `>=`, `>`, `<=` and `<` amount to `Null` where either side is
/// `Null` or a truth value.
pub proof fn lemma_ordering_needs_two_numbers(
    lhs: AstNode,
    rhs: AstNode,
    values: Map<IndexKey, Value>,
)
    requires
        !(result(lhs, values) is Number) || !(result(rhs, values) is Number),
    ensures
        result(AstNode::Ge(Box::new(lhs), Box::new(rhs)), values) == Value::Null,
        result(AstNode::Gt(Box::new(lhs), Box::new(rhs)), values) == Value::Null,
        result(AstNode::Le(Box::new(lhs), Box::new(rhs)), values) == Value::Null,
        result(AstNode::Lt(Box::new(lhs), Box::new(rhs)), values) == Value::Null,
{
}

/// An ordering comparison of two slots amounts to `Null`, and to no truth
/// value, where the input does not hold one of them.
pub proof fn lemma_ordering_of_absent_slot_is_null(
    left: IndexKey,
    right: IndexKey,
    values: Map<IndexKey, Value>,
)
    requires
        !values.contains_key(left) || !values.contains_key(right),
    ensures
        result(
            AstNode::Ge(Box::new(AstNode::Number(left)), Box::new(AstNode::Number(right))),
            values,
        ) == Value::Null,
        result(
            AstNode::Gt(Box::new(AstNode::Number(left)), Box::new(AstNode::Number(right))),
            values,
        ) == Value::Null,
        result(
            AstNode::Le(Box::new(AstNode::Number(left)), Box::new(AstNode::Number(right))),
            values,
        ) == Value::Null,
        result(
            AstNode::Lt(Box::new(AstNode::Number(left)), Box::new(AstNode::Number(right))),
            values,
        ) == Value::Null,
{
    lemma_ordering_needs_two_numbers(AstNode::Number(left), AstNode::Number(right), values);
}

/// `null = null` is true, and a slot that holds a number does not equal
/// `null`, on whichever side the `null` stands; `<>` says the opposite.
pub proof fn lemma_equality_with_null(key: IndexKey, values: Map<IndexKey, Value>)
    ensures
        result(AstNode::Eq(Box::new(AstNode::Null), Box::new(AstNode::Null)), values)
            == Value::Bool(true),
        result(AstNode::Nq(Box::new(AstNode::Null), Box::new(AstNode::Null)), values)
            == Value::Bool(false),
        slot(values, key) is Number ==> result(
            AstNode::Eq(Box::new(AstNode::Number(key)), Box::new(AstNode::Null)),
            values,
        ) == Value::Bool(false),
        slot(values, key) is Number ==> result(
            AstNode::Eq(Box::new(AstNode::Null), Box::new(AstNode::Number(key))),
            values,
        ) == Value::Bool(false),
        slot(values, key) is Number ==> result(
            AstNode::Nq(Box::new(AstNode::Number(key)), Box::new(AstNode::Null)),
            values,
        ) == Value::Bool(true),
        slot(values, key) is Number ==> result(
            AstNode::Nq(Box::new(AstNode::Null), Box::new(AstNode::Number(key))),
            values,
        ) == Value::Bool(true),
{
    reveal_with_fuel(result, 2);
}

/// `and` and `or` have no truth value unless both operands have one: they
/// amount to `Null` where either side is `Null` or a number, whatever the
/// other side amounts to.
pub proof fn lemma_connective_needs_two_truth_values(
    lhs: AstNode,
    rhs: AstNode,
    values: Map<IndexKey, Value>,
)
    requires
        !(result(lhs, values) is Bool) || !(result(rhs, values) is Bool),
    ensures
        result(AstNode::And(Box::new(lhs), Box::new(rhs)), values) == Value::Null,
        result(AstNode::Or(Box::new(lhs), Box::new(rhs)), values) == Value::Null,
{
}

/// A slot that holds a number makes `and` and `or` amount to `Null`,
/// whatever the other operand is.
pub proof fn lemma_number_spoils_connective(
    key: IndexKey,
    other: AstNode,
    values: Map<IndexKey, Value>,
)
    requires
        slot(values, key) is Number,
    ensures
        result(AstNode::And(Box::new(AstNode::Number(key)), Box::new(other)), values)
            == Value::Null,
        result(AstNode::And(Box::new(other), Box::new(AstNode::Number(key))), values)
            == Value::Null,
        result(AstNode::Or(Box::new(AstNode::Number(key)), Box::new(other)), values)
            == Value::Null,
        result(AstNode::Or(Box::new(other), Box::new(AstNode::Number(key))), values)
            == Value::Null,
{
    lemma_connective_needs_two_truth_values(AstNode::Number(key), other, values);
    lemma_connective_needs_two_truth_values(other, AstNode::Number(key), values);
}

/// An `if` whose condition has no truth value amounts to `Null`, whatever
/// its branches are.
pub proof fn lemma_if_needs_truth_value(
    mhs: AstNode,
    lhs: AstNode,
    rhs: AstNode,
    values: Map<IndexKey, Value>,
)
    requires
        !(result(mhs, values) is Bool),
    ensures
        result(AstNode::If(Box::new(mhs), Box::new(lhs), Box::new(rhs)), values) == Value::Null,
{
}

/// A step of a compiled expression: the operation, and the compiled forms
/// of its operands.
enum Step {
    And(Box<Step>, Box<Step>),
    Eq(Box<Step>, Box<Step>),
    Ge(Box<Step>, Box<Step>),
    Gt(Box<Step>, Box<Step>),
    If(Box<Step>, Box<Step>, Box<Step>),
    Le(Box<Step>, Box<Step>),
    Lt(Box<Step>, Box<Step>),
    Nq(Box<Step>, Box<Step>),
    Null,
    Number(IndexKey),
    Or(Box<Step>, Box<Step>),
}

impl Step {
    /// The expression that the step computes.
    spec fn source(self) -> AstNode
        decreases self,
    {
        match self {
            Step::And(lhe, rhe) => AstNode::And(Box::new(lhe.source()), Box::new(rhe.source())),
            Step::Eq(lhe, rhe) => AstNode::Eq(Box::new(lhe.source()), Box::new(rhe.source())),
            Step::Ge(lhe, rhe) => AstNode::Ge(Box::new(lhe.source()), Box::new(rhe.source())),
            Step::Gt(lhe, rhe) => AstNode::Gt(Box::new(lhe.source()), Box::new(rhe.source())),
            Step::If(mhe, lhe, rhe) => AstNode::If(
                Box::new(mhe.source()),
                Box::new(lhe.source()),
                Box::new(rhe.source()),
            ),
            Step::Le(lhe, rhe) => AstNode::Le(Box::new(lhe.source()), Box::new(rhe.source())),
            Step::Lt(lhe, rhe) => AstNode::Lt(Box::new(lhe.source()), Box::new(rhe.source())),
            Step::Nq(lhe, rhe) => AstNode::Nq(Box::new(lhe.source()), Box::new(rhe.source())),
            Step::Null => AstNode::Null,
            Step::Number(key) => AstNode::Number(key),
            Step::Or(lhe, rhe) => AstNode::Or(Box::new(lhe.source()), Box::new(rhe.source())),
        }
    }

    /// Computes the step over the input slots.
    fn run(&self, iv: &IndexedValues) -> (value: Value)
        ensures
            value == result(self.source(), iv@),
        decreases self,
    {
        match self {
            Step::And(lhe, rhe) => {
                if let Value::Bool(lhv) = lhe.run(iv) {
                    if let Value::Bool(rhv) = rhe.run(iv) {
                        return Value::Bool(lhv && rhv);
                    }
                }
                Value::Null
            },
            Step::Eq(lhe, rhe) => match lhe.run(iv) {
                Value::Number(lhv) => match rhe.run(iv) {
                    Value::Number(rhv) => Value::Bool(lhv == rhv),
                    Value::Null => Value::Bool(false),
                    _ => Value::Null,
                },
                Value::Null => match rhe.run(iv) {
                    Value::Number(_) => Value::Bool(false),
                    Value::Null => Value::Bool(true),
                    _ => Value::Null,
                },
                _ => Value::Null,
            },
            Step::Ge(lhe, rhe) => {
                if let Value::Number(lhv) = lhe.run(iv) {
                    if let Value::Number(rhv) = rhe.run(iv) {
                        return Value::Bool(lhv >= rhv);
                    }
                }
                Value::Null
            },
            Step::Gt(lhe, rhe) => {
                if let Value::Number(lhv) = lhe.run(iv) {
                    if let Value::Number(rhv) = rhe.run(iv) {
                        return Value::Bool(lhv > rhv);
                    }
                }
                Value::Null
            },
            Step::If(mhe, lhe, rhe) => {
                if let Value::Bool(mhv) = mhe.run(iv) {
                    return if mhv {
                        lhe.run(iv)
                    } else {
                        rhe.run(iv)
                    };
                }
                Value::Null
            },
            Step::Le(lhe, rhe) => {
                if let Value::Number(lhv) = lhe.run(iv) {
                    if let Value::Number(rhv) = rhe.run(iv) {
                        return Value::Bool(lhv <= rhv);
                    }
                }
                Value::Null
            },
            Step::Lt(lhe, rhe) => {
                if let Value::Number(lhv) = lhe.run(iv) {
                    if let Value::Number(rhv) = rhe.run(iv) {
                        return Value::Bool(lhv < rhv);
                    }
                }
                Value::Null
            },
            Step::Nq(lhe, rhe) => match lhe.run(iv) {
                Value::Number(lhv) => match rhe.run(iv) {
                    Value::Number(rhv) => Value::Bool(lhv != rhv),
                    Value::Null => Value::Bool(true),
                    _ => Value::Null,
                },
                Value::Null => match rhe.run(iv) {
                    Value::Number(_) => Value::Bool(true),
                    Value::Null => Value::Bool(false),
                    _ => Value::Null,
                },
                _ => Value::Null,
            },
            Step::Null => Value::Null,
            Step::Number(key) => {
                if let Some(value) = iv.get(key) {
                    *value
                } else {
                    Value::Null
                }
            },
            Step::Or(lhe, rhe) => {
                if let Value::Bool(lhv) = lhe.run(iv) {
                    if let Value::Bool(rhv) = rhe.run(iv) {
                        return Value::Bool(lhv || rhv);
                    }
                }
                Value::Null
            },
        }
    }
}

/// The compiled form of an expression. It is built once, in one walk over
/// the expression, and then computes the expression over any input slots
/// without looking at the expression again.
pub struct Evaluator {
    root: Step,
}

impl Evaluator {
    /// The expression that the evaluator was built for.
    pub closed spec fn source(&self) -> AstNode {
        self.root.source()
    }

    /// What the expression amounts to over the input slots. A slot that
    /// `iv` does not hold counts as `Null`.
    pub fn evaluate(&self, iv: &IndexedValues) -> (value: Value)
        ensures
            value == result(self.source(), iv@),
    {
        self.root.run(iv)
    }
}

/// The evaluator of `node`. Building never fails.
pub open spec fn builds(built: Result<Evaluator, SecelError>, node: AstNode) -> bool {
    built matches Ok(evaluator) && evaluator.source() == node
}

/// Builds an expression evaluator for given [AstNode].
pub fn build_evaluator(node: &AstNode) -> (built: Result<Evaluator, SecelError>)
    ensures
        builds(built, *node),
    decreases node.size(), 1nat,
{
    match node {
        AstNode::And(lhs, rhs) => build_and(lhs, rhs),
        AstNode::Eq(lhs, rhs) => build_eq(lhs, rhs),
        AstNode::Ge(lhs, rhs) => build_ge(lhs, rhs),
        AstNode::Gt(lhs, rhs) => build_gt(lhs, rhs),
        AstNode::If(mhs, lhs, rhs) => build_if(mhs, lhs, rhs),
        AstNode::Le(lhs, rhs) => build_le(lhs, rhs),
        AstNode::Lt(lhs, rhs) => build_lt(lhs, rhs),
        AstNode::Nq(lhs, rhs) => build_nq(lhs, rhs),
        AstNode::Null => build_null(),
        AstNode::Number(mhs) => build_number(*mhs),
        AstNode::Or(lhs, rhs) => build_or(lhs, rhs),
    }
}

/// Builds an evaluator for `and` operator.
pub fn build_and(lhs: &AstNode, rhs: &AstNode) -> (built: Result<Evaluator, SecelError>)
    ensures
        builds(built, AstNode::And(Box::new(*lhs), Box::new(*rhs))),
    decreases 1 + lhs.size() + rhs.size(), 0nat,
{
    let lhe = build_evaluator(lhs)?;
    let rhe = build_evaluator(rhs)?;
    Ok(Evaluator { root: Step::And(Box::new(lhe.root), Box::new(rhe.root)) })
}

/// Builds an evaluator for `=` operator.
pub fn build_eq(lhs: &AstNode, rhs: &AstNode) -> (built: Result<Evaluator, SecelError>)
    ensures
        builds(built, AstNode::Eq(Box::new(*lhs), Box::new(*rhs))),
    decreases 1 + lhs.size() + rhs.size(), 0nat,
{
    let lhe = build_evaluator(lhs)?;
    let rhe = build_evaluator(rhs)?;
    Ok(Evaluator { root: Step::Eq(Box::new(lhe.root), Box::new(rhe.root)) })
}

/// Builds an evaluator for `>=` operator.
pub fn build_ge(lhs: &AstNode, rhs: &AstNode) -> (built: Result<Evaluator, SecelError>)
    ensures
        builds(built, AstNode::Ge(Box::new(*lhs), Box::new(*rhs))),
    decreases 1 + lhs.size() + rhs.size(), 0nat,
{
    let lhe = build_evaluator(lhs)?;
    let rhe = build_evaluator(rhs)?;
    Ok(Evaluator { root: Step::Ge(Box::new(lhe.root), Box::new(rhe.root)) })
}

/// Builds an evaluator for `>` operator.
pub fn build_gt(lhs: &AstNode, rhs: &AstNode) -> (built: Result<Evaluator, SecelError>)
    ensures
        builds(built, AstNode::Gt(Box::new(*lhs), Box::new(*rhs))),
    decreases 1 + lhs.size() + rhs.size(), 0nat,
{
    let lhe = build_evaluator(lhs)?;
    let rhe = build_evaluator(rhs)?;
    Ok(Evaluator { root: Step::Gt(Box::new(lhe.root), Box::new(rhe.root)) })
}

/// Builds an evaluator for `if` expression.
pub fn build_if(mhs: &AstNode, lhs: &AstNode, rhs: &AstNode) -> (built: Result<
    Evaluator,
    SecelError,
>)
    ensures
        builds(built, AstNode::If(Box::new(*mhs), Box::new(*lhs), Box::new(*rhs))),
    decreases 1 + mhs.size() + lhs.size() + rhs.size(), 0nat,
{
    let mhe = build_evaluator(mhs)?;
    let lhe = build_evaluator(lhs)?;
    let rhe = build_evaluator(rhs)?;
    Ok(Evaluator { root: Step::If(Box::new(mhe.root), Box::new(lhe.root), Box::new(rhe.root)) })
}

/// Builds an evaluator for `<=` operator.
pub fn build_le(lhs: &AstNode, rhs: &AstNode) -> (built: Result<Evaluator, SecelError>)
    ensures
        builds(built, AstNode::Le(Box::new(*lhs), Box::new(*rhs))),
    decreases 1 + lhs.size() + rhs.size(), 0nat,
{
    let lhe = build_evaluator(lhs)?;
    let rhe = build_evaluator(rhs)?;
    Ok(Evaluator { root: Step::Le(Box::new(lhe.root), Box::new(rhe.root)) })
}

/// Builds an evaluator for `<` operator.
pub fn build_lt(lhs: &AstNode, rhs: &AstNode) -> (built: Result<Evaluator, SecelError>)
    ensures
        builds(built, AstNode::Lt(Box::new(*lhs), Box::new(*rhs))),
    decreases 1 + lhs.size() + rhs.size(), 0nat,
{
    let lhe = build_evaluator(lhs)?;
    let rhe = build_evaluator(rhs)?;
    Ok(Evaluator { root: Step::Lt(Box::new(lhe.root), Box::new(rhe.root)) })
}

/// Builds an evaluator for `<>` operator.
pub fn build_nq(lhs: &AstNode, rhs: &AstNode) -> (built: Result<Evaluator, SecelError>)
    ensures
        builds(built, AstNode::Nq(Box::new(*lhs), Box::new(*rhs))),
    decreases 1 + lhs.size() + rhs.size(), 0nat,
{
    let lhe = build_evaluator(lhs)?;
    let rhe = build_evaluator(rhs)?;
    Ok(Evaluator { root: Step::Nq(Box::new(lhe.root), Box::new(rhe.root)) })
}

/// Builds an evaluator for `or` operator.
pub fn build_or(lhs: &AstNode, rhs: &AstNode) -> (built: Result<Evaluator, SecelError>)
    ensures
        builds(built, AstNode::Or(Box::new(*lhs), Box::new(*rhs))),
    decreases 1 + lhs.size() + rhs.size(), 0nat,
{
    let lhe = build_evaluator(lhs)?;
    let rhe = build_evaluator(rhs)?;
    Ok(Evaluator { root: Step::Or(Box::new(lhe.root), Box::new(rhe.root)) })
}

/// Builds an evaluator for `Null` node.
pub fn build_null() -> (built: Result<Evaluator, SecelError>)
    ensures
        builds(built, AstNode::Null),
{
    Ok(Evaluator { root: Step::Null })
}

/// Builds an evaluator for `Number` node.
pub fn build_number(key: IndexKey) -> (built: Result<Evaluator, SecelError>)
    ensures
        builds(built, AstNode::Number(key)),
{
    Ok(Evaluator { root: Step::Number(key) })
}

} // verus!
