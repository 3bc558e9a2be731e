//! Tests of the evaluator.

use secel::evaluator;
use secel::evaluator::build_and;
use secel::evaluator::build_eq;
use secel::evaluator::build_ge;
use secel::evaluator::build_gt;
use secel::evaluator::build_if;
use secel::evaluator::build_le;
use secel::evaluator::build_lt;
use secel::evaluator::build_nq;
use secel::evaluator::build_null;
use secel::evaluator::build_number;
use secel::evaluator::build_or;
use secel::parser::Parser;
use secel::AstNode;
use secel::Decimal;
use secel::IndexKey;
use secel::IndexedValues;
use secel::Value;
use std::collections::HashMap;

fn eq(input: &str, values: &[Value], expected: Value) {
  let node = Parser::new(input).parse().unwrap();
  let evaluator = evaluator::build_evaluator(&node).unwrap();
  let mut results = HashMap::new();
  for (i, value) in values.iter().enumerate() {
    results.insert((i + 1) as IndexKey, *value);
  }
  assert_eq!(expected, evaluator.evaluate(&results));
}

#[test]
fn evaluator_test_0001() {
  let p1 = Value::Number(Decimal::new(100, 0));
  let p2 = Value::Number(Decimal::new(100, 0));
  let p3 = Value::Number(Decimal::new(110, 0));
  eq("if(1=2;1;2)", &[p1, p2], p1);
  eq("if(1=2;1;2)", &[p1, p3], p3);
}

#[test]
fn evaluator_test_0002() {
  let p1 = Value::Number(Decimal::new(100, 0));
  let p2 = Value::Number(Decimal::new(100, 0));
  let p3 = Value::Number(Decimal::new(110, 0));
  eq("if(1<>2;1;2)", &[p1, p3], p1);
  eq("if(1<>2;1;2)", &[p1, p2], p2);
}

#[test]
fn evaluator_test_0003() {
  let p1 = Value::Number(Decimal::new(100, 0));
  let p2 = Value::Number(Decimal::new(110, 0));
  eq("if(1>2;1;2)", &[p1, p2], p2);
  eq("if(1>2;1;2)", &[p2, p1], p2);
}

#[test]
fn evaluator_test_0004() {
  let p1 = Value::Number(Decimal::new(100, 0));
  let p2 = Value::Number(Decimal::new(100, 0));
  let p3 = Value::Number(Decimal::new(110, 0));
  eq("if(1>=2;1;2)", &[p1, p3], p3);
  eq("if(1>=2;1;2)", &[p3, p1], p3);
  eq("if(1>=2;1;2)", &[p2, p1], p2);
}

#[test]
fn evaluator_test_0005() {
  let p1 = Value::Number(Decimal::new(100, 0));
  let p2 = Value::Number(Decimal::new(110, 0));
  eq("if(1<2;1;2)", &[p1, p2], p1);
  eq("if(1<2;1;2)", &[p2, p1], p1);
}

#[test]
fn evaluator_test_0006() {
  let p1 = Value::Number(Decimal::new(100, 0));
  let p2 = Value::Number(Decimal::new(100, 0));
  let p3 = Value::Number(Decimal::new(110, 0));
  eq("if(1<=2;1;2)", &[p3, p1], p1);
  eq("if(1<=2;1;2)", &[p1, p2], p1);
  eq("if(1<=2;1;2)", &[p1, p3], p1);
}

#[test]
fn evaluator_test_0007() {
  let p1 = Value::Null;
  let p2 = Value::Number(Decimal::new(100, 0));
  let p3 = Value::Number(Decimal::new(110, 0));
  eq("if(1=null;2;1)", &[p1, p2], p2);
  eq("if(null=1;2;1)", &[p1, p2], p2);
  eq("if(1=null;2;1)", &[p2, p3], p2);
  eq("if(null=1;2;1)", &[p2, p3], p2);
  eq("if(null=null;1;2)", &[p2, p3], p2);
}

#[test]
fn evaluator_test_0008() {
  let p1 = Value::Null;
  let p2 = Value::Number(Decimal::new(100, 0));
  let p3 = Value::Number(Decimal::new(110, 0));
  eq("if(1<>null;1;2)", &[p2, p3], p2);
  eq("if(null<>1;1;2)", &[p2, p3], p2);
  eq("if(1<>null;1;2)", &[p1, p3], p3);
  eq("if(null<>1;1;2)", &[p1, p3], p3);
  eq("if(null<>null;1;2)", &[p2, p3], p3);
}

#[test]
fn evaluator_test_0009() {
  let p1 = Value::Number(Decimal::new(101, 0));
  let p2 = Value::Number(Decimal::new(100, 0));
  let p3 = Value::Number(Decimal::new(201, 0));
  let p4 = Value::Number(Decimal::new(200, 0));
  let p5 = Value::Number(Decimal::new(512, 0));
  eq("if(1>2 and 3>4;5;1)", &[p1, p2, p3, p4, p5], p5);
  eq("if(1>2 and 3>4;5;2)", &[p2, p1, p3, p4, p5], p1);
  eq("if(1>2 and 3>4;5;3)", &[p1, p2, p4, p3, p5], p4);
}

#[test]
fn evaluator_test_0010() {
  let p1 = Value::Number(Decimal::new(101, 0));
  let p2 = Value::Number(Decimal::new(100, 0));
  let p3 = Value::Number(Decimal::new(201, 0));
  let p4 = Value::Number(Decimal::new(200, 0));
  let p5 = Value::Number(Decimal::new(512, 0));
  eq("if(1>2 or 3>4;5;1)", &[p1, p2, p3, p4, p5], p5);
  eq("if(1>2 or 3>4;5;2)", &[p2, p1, p3, p4, p5], p5);
  eq("if(1>2 or 3>4;5;3)", &[p2, p1, p4, p3, p5], p4);
}

#[test]
fn test_build_if() {
  let mut m = IndexedValues::new();
  m.insert(1, Value::Bool(true));
  m.insert(2, Value::Bool(true));
  let b = build_if(&AstNode::Number(255), &AstNode::Number(1), &AstNode::Number(2)).unwrap();
  assert_eq!(Value::Null, b.evaluate(&m));
}

#[test]
fn test_build_ge() {
  let mut r = IndexedValues::new();
  r.insert(1, Value::Bool(true));
  r.insert(2, Value::Bool(false));
  let b = build_ge(&AstNode::Number(1), &AstNode::Number(1)).unwrap();
  assert_eq!(Value::Null, b.evaluate(&r));
}

#[test]
fn test_build_gt() {
  let mut r = IndexedValues::new();
  r.insert(1, Value::Bool(true));
  r.insert(2, Value::Bool(false));
  let b = build_gt(&AstNode::Number(1), &AstNode::Number(1)).unwrap();
  assert_eq!(Value::Null, b.evaluate(&r));
}

#[test]
fn test_build_le() {
  let mut r = IndexedValues::new();
  r.insert(1, Value::Bool(true));
  r.insert(2, Value::Bool(false));
  let b = build_le(&AstNode::Number(1), &AstNode::Number(1)).unwrap();
  assert_eq!(Value::Null, b.evaluate(&r));
}

#[test]
fn test_build_lt() {
  let mut r = IndexedValues::new();
  r.insert(1, Value::Bool(true));
  r.insert(2, Value::Bool(false));
  let b = build_lt(&AstNode::Number(1), &AstNode::Number(1)).unwrap();
  assert_eq!(Value::Null, b.evaluate(&r));
}

#[test]
fn test_build_eq() {
  let mut r = IndexedValues::new();
  r.insert(1, Value::Bool(true));
  r.insert(2, Value::Number(Decimal::new(123, 2)));
  let b = build_eq(&AstNode::Null, &AstNode::Number(1)).unwrap();
  assert_eq!(Value::Null, b.evaluate(&r));
  let b = build_eq(&AstNode::Number(2), &AstNode::Number(1)).unwrap();
  assert_eq!(Value::Null, b.evaluate(&r));
  let b = build_eq(&AstNode::Number(1), &AstNode::Number(2)).unwrap();
  assert_eq!(Value::Null, b.evaluate(&r));
}

#[test]
fn test_build_nq() {
  let mut r = IndexedValues::new();
  r.insert(1, Value::Bool(true));
  r.insert(2, Value::Number(Decimal::new(123, 2)));
  let b = build_nq(&AstNode::Null, &AstNode::Number(1)).unwrap();
  assert_eq!(Value::Null, b.evaluate(&r));
  let b = build_nq(&AstNode::Number(2), &AstNode::Number(1)).unwrap();
  assert_eq!(Value::Null, b.evaluate(&r));
  let b = build_nq(&AstNode::Number(1), &AstNode::Number(2)).unwrap();
  assert_eq!(Value::Null, b.evaluate(&r));
}

#[test]
fn test_build_and() {
  let r = IndexedValues::new();
  let b = build_and(&AstNode::Null, &AstNode::Null).unwrap();
  assert_eq!(Value::Null, b.evaluate(&r));
}

#[test]
fn test_build_or() {
  let r = IndexedValues::new();
  let b = build_or(&AstNode::Null, &AstNode::Null).unwrap();
  assert_eq!(Value::Null, b.evaluate(&r));
}

#[test]
fn test_build_null() {
  let r = IndexedValues::new();
  let b = build_null().unwrap();
  assert_eq!(Value::Null, b.evaluate(&r));
}

#[test]
fn test_build_number() {
  let mut r = IndexedValues::new();
  let b = build_number(1).unwrap();
  assert_eq!(Value::Null, b.evaluate(&r));
  r.insert(1, Value::Number(Decimal::new(123, 2)));
  assert_eq!(Value::Number(Decimal::new(123, 2)), b.evaluate(&r));
}
