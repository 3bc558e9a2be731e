//! Tests of what holds of every text and of every input.

use secel::ast::ast_to_tree;
use secel::evaluator;
use secel::lexer::Lexer;
use secel::lexer::Token;
use secel::parser::Parser;
use secel::AstNode;
use secel::Decimal;
use secel::IndexedValues;
use secel::Value;

fn number(key: u8) -> Box<AstNode> {
  Box::new(AstNode::Number(key))
}

fn null() -> Box<AstNode> {
  Box::new(AstNode::Null)
}

fn value_of(node: &AstNode, values: &IndexedValues) -> Value {
  evaluator::build_evaluator(node).unwrap().evaluate(values)
}

#[test]
fn parsing_and_printing_is_repeatable() {
  let input = "if(1<2 or (3>4 and 5>=6);if(7=null;8;9);null)";
  let first = ast_to_tree(&Parser::new(input).parse().unwrap());
  let second = ast_to_tree(&Parser::new(input).parse().unwrap());
  assert_eq!(first, second);
  assert_eq!(Parser::new(input).parse(), Parser::new(input).parse());
  assert_eq!(Ok(first), secel::text_to_tree(input));
  assert_eq!(secel::text_to_tree(input), secel::text_to_tree(input));
  assert_eq!(secel::text_to_tree("if(1=2;1)"), secel::text_to_tree("if(1=2;1)"));
  assert_eq!(
    "expected token 'Semicolon', actual token: 'RightParen'",
    secel::text_to_tree("if(1=2;1)").unwrap_err().to_string()
  );
}

#[test]
fn or_leans_to_the_left() {
  let expected = AstNode::If(
    Box::new(AstNode::Or(
      Box::new(AstNode::Or(Box::new(AstNode::Lt(number(1), number(2))), Box::new(AstNode::Gt(number(3), number(4))))),
      Box::new(AstNode::Ge(number(5), number(6))),
    )),
    number(7),
    null(),
  );
  assert_eq!(Ok(expected), Parser::new("if(1<2 or 3>4 or 5>=6;7;null)").parse());
}

#[test]
fn and_leans_to_the_left() {
  let expected = AstNode::If(
    Box::new(AstNode::And(
      Box::new(AstNode::And(Box::new(AstNode::Lt(number(1), number(2))), Box::new(AstNode::Gt(number(3), number(4))))),
      Box::new(AstNode::Ge(number(5), number(6))),
    )),
    number(7),
    null(),
  );
  assert_eq!(Ok(expected), Parser::new("if(1<2 and 3>4 and 5>=6;7;null)").parse());
}

#[test]
fn and_binds_tighter_than_or() {
  let expected = AstNode::If(
    Box::new(AstNode::Or(
      Box::new(AstNode::Lt(number(1), number(2))),
      Box::new(AstNode::And(Box::new(AstNode::Gt(number(3), number(4))), Box::new(AstNode::Ge(number(5), number(6))))),
    )),
    number(7),
    null(),
  );
  assert_eq!(Ok(expected), Parser::new("if(1<2 or 3>4 and 5>=6;7;null)").parse());
}

#[test]
fn round_brackets_override_the_binding() {
  let expected = AstNode::If(
    Box::new(AstNode::And(
      Box::new(AstNode::Or(Box::new(AstNode::Lt(number(1), number(2))), Box::new(AstNode::Gt(number(3), number(4))))),
      Box::new(AstNode::Ge(number(5), number(6))),
    )),
    number(7),
    null(),
  );
  assert_eq!(Ok(expected), Parser::new("if((1<2 or 3>4) and 5>=6;7;null)").parse());
}

#[test]
fn ordering_of_an_absent_slot_is_null() {
  let mut values = IndexedValues::new();
  values.insert(2, Value::Number(Decimal::new(5, 0)));
  assert_eq!(Value::Null, value_of(&AstNode::Gt(number(1), number(2)), &values));
  assert_eq!(Value::Null, value_of(&AstNode::Gt(number(2), number(1)), &values));
  assert_eq!(Value::Null, value_of(&AstNode::Ge(number(1), number(2)), &values));
  assert_eq!(Value::Null, value_of(&AstNode::Le(number(1), number(2)), &values));
  assert_eq!(Value::Null, value_of(&AstNode::Lt(number(1), number(2)), &values));
  assert_eq!(Value::Null, value_of(&AstNode::Lt(number(2), null()), &values));
  assert_eq!(Value::Bool(false), value_of(&AstNode::Gt(number(2), number(2)), &values));
  assert_eq!(Value::Bool(true), value_of(&AstNode::Ge(number(2), number(2)), &values));
}

#[test]
fn equality_with_null() {
  let mut values = IndexedValues::new();
  values.insert(1, Value::Number(Decimal::new(-5, 1)));
  assert_eq!(Value::Bool(true), value_of(&AstNode::Eq(null(), null()), &values));
  assert_eq!(Value::Bool(false), value_of(&AstNode::Nq(null(), null()), &values));
  assert_eq!(Value::Bool(false), value_of(&AstNode::Eq(number(1), null()), &values));
  assert_eq!(Value::Bool(false), value_of(&AstNode::Eq(null(), number(1)), &values));
  assert_eq!(Value::Bool(true), value_of(&AstNode::Nq(number(1), null()), &values));
  assert_eq!(Value::Bool(true), value_of(&AstNode::Nq(null(), number(1)), &values));
  assert_eq!(Value::Bool(true), value_of(&AstNode::Eq(number(9), null()), &values));
}

#[test]
fn a_number_spoils_and_and_or() {
  let mut values = IndexedValues::new();
  values.insert(1, Value::Number(Decimal::new(1, 0)));
  let truth = || Box::new(AstNode::Eq(null(), null()));
  let untruth = || Box::new(AstNode::Nq(null(), null()));
  assert_eq!(Value::Null, value_of(&AstNode::And(number(1), truth()), &values));
  assert_eq!(Value::Null, value_of(&AstNode::And(number(1), untruth()), &values));
  assert_eq!(Value::Null, value_of(&AstNode::And(untruth(), number(1)), &values));
  assert_eq!(Value::Null, value_of(&AstNode::Or(number(1), truth()), &values));
  assert_eq!(Value::Null, value_of(&AstNode::Or(truth(), number(1)), &values));
  assert_eq!(Value::Null, value_of(&AstNode::Or(truth(), null()), &values));
  assert_eq!(Value::Bool(false), value_of(&AstNode::And(truth(), untruth()), &values));
  assert_eq!(Value::Bool(true), value_of(&AstNode::And(truth(), truth()), &values));
  assert_eq!(Value::Bool(true), value_of(&AstNode::Or(untruth(), truth()), &values));
  assert_eq!(Value::Bool(false), value_of(&AstNode::Or(untruth(), untruth()), &values));
}

#[test]
fn truth_values_in_slots() {
  let mut values = IndexedValues::new();
  values.insert(1, Value::Bool(true));
  values.insert(2, Value::Bool(false));
  values.insert(3, Value::Number(Decimal::new(3, 0)));
  assert_eq!(Value::Bool(false), value_of(&AstNode::And(number(1), number(2)), &values));
  assert_eq!(Value::Bool(true), value_of(&AstNode::Or(number(1), number(2)), &values));
  assert_eq!(Value::Null, value_of(&AstNode::Eq(number(1), number(1)), &values));
  assert_eq!(Value::Null, value_of(&AstNode::Nq(number(1), null()), &values));
  assert_eq!(Value::Number(Decimal::new(3, 0)), value_of(&AstNode::If(number(1), number(3), null()), &values));
  assert_eq!(Value::Null, value_of(&AstNode::If(number(2), number(3), null()), &values));
  assert_eq!(Value::Null, value_of(&AstNode::If(number(3), number(3), number(3)), &values));
  assert_eq!(Value::Null, value_of(&AstNode::If(null(), number(3), number(3)), &values));
}

#[test]
fn the_branches_of_an_if() {
  let evaluator = secel::build_evaluator("if(1=2;1;2)");
  let mut values = IndexedValues::new();
  values.insert(1, Value::Number(Decimal::new(100, 0)));
  values.insert(2, Value::Number(Decimal::new(100, 0)));
  assert_eq!(Value::Number(Decimal::new(100, 0)), evaluator.evaluate(&values));
  values.insert(2, Value::Number(Decimal::new(110, 0)));
  assert_eq!(Value::Number(Decimal::new(110, 0)), evaluator.evaluate(&values));
  assert_eq!(Value::Number(Decimal::new(110, 0)), evaluator.evaluate(&values));
}

#[test]
fn numbers_are_compared_by_what_they_amount_to() {
  let evaluator = secel::build_evaluator("if(1=2;3;null)");
  let mut values = IndexedValues::new();
  values.insert(1, Value::Number(Decimal::new(10, 1)));
  values.insert(2, Value::Number(Decimal::new(1000, 3)));
  values.insert(3, Value::Number(Decimal::new(7, 0)));
  assert_eq!(Value::Number(Decimal::new(7, 0)), evaluator.evaluate(&values));
  let evaluator = secel::build_evaluator("if(1<2 and 2>1 and 1<=2 and 2>=1 and 1<>2;3;null)");
  values.insert(1, Value::Number(Decimal::new(-15, 1)));
  values.insert(2, Value::Number(Decimal::new(-149, 2)));
  assert_eq!(Value::Number(Decimal::new(7, 0)), evaluator.evaluate(&values));
  values.insert(1, Value::Number(Decimal::new(149, 2)));
  values.insert(2, Value::Number(Decimal::new(15, 1)));
  assert_eq!(Value::Number(Decimal::new(7, 0)), evaluator.evaluate(&values));
  values.insert(2, Value::Number(Decimal::new(1490, 3)));
  assert_eq!(Value::Null, evaluator.evaluate(&values));
}

#[test]
fn a_numeral_of_256_or_more_is_no_token() {
  let mut lexer = Lexer::new("  256");
  assert_eq!(Token::Undef, lexer.next_token());
  assert_eq!(2, lexer.get_position());
  assert_eq!(Token::Undef, lexer.next_token());
  let mut lexer = Lexer::new("255 256");
  assert_eq!(Token::Number(255), lexer.next_token());
  assert_eq!(3, lexer.get_position());
  assert_eq!(Token::Undef, lexer.next_token());
  assert_eq!(4, lexer.get_position());
  let mut lexer = Lexer::new("99999999999999999999999999999999999999999");
  assert_eq!(Token::Undef, lexer.next_token());
  assert_eq!(0, lexer.get_position());
  assert!(Parser::new("if(256=null;1;2)").parse().is_err());
  assert!(Parser::new("if(1=null;1000;2)").parse().is_err());
  assert!(Parser::new("if(1=null;1;300)").parse().is_err());
  assert!(Parser::new("if(255=null;255;255)").parse().is_ok());
}

#[test]
fn a_failure_leaves_the_cursor() {
  let mut parser = Parser::new("if(3 1 null;3;2)");
  let first = parser.parse();
  let second = parser.parse();
  assert!(first.is_err());
  assert_eq!(first, second);
  assert_eq!(first, Parser::new("if(3 1 null;3;2)").parse());
  assert_eq!("expected token 'LeftParen', actual token: 'Number(3)'", first.unwrap_err().to_string());
}
