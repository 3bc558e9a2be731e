//! Tests of the values.

use secel::Decimal;
use secel::Value;

#[test]
fn test_display() {
  assert_eq!("Null", Value::Null.to_string());
  assert_eq!("Bool: true", Value::Bool(true).to_string());
  assert_eq!("Bool: false", Value::Bool(false).to_string());
  assert_eq!("Number: 1.11", Value::Number(Decimal::new(111, 2)).to_string());
}

#[test]
fn test_debug() {
  assert_eq!("Null", format!("{:?}", Value::Null));
  assert_eq!("Bool(true)", format!("{:?}", Value::Bool(true)));
  assert_eq!("Bool(false)", format!("{:?}", Value::Bool(false)));
  let n = Decimal::new(111, 2);
  assert_eq!("Number(1.11)", format!("{:?}", Value::Number(n)));
}

#[test]
#[allow(clippy::clone_on_copy)]
fn test_comparison() {
  assert!((Value::Null == Value::Null));
  assert!((Value::Bool(true) == Value::Bool(true)));
  assert!((Value::Bool(true) != Value::Bool(false)));
  let n1 = Decimal::new(111, 2);
  let n2 = Decimal::new(222, 2);
  assert!((Value::Number(n1) == Value::Number(n1)));
  assert!((Value::Number(n1) != Value::Number(n2)));
  assert!((Value::Number(n1).clone() != Value::Number(n2).clone()));
}
