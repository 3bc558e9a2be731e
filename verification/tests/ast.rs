//! Tests of the syntax tree.

use secel::AstNode;

#[test]
fn test_to_string() {
  assert_eq!(
    r#"
       Null
    "#,
    AstNode::Null.to_string()
  )
}
