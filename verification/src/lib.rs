//! A small conditional-expression language: one `if(condition; expr; expr)`
//! statement over numbered input slots and `null`, with three-valued
//! evaluation.
//!
//! A text is parsed into a syntax tree, see [`parser`]; the tree is built
//! into an evaluator, which computes its value over any input slots, see
//! [`evaluator`].

pub mod ast;
pub mod decimal;
pub mod errors;
pub mod evaluator;
pub mod grammar;
pub mod lexer;
pub mod parser;
pub mod text;
pub mod values;

pub use ast::AstNode;
pub use decimal::Decimal;
pub use errors::SecelError;
pub use evaluator::Evaluator;
pub use evaluator::IndexedValues;
pub use lexer::IndexKey;
pub use values::Value;

use ast::ast_to_tree;
use ast::drawing;
use ast::indented;
use ast::picture;
use parser::statement;
use parser::Parser;
use vstd::prelude::*;

verus! {

/// The text holds a statement at its start.
pub open spec fn is_statement(input: Seq<char>) -> bool {
    statement(input, 0) is Ok
}

/// The syntax tree of the statement at the start of the text.
pub open spec fn parsed(input: Seq<char>) -> AstNode
    recommends
        is_statement(input),
{
    statement(input, 0)->Ok_0.0
}

/// Parses expression. The text must hold a statement: where that is not
/// known, use [`Parser::parse`], which reports the failure.
pub fn parse_expression(input: &str) -> (node: AstNode)
    requires
        is_statement(input@),
    ensures
        node == parsed(input@),
{
    Parser::new(input).parse().unwrap()
}

/// Builds evaluator. The text must hold a statement: where that is not
/// known, use [`Parser::parse`], which reports the failure.
pub fn build_evaluator(input: &str) -> (evaluator: Evaluator)
    requires
        is_statement(input@),
    ensures
        evaluator.source() == parsed(input@),
{
    let node = Parser::new(input).parse().unwrap();
    evaluator::build_evaluator(&node).unwrap()
}

/// Parses the statement at the start of the text and draws its syntax
/// tree. What comes back depends on the text alone: parsing and drawing keep
/// no state, so the same text gives the same drawing, or the same failure,
/// each time.
pub fn text_to_tree(input: &str) -> (drawn: Result<String, SecelError>)
    ensures
        match statement(input@, 0) {
            Ok((node, _)) => drawn matches Ok(text) && text@ == indented(drawing(picture(node))),
            Err(message) => drawn matches Err(error) && error@ == message,
        },
{
    match Parser::new(input).parse() {
        Ok(node) => Ok(ast_to_tree(&node)),
        Err(error) => Err(error),
    }
}

} // verus!
