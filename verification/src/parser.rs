//! The parser: recursive descent over the tokens that the lexer hands out,
//! with the cursor put back wherever a rule fails.
//!
//! ```text
//!       statement = if_expression
//!   if_expression = `if` `(` condition `;` expression `;` expression `)`
//!       condition = disjunction { `or` disjunction }
//!     disjunction = conjunction { `and` conjunction }
//!     conjunction = `(` condition `)` | comparison
//!      comparison = value (`=` | `<>` | `>` | `<` | `>=` | `<=`) value
//!      expression = value | if_expression
//!           value = NUMBER | NULL
//! ```

use crate::ast::AstNode;
use crate::errors::SecelError;
use crate::lexer::digits_end;
use crate::lexer::digits_value;
use crate::lexer::is_non_zero_digit_char;
use crate::lexer::lemma_next_token_at;
use crate::lexer::lemma_numeral_out_of_range;
use crate::lexer::lookahead;
use crate::lexer::skip_whitespace;
use crate::lexer::next_token_at;
use crate::lexer::Lexer;
use crate::lexer::Token;
use crate::text::token_text;
use crate::text::token_to_string;
use vstd::prelude::*;
use vstd::string::StringExecFns;

verus! {

/// What a rule makes of a text from a position on: the node and the
/// position behind what the rule has read, or the message of the failure.
pub type Outcome = Result<(AstNode, int), Seq<char>>;

/// The message for a token that is not the expected one.
pub open spec fn unexpected_token(expected: Token, actual: Token) -> Seq<char> {
    "expected token '"@ + token_text(expected) + "', actual token: '"@ + token_text(actual)
        + "'"@
}

/// The message for a token that starts no value.
pub open spec fn unexpected_value(actual: Token) -> Seq<char> {
    "expected null or number but encountered "@ + token_text(actual)
}

/// The message for a token that is no comparison operator.
pub open spec fn unexpected_comparison(actual: Token) -> Seq<char> {
    "expected comparison token, but encountered "@ + token_text(actual)
}

/// The message for a place where neither a value nor an `if` starts.
pub open spec fn unexpected_expression() -> Seq<char> {
    "expected 'value' or 'if expression`"@
}

/// How many characters lie behind `pos`: the measure by which the rules
/// descend.
pub open spec fn remaining(text: Seq<char>, pos: int) -> nat {
    if pos <= text.len() {
        (text.len() - pos) as nat
    } else {
        0
    }
}

/// The position `end` that a rule started at `pos` has reached. A rule never
/// moves backward, so this is `end`: see [`lemma_rules_move_forward`].
pub open spec fn forward(pos: int, end: int) -> int {
    if pos <= end {
        end
    } else {
        pos
    }
}

/// The token `expected` at `pos`: the position behind it.
pub open spec fn token(text: Seq<char>, pos: int, expected: Token) -> Result<int, Seq<char>> {
    let (actual, end) = next_token_at(text, pos);
    if actual == expected {
        Ok(end)
    } else {
        Err(unexpected_token(expected, actual))
    }
}

/// `value = NUMBER | NULL`
pub open spec fn value(text: Seq<char>, pos: int) -> Outcome {
    let (actual, end) = next_token_at(text, pos);
    match actual {
        Token::Null => Ok((AstNode::Null, end)),
        Token::Number(key) => Ok((AstNode::Number(key), end)),
        other => Err(unexpected_value(other)),
    }
}

/// `comparison = value (= | <> | > | < | >= | <=) value`
///
/// The second value is read before the operator is judged.
pub open spec fn comparison(text: Seq<char>, pos: int) -> Outcome {
    match value(text, pos) {
        Err(message) => Err(message),
        Ok((left, operator_start)) => {
            let (operator, operator_end) = next_token_at(text, operator_start);
            match value(text, operator_end) {
                Err(message) => Err(message),
                Ok((right, end)) => match operator {
                    Token::Eq => Ok((AstNode::Eq(Box::new(left), Box::new(right)), end)),
                    Token::Nq => Ok((AstNode::Nq(Box::new(left), Box::new(right)), end)),
                    Token::Ge => Ok((AstNode::Ge(Box::new(left), Box::new(right)), end)),
                    Token::Gt => Ok((AstNode::Gt(Box::new(left), Box::new(right)), end)),
                    Token::Le => Ok((AstNode::Le(Box::new(left), Box::new(right)), end)),
                    Token::Lt => Ok((AstNode::Lt(Box::new(left), Box::new(right)), end)),
                    other => Err(unexpected_comparison(other)),
                },
            }
        },
    }
}

/// `conjunction = comparison | ( condition )`
///
/// A comparison is tried first; only where none can be read, a condition in
/// round brackets is asked for.
pub open spec fn conjunction(text: Seq<char>, pos: int) -> Outcome
    decreases remaining(text, pos), 0nat,
{
    match comparison(text, pos) {
        Ok(found) => Ok(found),
        Err(_) => match token(text, pos, Token::LeftParen) {
            Err(message) => Err(message),
            Ok(inner_start) => {
                proof {
                    lemma_next_token_at(text, pos);
                }
                match condition(text, inner_start) {
                    Err(message) => Err(message),
                    Ok((node, inner_end)) => match token(text, inner_end, Token::RightParen) {
                        Err(message) => Err(message),
                        Ok(end) => Ok((node, end)),
                    },
                }
            },
        },
    }
}

/// `{ and conjunction }` behind the conjunctions that made `left`: each
/// further one goes to the right of an `And` node that holds all before it.
pub open spec fn conjunctions(text: Seq<char>, pos: int, left: AstNode) -> Outcome
    decreases remaining(text, pos), 1nat,
{
    match token(text, pos, Token::And) {
        Err(_) => Ok((left, pos)),
        Ok(right_start) => {
            proof {
                lemma_next_token_at(text, pos);
            }
            match conjunction(text, right_start) {
                Err(message) => Err(message),
                Ok((right, right_end)) => conjunctions(
                    text,
                    forward(right_start, right_end),
                    AstNode::And(Box::new(left), Box::new(right)),
                ),
            }
        },
    }
}

/// `disjunction = conjunction { and conjunction }`
pub open spec fn disjunction(text: Seq<char>, pos: int) -> Outcome
    decreases remaining(text, pos), 2nat,
{
    match conjunction(text, pos) {
        Err(message) => Err(message),
        Ok((left, left_end)) => conjunctions(text, forward(pos, left_end), left),
    }
}

/// `{ or disjunction }` behind the disjunctions that made `left`: each
/// further one goes to the right of an `Or` node that holds all before it.
pub open spec fn disjunctions(text: Seq<char>, pos: int, left: AstNode) -> Outcome
    decreases remaining(text, pos), 3nat,
{
    match token(text, pos, Token::Or) {
        Err(_) => Ok((left, pos)),
        Ok(right_start) => {
            proof {
                lemma_next_token_at(text, pos);
            }
            match disjunction(text, right_start) {
                Err(message) => Err(message),
                Ok((right, right_end)) => disjunctions(
                    text,
                    forward(right_start, right_end),
                    AstNode::Or(Box::new(left), Box::new(right)),
                ),
            }
        },
    }
}

/// `condition = disjunction { or disjunction }`
pub open spec fn condition(text: Seq<char>, pos: int) -> Outcome
    decreases remaining(text, pos), 4nat,
{
    match disjunction(text, pos) {
        Err(message) => Err(message),
        Ok((left, left_end)) => disjunctions(text, forward(pos, left_end), left),
    }
}

/// The outcome is no success, or it ends behind `pos` and in the text.
pub open spec fn moves_forward(outcome: Outcome, text: Seq<char>, pos: int) -> bool {
    outcome matches Ok((_, end)) ==> pos < end <= text.len()
}

/// The outcome is no success, or it ends at `pos` or behind it, and in the
/// text if `pos` is.
pub open spec fn moves_not_backward(outcome: Outcome, text: Seq<char>, pos: int) -> bool {
    outcome matches Ok((_, end)) ==> pos <= end && (pos <= text.len() ==> end <= text.len())
}

/// A value, a comparison, a conjunction, a disjunction and a condition end
/// behind their start and in the text; further conjunctions and
/// disjunctions end at their start or behind it.
pub proof fn lemma_rules_move_forward(text: Seq<char>, pos: int)
    ensures
        moves_forward(value(text, pos), text, pos),
        moves_forward(comparison(text, pos), text, pos),
        moves_forward(conjunction(text, pos), text, pos),
        moves_forward(disjunction(text, pos), text, pos),
        moves_forward(condition(text, pos), text, pos),
        forall|left: AstNode|
            moves_not_backward(#[trigger] conjunctions(text, pos, left), text, pos),
        forall|left: AstNode|
            moves_not_backward(#[trigger] disjunctions(text, pos, left), text, pos),
{
    lemma_value(text, pos);
    lemma_comparison(text, pos);
    lemma_conjunction(text, pos);
    assert forall|left: AstNode|
        moves_not_backward(#[trigger] conjunctions(text, pos, left), text, pos) by {
        lemma_conjunctions(text, pos, left);
    }
    lemma_disjunction(text, pos);
    assert forall|left: AstNode|
        moves_not_backward(#[trigger] disjunctions(text, pos, left), text, pos) by {
        lemma_disjunctions(text, pos, left);
    }
    lemma_condition(text, pos);
}

proof fn lemma_value(text: Seq<char>, pos: int)
    ensures
        moves_forward(value(text, pos), text, pos),
{
    lemma_next_token_at(text, pos);
}

proof fn lemma_comparison(text: Seq<char>, pos: int)
    ensures
        moves_forward(comparison(text, pos), text, pos),
{
    lemma_value(text, pos);
    if let Ok((_, operator_start)) = value(text, pos) {
        lemma_next_token_at(text, operator_start);
        lemma_value(text, next_token_at(text, operator_start).1);
    }
}

proof fn lemma_conjunction(text: Seq<char>, pos: int)
    ensures
        moves_forward(conjunction(text, pos), text, pos),
    decreases remaining(text, pos), 0nat,
{
    lemma_comparison(text, pos);
    lemma_next_token_at(text, pos);
    if comparison(text, pos) is Err {
        if let Ok(inner_start) = token(text, pos, Token::LeftParen) {
            lemma_condition(text, inner_start);
            if let Ok((_, inner_end)) = condition(text, inner_start) {
                lemma_next_token_at(text, inner_end);
            }
        }
    }
}

proof fn lemma_conjunctions(text: Seq<char>, pos: int, left: AstNode)
    ensures
        moves_not_backward(conjunctions(text, pos, left), text, pos),
    decreases remaining(text, pos), 1nat,
{
    lemma_next_token_at(text, pos);
    if let Ok(right_start) = token(text, pos, Token::And) {
        lemma_conjunction(text, right_start);
        if let Ok((right, right_end)) = conjunction(text, right_start) {
            lemma_conjunctions(text, right_end, AstNode::And(Box::new(left), Box::new(right)));
        }
    }
}

proof fn lemma_disjunction(text: Seq<char>, pos: int)
    ensures
        moves_forward(disjunction(text, pos), text, pos),
    decreases remaining(text, pos), 2nat,
{
    lemma_conjunction(text, pos);
    if let Ok((left, left_end)) = conjunction(text, pos) {
        lemma_conjunctions(text, left_end, left);
    }
}

proof fn lemma_disjunctions(text: Seq<char>, pos: int, left: AstNode)
    ensures
        moves_not_backward(disjunctions(text, pos, left), text, pos),
    decreases remaining(text, pos), 3nat,
{
    lemma_next_token_at(text, pos);
    if let Ok(right_start) = token(text, pos, Token::Or) {
        lemma_disjunction(text, right_start);
        if let Ok((right, right_end)) = disjunction(text, right_start) {
            lemma_disjunctions(text, right_end, AstNode::Or(Box::new(left), Box::new(right)));
        }
    }
}

proof fn lemma_condition(text: Seq<char>, pos: int)
    ensures
        moves_forward(condition(text, pos), text, pos),
    decreases remaining(text, pos), 4nat,
{
    lemma_disjunction(text, pos);
    if let Ok((left, left_end)) = disjunction(text, pos) {
        lemma_disjunctions(text, left_end, left);
    }
}

/// `if_expression = if ( condition ; expression ; expression )`
pub open spec fn if_expression(text: Seq<char>, pos: int) -> Outcome
    decreases remaining(text, pos), 0nat,
{
    match token(text, pos, Token::If) {
        Err(message) => Err(message),
        Ok(open_start) => match token(text, open_start, Token::LeftParen) {
            Err(message) => Err(message),
            Ok(condition_start) => match condition(text, condition_start) {
                Err(message) => Err(message),
                Ok((test, condition_end)) => match token(text, condition_end, Token::Semicolon) {
                    Err(message) => Err(message),
                    Ok(accept_start) => {
                        proof {
                            lemma_next_token_at(text, pos);
                            lemma_next_token_at(text, open_start);
                            lemma_rules_move_forward(text, condition_start);
                            lemma_next_token_at(text, condition_end);
                        }
                        match expression(text, accept_start) {
                            Err(message) => Err(message),
                            Ok((accept, accept_end)) => match token(
                                text,
                                forward(accept_start, accept_end),
                                Token::Semicolon,
                            ) {
                                Err(message) => Err(message),
                                Ok(reject_start) => {
                                    proof {
                                        lemma_next_token_at(
                                            text,
                                            forward(accept_start, accept_end),
                                        );
                                    }
                                    match expression(text, reject_start) {
                                        Err(message) => Err(message),
                                        Ok((reject, reject_end)) => match token(
                                            text,
                                            reject_end,
                                            Token::RightParen,
                                        ) {
                                            Err(message) => Err(message),
                                            Ok(end) => Ok(
                                                (
                                                    AstNode::If(
                                                        Box::new(test),
                                                        Box::new(accept),
                                                        Box::new(reject),
                                                    ),
                                                    end,
                                                ),
                                            ),
                                        },
                                    }
                                },
                            },
                        }
                    },
                },
            },
        },
    }
}

/// `expression = value | if_expression`
///
/// A value is tried first, then an `if`; the message of a failure names
/// both and says nothing of what went wrong inside the `if`.
pub open spec fn expression(text: Seq<char>, pos: int) -> Outcome
    decreases remaining(text, pos), 1nat,
{
    match value(text, pos) {
        Ok(found) => Ok(found),
        Err(_) => match if_expression(text, pos) {
            Ok(found) => Ok(found),
            Err(_) => Err(unexpected_expression()),
        },
    }
}

/// `statement = if_expression`
///
/// What follows the statement in the text is not looked at.
pub open spec fn statement(text: Seq<char>, pos: int) -> Outcome {
    if_expression(text, pos)
}

/// The syntax tree of operands with `or` between them: an `Or` whose right
/// side is the last operand and whose left side holds all before it. A
/// single operand stands for itself.
pub open spec fn or_tree(operands: Seq<AstNode>) -> AstNode
    decreases operands.len(),
{
    if operands.len() <= 1 {
        operands[0]
    } else {
        AstNode::Or(Box::new(or_tree(operands.drop_last())), Box::new(operands.last()))
    }
}

/// The syntax tree of operands with `and` between them: an `And` whose
/// right side is the last operand and whose left side holds all before it.
/// A single operand stands for itself.
pub open spec fn and_tree(operands: Seq<AstNode>) -> AstNode
    decreases operands.len(),
{
    if operands.len() <= 1 {
        operands[0]
    } else {
        AstNode::And(Box::new(and_tree(operands.drop_last())), Box::new(operands.last()))
    }
}

/// The position behind one disjunction that is parsed to `operand`.
pub open spec fn disjunction_read(text: Seq<char>, pos: int, operand: AstNode) -> Option<int> {
    match disjunction(text, pos) {
        Ok((node, end)) => if node == operand {
            Some(end)
        } else {
            None
        },
        Err(_) => None,
    }
}

/// The position behind one conjunction that is parsed to `operand`.
pub open spec fn conjunction_read(text: Seq<char>, pos: int, operand: AstNode) -> Option<int> {
    match conjunction(text, pos) {
        Ok((node, end)) => if node == operand {
            Some(end)
        } else {
            None
        },
        Err(_) => None,
    }
}

/// The position behind disjunctions with `or` between them, at least one,
/// that are parsed to `operands` in this order; `None` where the text does
/// not hold them at `pos`.
pub open spec fn or_chain(text: Seq<char>, pos: int, operands: Seq<AstNode>) -> Option<int>
    decreases operands.len(),
{
    if operands.len() == 0 {
        None
    } else if operands.len() == 1 {
        disjunction_read(text, pos, operands[0])
    } else {
        match or_chain(text, pos, operands.drop_last()) {
            None => None,
            Some(or_start) => match token(text, or_start, Token::Or) {
                Err(_) => None,
                Ok(last_start) => disjunction_read(text, last_start, operands.last()),
            },
        }
    }
}

/// The position behind conjunctions with `and` between them, at least one,
/// that are parsed to `operands` in this order; `None` where the text does
/// not hold them at `pos`.
pub open spec fn and_chain(text: Seq<char>, pos: int, operands: Seq<AstNode>) -> Option<int>
    decreases operands.len(),
{
    if operands.len() == 0 {
        None
    } else if operands.len() == 1 {
        conjunction_read(text, pos, operands[0])
    } else {
        match and_chain(text, pos, operands.drop_last()) {
            None => None,
            Some(and_start) => match token(text, and_start, Token::And) {
                Err(_) => None,
                Ok(last_start) => conjunction_read(text, last_start, operands.last()),
            },
        }
    }
}

proof fn lemma_or_chain_is_begun(text: Seq<char>, pos: int, operands: Seq<AstNode>, end: int)
    requires
        or_chain(text, pos, operands) == Some(end),
    ensures
        condition(text, pos) == disjunctions(text, end, or_tree(operands)),
    decreases operands.len(),
{
    if operands.len() == 1 {
        lemma_rules_move_forward(text, pos);
    } else {
        let or_start = or_chain(text, pos, operands.drop_last())->0;
        let last_start = next_token_at(text, or_start).1;
        lemma_or_chain_is_begun(text, pos, operands.drop_last(), or_start);
        lemma_rules_move_forward(text, last_start);
    }
}

proof fn lemma_and_chain_is_begun(text: Seq<char>, pos: int, operands: Seq<AstNode>, end: int)
    requires
        and_chain(text, pos, operands) == Some(end),
    ensures
        disjunction(text, pos) == conjunctions(text, end, and_tree(operands)),
    decreases operands.len(),
{
    if operands.len() == 1 {
        lemma_rules_move_forward(text, pos);
    } else {
        let and_start = and_chain(text, pos, operands.drop_last())->0;
        let last_start = next_token_at(text, and_start).1;
        lemma_and_chain_is_begun(text, pos, operands.drop_last(), and_start);
        lemma_rules_move_forward(text, last_start);
    }
}

/// `or` leans to the left, however many operands there are. Where the text
/// at `pos` holds disjunctions with `or` between them, at least one, and no
/// `or` behind the last, the condition at `pos` is parsed to the tree that
/// leans to the left: the right side of every `Or` that this rule makes is
/// one of the disjunctions, its left side holds all before it, and a single
/// disjunction stands for itself. The condition ends behind the last
/// disjunction.
pub proof fn lemma_or_leans_left_throughout(
    text: Seq<char>,
    pos: int,
    operands: Seq<AstNode>,
    end: int,
)
    requires
        or_chain(text, pos, operands) == Some(end),
        next_token_at(text, end).0 != Token::Or,
    ensures
        condition(text, pos) == Ok::<(AstNode, int), Seq<char>>((or_tree(operands), end)),
{
    lemma_or_chain_is_begun(text, pos, operands, end);
}

/// `and` leans to the left, however many operands there are. Where the
/// text at `pos` holds conjunctions with `and` between them, at least one,
/// and no `and` behind the last, the disjunction at `pos` is parsed to the
/// tree that leans to the left: the right side of every `And` that this
/// rule makes is one of the conjunctions, its left side holds all before it,
/// and a single conjunction stands for itself. The disjunction ends behind
/// the last conjunction.
pub proof fn lemma_and_leans_left_throughout(
    text: Seq<char>,
    pos: int,
    operands: Seq<AstNode>,
    end: int,
)
    requires
        and_chain(text, pos, operands) == Some(end),
        next_token_at(text, end).0 != Token::And,
    ensures
        disjunction(text, pos) == Ok::<(AstNode, int), Seq<char>>((and_tree(operands), end)),
{
    lemma_and_chain_is_begun(text, pos, operands, end);
}

/// No rule reads a token that the lexer does not know: where the lexer
/// answers `Undef` at `pos`, as it does for a numeral that fits no slot
/// key, every rule fails there, and so does every token that a rule asks
/// for.
pub proof fn lemma_undefined_token_is_not_read(text: Seq<char>, pos: int, expected: Token)
    requires
        next_token_at(text, pos).0 == Token::Undef,
        expected != Token::Undef,
    ensures
        token(text, pos, expected) is Err,
        value(text, pos) is Err,
        comparison(text, pos) is Err,
        conjunction(text, pos) is Err,
        disjunction(text, pos) is Err,
        condition(text, pos) is Err,
        expression(text, pos) is Err,
        if_expression(text, pos) is Err,
        statement(text, pos) is Err,
{
}

/// A numeral of 256 or more is read by no rule: where one stands at `pos`,
/// behind whitespace or not, every rule fails there, and so does every
/// token that a rule asks for.
pub proof fn lemma_numeral_out_of_range_is_not_read(text: Seq<char>, pos: int, expected: Token)
    requires
        is_non_zero_digit_char(lookahead(text, skip_whitespace(text, pos), 0)),
        digits_value(
            text,
            skip_whitespace(text, pos),
            digits_end(text, skip_whitespace(text, pos)),
        ) >= 256,
        expected != Token::Undef,
    ensures
        token(text, pos, expected) is Err,
        value(text, pos) is Err,
        comparison(text, pos) is Err,
        conjunction(text, pos) is Err,
        disjunction(text, pos) is Err,
        condition(text, pos) is Err,
        expression(text, pos) is Err,
        if_expression(text, pos) is Err,
        statement(text, pos) is Err,
{
    lemma_numeral_out_of_range(text, pos);
    lemma_undefined_token_is_not_read(text, pos, expected);
}

/// The result of a rule agrees with its outcome: on success the node is the
/// outcome's and the cursor stands at `end`, behind the start and in the
/// text; on failure the message is the outcome's and the cursor stands where
/// the rule started.
pub open spec fn agrees(
    result: Result<AstNode, SecelError>,
    cursor: int,
    outcome: Outcome,
    text: Seq<char>,
    start: int,
) -> bool {
    match outcome {
        Ok((node, end)) => result == Ok::<AstNode, SecelError>(node) && cursor == end && start
            < end <= text.len(),
        Err(message) => result matches Err(error) && error@ == message && cursor == start,
    }
}

/// The parser: a lexer, and the rules that read from it.
pub struct Parser {
    lexer: Lexer,
}

impl Parser {
    /// The characters of the text.
    pub closed spec fn text(&self) -> Seq<char> {
        self.lexer.text()
    }

    /// The cursor: how many characters of the text lie in front of it.
    pub closed spec fn position(&self) -> int {
        self.lexer.position()
    }

    /// A parser at the start of `input`.
    pub fn new(input: &str) -> (parser: Parser)
        ensures
            parser.text() == input@,
            parser.position() == 0,
    {
        Parser { lexer: Lexer::new(input) }
    }

    /// Parses one statement from the cursor on. On success the cursor stands
    /// behind the statement; what follows it in the text is not looked at.
    /// On failure the cursor stands where it stood, so that parsing anew
    /// fails in the same way.
    pub fn parse(&mut self) -> (result: Result<AstNode, SecelError>)
        ensures
            final(self).text() == old(self).text(),
            agrees(
                result,
                final(self).position(),
                statement(old(self).text(), old(self).position()),
                old(self).text(),
                old(self).position(),
            ),
    {
        self.parse_statement()
    }

    /// `statement = if_expression`: parses one statement from the cursor on,
    /// as [`Parser::parse`] does.
    pub fn parse_statement(&mut self) -> (result: Result<AstNode, SecelError>)
        ensures
            final(self).text() == old(self).text(),
            agrees(
                result,
                final(self).position(),
                statement(old(self).text(), old(self).position()),
                old(self).text(),
                old(self).position(),
            ),
    {
        self.parse_if_expression()
    }

    /// `if_expression = if ( condition ; expression ; expression )`: parses
    /// one from the cursor on. On failure the cursor stands where it stood.
    pub fn parse_if_expression(&mut self) -> (result: Result<AstNode, SecelError>)
        ensures
            final(self).text() == old(self).text(),
            agrees(
                result,
                final(self).position(),
                if_expression(old(self).text(), old(self).position()),
                old(self).text(),
                old(self).position(),
            ),
        decreases remaining(old(self).text(), old(self).position()), 0nat,
    {
        let position = self.lexer.get_position();
        proof {
            lemma_next_token_at(self.text(), position as int);
        }
        if let Err(error) = self.consume_token(Token::If) {
            return Err(error);
        }
        proof {
            lemma_next_token_at(self.text(), self.position());
        }
        if let Err(error) = self.consume_token(Token::LeftParen) {
            return self.fail(position, error);
        }
        let comparison = match self.parse_condition() {
            Ok(node) => node,
            Err(error) => {
                return self.fail(position, error);
            },
        };
        proof {
            lemma_next_token_at(self.text(), self.position());
        }
        if let Err(error) = self.consume_token(Token::Semicolon) {
            return self.fail(position, error);
        }
        let left_op = match self.parse_expression() {
            Ok(node) => node,
            Err(error) => {
                return self.fail(position, error);
            },
        };
        proof {
            lemma_next_token_at(self.text(), self.position());
        }
        if let Err(error) = self.consume_token(Token::Semicolon) {
            return self.fail(position, error);
        }
        let right_op = match self.parse_expression() {
            Ok(node) => node,
            Err(error) => {
                return self.fail(position, error);
            },
        };
        proof {
            lemma_next_token_at(self.text(), self.position());
        }
        if let Err(error) = self.consume_token(Token::RightParen) {
            return self.fail(position, error);
        }
        Ok(AstNode::If(Box::new(comparison), Box::new(left_op), Box::new(right_op)))
    }

    /// `condition = disjunction { or disjunction }`: parses one from the
    /// cursor on, each further disjunction to the right of an `Or` that holds
    /// all before it. An `or` that is read commits: what follows it must be a
    /// disjunction. On failure the cursor stands where it stood.
    pub fn parse_condition(&mut self) -> (result: Result<AstNode, SecelError>)
        ensures
            final(self).text() == old(self).text(),
            agrees(
                result,
                final(self).position(),
                condition(old(self).text(), old(self).position()),
                old(self).text(),
                old(self).position(),
            ),
        decreases remaining(old(self).text(), old(self).position()), 4nat,
    {
        let position = self.lexer.get_position();
        let mut left_node = match self.parse_disjunction() {
            Ok(node) => node,
            Err(error) => {
                return Err(error);
            },
        };
        loop
            invariant
                self.text() == old(self).text(),
                position == old(self).position(),
                position < self.position() <= self.text().len(),
                disjunctions(self.text(), self.position(), left_node) == condition(
                    self.text(),
                    position as int,
                ),
            ensures
                self.text() == old(self).text(),
                condition(self.text(), position as int) == Ok::<(AstNode, int), Seq<char>>(
                    (left_node, self.position()),
                ),
                position < self.position() <= self.text().len(),
            decreases remaining(self.text(), self.position()),
        {
            proof {
                lemma_next_token_at(self.text(), self.position());
            }
            if let Err(_) = self.consume_token(Token::Or) {
                break ;
            }
            let right_node = match self.parse_disjunction() {
                Ok(node) => node,
                Err(error) => {
                    return self.fail(position, error);
                },
            };
            left_node = AstNode::Or(Box::new(left_node), Box::new(right_node));
        }
        Ok(left_node)
    }

    /// `disjunction = conjunction { and conjunction }`: parses one from the
    /// cursor on, each further conjunction to the right of an `And` that
    /// holds all before it. An `and` that is read commits: what follows it
    /// must be a conjunction. On failure the cursor stands where it stood.
    pub fn parse_disjunction(&mut self) -> (result: Result<AstNode, SecelError>)
        ensures
            final(self).text() == old(self).text(),
            agrees(
                result,
                final(self).position(),
                disjunction(old(self).text(), old(self).position()),
                old(self).text(),
                old(self).position(),
            ),
        decreases remaining(old(self).text(), old(self).position()), 2nat,
    {
        let position = self.lexer.get_position();
        let mut left_node = match self.parse_conjunction() {
            Ok(node) => node,
            Err(error) => {
                return Err(error);
            },
        };
        loop
            invariant
                self.text() == old(self).text(),
                position == old(self).position(),
                position < self.position() <= self.text().len(),
                conjunctions(self.text(), self.position(), left_node) == disjunction(
                    self.text(),
                    position as int,
                ),
            ensures
                self.text() == old(self).text(),
                disjunction(self.text(), position as int) == Ok::<(AstNode, int), Seq<char>>(
                    (left_node, self.position()),
                ),
                position < self.position() <= self.text().len(),
            decreases remaining(self.text(), self.position()),
        {
            proof {
                lemma_next_token_at(self.text(), self.position());
            }
            if let Err(_) = self.consume_token(Token::And) {
                break ;
            }
            let right_node = match self.parse_conjunction() {
                Ok(node) => node,
                Err(error) => {
                    return self.fail(position, error);
                },
            };
            left_node = AstNode::And(Box::new(left_node), Box::new(right_node));
        }
        Ok(left_node)
    }

    /// `conjunction = comparison | ( condition )`: tries a comparison, and
    /// where none can be read asks for a condition in round brackets. On
    /// failure the cursor stands where it stood.
    pub fn parse_conjunction(&mut self) -> (result: Result<AstNode, SecelError>)
        ensures
            final(self).text() == old(self).text(),
            agrees(
                result,
                final(self).position(),
                conjunction(old(self).text(), old(self).position()),
                old(self).text(),
                old(self).position(),
            ),
        decreases remaining(old(self).text(), old(self).position()), 0nat,
    {
        let position = self.lexer.get_position();
        if let Ok(node) = self.parse_comparison() {
            return Ok(node);
        }
        proof {
            lemma_next_token_at(self.text(), self.position());
        }
        if let Err(error) = self.consume_token(Token::LeftParen) {
            return Err(error);
        }
        let node = match self.parse_condition() {
            Ok(node) => node,
            Err(error) => {
                return self.fail(position, error);
            },
        };
        proof {
            lemma_next_token_at(self.text(), self.position());
        }
        if let Err(error) = self.consume_token(Token::RightParen) {
            return self.fail(position, error);
        }
        Ok(node)
    }

    /// `comparison = value (= | <> | > | < | >= | <=) value`: parses one from
    /// the cursor on. The second value is read before the operator is
    /// judged. On failure the cursor stands where it stood.
    pub fn parse_comparison(&mut self) -> (result: Result<AstNode, SecelError>)
        ensures
            final(self).text() == old(self).text(),
            agrees(
                result,
                final(self).position(),
                comparison(old(self).text(), old(self).position()),
                old(self).text(),
                old(self).position(),
            ),
    {
        let position = self.lexer.get_position();
        let left_op = match self.parse_value() {
            Ok(node) => node,
            Err(error) => {
                return Err(error);
            },
        };
        proof {
            lemma_next_token_at(self.text(), self.position());
        }
        let comparison_token = self.lexer.next_token();
        let right_op = match self.parse_value() {
            Ok(node) => node,
            Err(error) => {
                return self.fail(position, error);
            },
        };
        match comparison_token {
            Token::Eq => Ok(AstNode::Eq(Box::new(left_op), Box::new(right_op))),
            Token::Nq => Ok(AstNode::Nq(Box::new(left_op), Box::new(right_op))),
            Token::Ge => Ok(AstNode::Ge(Box::new(left_op), Box::new(right_op))),
            Token::Gt => Ok(AstNode::Gt(Box::new(left_op), Box::new(right_op))),
            Token::Le => Ok(AstNode::Le(Box::new(left_op), Box::new(right_op))),
            Token::Lt => Ok(AstNode::Lt(Box::new(left_op), Box::new(right_op))),
            other => {
                let mut message = String::from_str("expected comparison token, but encountered ");
                message.append(token_to_string(other).as_str());
                self.fail(position, SecelError::new(message.as_str()))
            },
        }
    }

    /// `expression = value | if_expression`: tries a value, then an `if`. On
    /// failure the cursor stands where it stood.
    pub fn parse_expression(&mut self) -> (result: Result<AstNode, SecelError>)
        ensures
            final(self).text() == old(self).text(),
            agrees(
                result,
                final(self).position(),
                expression(old(self).text(), old(self).position()),
                old(self).text(),
                old(self).position(),
            ),
        decreases remaining(old(self).text(), old(self).position()), 1nat,
    {
        if let Ok(node) = self.parse_value() {
            return Ok(node);
        }
        if let Ok(node) = self.parse_if_expression() {
            return Ok(node);
        }
        Err(SecelError::new("expected 'value' or 'if expression`"))
    }

    /// `value = NUMBER | NULL`: parses one from the cursor on. On failure the
    /// cursor stands where it stood.
    pub fn parse_value(&mut self) -> (result: Result<AstNode, SecelError>)
        ensures
            final(self).text() == old(self).text(),
            agrees(
                result,
                final(self).position(),
                value(old(self).text(), old(self).position()),
                old(self).text(),
                old(self).position(),
            ),
    {
        let position = self.lexer.get_position();
        proof {
            lemma_next_token_at(self.text(), position as int);
        }
        match self.lexer.next_token() {
            Token::Null => Ok(AstNode::Null),
            Token::Number(n) => Ok(AstNode::Number(n)),
            other => {
                let mut message = String::from_str("expected null or number but encountered ");
                message.append(token_to_string(other).as_str());
                self.fail(position, SecelError::new(message.as_str()))
            },
        }
    }

    /// Reads the token `expected`. Where the next token is another one, the
    /// cursor stands where it stood.
    pub fn consume_token(&mut self, expected: Token) -> (result: Result<(), SecelError>)
        ensures
            final(self).text() == old(self).text(),
            match token(old(self).text(), old(self).position(), expected) {
                Ok(end) => result is Ok && final(self).position() == end,
                Err(message) => result matches Err(error) && error@ == message
                    && final(self).position() == old(self).position(),
            },
    {
        let position = self.lexer.get_position();
        proof {
            lemma_next_token_at(self.text(), position as int);
        }
        let token = self.lexer.next_token();
        if token == expected {
            Ok(())
        } else {
            self.lexer.set_position(position);
            let mut message = String::from_str("expected token '");
            message.append(token_to_string(expected).as_str());
            message.append("', actual token: '");
            message.append(token_to_string(token).as_str());
            message.append("'");
            Err(SecelError::new(message.as_str()))
        }
    }

    /// Puts the cursor back to `position`, where the failing rule started,
    /// and hands the failure on.
    fn fail(&mut self, position: usize, error: SecelError) -> (result: Result<
        AstNode,
        SecelError,
    >)
        requires
            position <= old(self).position(),
        ensures
            final(self).text() == old(self).text(),
            final(self).position() == position,
            result == Err::<AstNode, SecelError>(error),
    {
        if position < self.lexer.get_position() {
            self.lexer.set_position(position);
        }
        Err(error)
    }
}

} // verus!
