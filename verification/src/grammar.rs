//! The grammar of the language, and the proof that the parser reads what
//! the grammar derives, and nothing else.
//!
//! A derivation is a tree with one type for each rule of the grammar. It
//! says which tokens it is made of, and which syntax tree it stands for:
//! `and` and `or` lean to the left, `and` binds tighter than `or`, and round
//! brackets leave no trace.
//!
//! ```text
//!   if_expression = `if` `(` condition `;` expression `;` expression `)`
//!       condition = disjunction | condition `or` disjunction
//!     disjunction = conjunction | disjunction `and` conjunction
//!     conjunction = comparison | `(` condition `)`
//!      comparison = value (`=` | `<>` | `>` | `<` | `>=` | `<=`) value
//!      expression = value | if_expression
//!           value = NUMBER | NULL
//! ```

use crate::ast::AstNode;
use crate::evaluator::result;
use crate::lexer::lemma_next_token_at;
use crate::lexer::next_token_at;
use crate::lexer::IndexKey;
use crate::lexer::Token;
use crate::parser::comparison;
use crate::parser::condition;
use crate::parser::conjunction;
use crate::parser::conjunctions;
use crate::parser::disjunction;
use crate::parser::disjunctions;
use crate::parser::expression;
use crate::parser::if_expression;
use crate::parser::lemma_rules_move_forward;
use crate::parser::remaining;
use crate::parser::statement;
use crate::parser::token;
use crate::parser::value;
use crate::parser::Outcome;
use crate::values::Value;
use vstd::prelude::*;

verus! {

/// `value = NUMBER | NULL`
pub enum Operand {
    Number(IndexKey),
    Null,
}

/// `= | <> | > | < | >= | <=`
pub enum Comparator {
    Eq,
    Nq,
    Gt,
    Lt,
    Ge,
    Le,
}

/// `conjunction = comparison | ( condition )`
pub enum Conjunction {
    Comparison(Operand, Comparator, Operand),
    Group(Box<Condition>),
}

/// `disjunction = conjunction | disjunction and conjunction`
pub enum Disjunction {
    One(Conjunction),
    And(Box<Disjunction>, Conjunction),
}

/// `condition = disjunction | condition or disjunction`
pub enum Condition {
    One(Disjunction),
    Or(Box<Condition>, Disjunction),
}

/// `expression = value | if_expression`
pub enum Expression {
    Value(Operand),
    If(Box<IfExpression>),
}

/// `if_expression = if ( condition ; expression ; expression )`
pub struct IfExpression {
    pub condition: Condition,
    pub accept: Expression,
    pub reject: Expression,
}

impl Operand {
    /// The token of the value.
    pub open spec fn token(self) -> Token {
        match self {
            Operand::Number(key) => Token::Number(key),
            Operand::Null => Token::Null,
        }
    }

    /// The tokens of the derivation.
    pub open spec fn tokens(self) -> Seq<Token> {
        seq![self.token()]
    }

    /// The syntax tree of the derivation.
    pub open spec fn node(self) -> AstNode {
        match self {
            Operand::Number(key) => AstNode::Number(key),
            Operand::Null => AstNode::Null,
        }
    }
}

impl Comparator {
    /// The token of the operator.
    pub open spec fn token(self) -> Token {
        match self {
            Comparator::Eq => Token::Eq,
            Comparator::Nq => Token::Nq,
            Comparator::Gt => Token::Gt,
            Comparator::Lt => Token::Lt,
            Comparator::Ge => Token::Ge,
            Comparator::Le => Token::Le,
        }
    }

    /// The syntax tree of the operator over two operands.
    pub open spec fn node(self, lhs: AstNode, rhs: AstNode) -> AstNode {
        match self {
            Comparator::Eq => AstNode::Eq(Box::new(lhs), Box::new(rhs)),
            Comparator::Nq => AstNode::Nq(Box::new(lhs), Box::new(rhs)),
            Comparator::Gt => AstNode::Gt(Box::new(lhs), Box::new(rhs)),
            Comparator::Lt => AstNode::Lt(Box::new(lhs), Box::new(rhs)),
            Comparator::Ge => AstNode::Ge(Box::new(lhs), Box::new(rhs)),
            Comparator::Le => AstNode::Le(Box::new(lhs), Box::new(rhs)),
        }
    }
}

impl Conjunction {
    /// The tokens of the derivation.
    pub open spec fn tokens(self) -> Seq<Token>
        decreases self,
    {
        match self {
            Conjunction::Comparison(lhs, operator, rhs) => lhs.tokens() + seq![operator.token()]
                + rhs.tokens(),
            Conjunction::Group(inner) => seq![Token::LeftParen] + inner.tokens()
                + seq![Token::RightParen],
        }
    }

    /// The syntax tree of the derivation.
    pub open spec fn node(self) -> AstNode
        decreases self,
    {
        match self {
            Conjunction::Comparison(lhs, operator, rhs) => operator.node(lhs.node(), rhs.node()),
            Conjunction::Group(inner) => inner.node(),
        }
    }
}

impl Disjunction {
    /// The tokens of the derivation.
    pub open spec fn tokens(self) -> Seq<Token>
        decreases self,
    {
        match self {
            Disjunction::One(only) => only.tokens(),
            Disjunction::And(lhs, rhs) => lhs.tokens() + seq![Token::And] + rhs.tokens(),
        }
    }

    /// The syntax tree of the derivation.
    pub open spec fn node(self) -> AstNode
        decreases self,
    {
        match self {
            Disjunction::One(only) => only.node(),
            Disjunction::And(lhs, rhs) => AstNode::And(
                Box::new(lhs.node()),
                Box::new(rhs.node()),
            ),
        }
    }
}

impl Condition {
    /// The tokens of the derivation.
    pub open spec fn tokens(self) -> Seq<Token>
        decreases self,
    {
        match self {
            Condition::One(only) => only.tokens(),
            Condition::Or(lhs, rhs) => lhs.tokens() + seq![Token::Or] + rhs.tokens(),
        }
    }

    /// The syntax tree of the derivation.
    pub open spec fn node(self) -> AstNode
        decreases self,
    {
        match self {
            Condition::One(only) => only.node(),
            Condition::Or(lhs, rhs) => AstNode::Or(Box::new(lhs.node()), Box::new(rhs.node())),
        }
    }
}

impl Expression {
    /// The tokens of the derivation.
    pub open spec fn tokens(self) -> Seq<Token>
        decreases self,
    {
        match self {
            Expression::Value(only) => only.tokens(),
            Expression::If(inner) => inner.tokens(),
        }
    }

    /// The syntax tree of the derivation.
    pub open spec fn node(self) -> AstNode
        decreases self,
    {
        match self {
            Expression::Value(only) => only.node(),
            Expression::If(inner) => inner.node(),
        }
    }
}

impl IfExpression {
    /// The tokens of the derivation.
    pub open spec fn tokens(self) -> Seq<Token>
        decreases self,
    {
        seq![Token::If] + seq![Token::LeftParen] + self.condition.tokens() + seq![
            Token::Semicolon,
        ] + self.accept.tokens() + seq![Token::Semicolon] + self.reject.tokens() + seq![
            Token::RightParen,
        ]
    }

    /// The syntax tree of the derivation.
    pub open spec fn node(self) -> AstNode
        decreases self,
    {
        AstNode::If(
            Box::new(self.condition.node()),
            Box::new(self.accept.node()),
            Box::new(self.reject.node()),
        )
    }
}

/// The position behind `tokens`, where the lexer hands out just these
/// tokens from `pos` on; `None` where it hands out another one.
pub open spec fn reads(text: Seq<char>, pos: int, tokens: Seq<Token>) -> Option<int>
    decreases tokens.len(),
{
    if tokens.len() == 0 {
        Some(pos)
    } else if next_token_at(text, pos).0 == tokens[0] {
        reads(text, next_token_at(text, pos).1, tokens.drop_first())
    } else {
        None
    }
}

/// The position behind `tokens`, read from where an earlier reading ended.
pub open spec fn reads_on(start: Option<int>, text: Seq<char>, tokens: Seq<Token>) -> Option<
    int,
> {
    match start {
        Some(pos) => reads(text, pos, tokens),
        None => None,
    }
}

/// Reading one token is asking the lexer once.
pub proof fn lemma_reads_one(text: Seq<char>, pos: int, expected: Token)
    ensures
        reads(text, pos, seq![expected]) == if next_token_at(text, pos).0 == expected {
            Some(next_token_at(text, pos).1)
        } else {
            None
        },
{
    assert(seq![expected].drop_first().len() == 0);
    reveal_with_fuel(reads, 2);
}

/// Reading two runs of tokens one behind the other is reading the first and
/// going on with the second.
pub proof fn lemma_reads_both(text: Seq<char>, pos: int, first: Seq<Token>, second: Seq<Token>)
    ensures
        reads(text, pos, first + second) == reads_on(reads(text, pos, first), text, second),
    decreases first.len(),
{
    if first.len() == 0 {
        assert(first + second =~= second);
    } else {
        assert((first + second).drop_first() =~= first.drop_first() + second);
        if next_token_at(text, pos).0 == first[0] {
            lemma_reads_both(text, next_token_at(text, pos).1, first.drop_first(), second);
        }
    }
}

/// Reading never moves backward.
pub proof fn lemma_reads_forward(text: Seq<char>, pos: int, tokens: Seq<Token>)
    ensures
        reads(text, pos, tokens) matches Some(end) ==> pos <= end,
    decreases tokens.len(),
{
    if tokens.len() > 0 && next_token_at(text, pos).0 == tokens[0] {
        lemma_next_token_at(text, pos);
        lemma_reads_forward(text, next_token_at(text, pos).1, tokens.drop_first());
    }
}

/// Reading tokens, one token and more tokens is reading the first, asking
/// the lexer once, and going on with the last.
pub proof fn lemma_reads_around(
    text: Seq<char>,
    pos: int,
    first: Seq<Token>,
    middle: Token,
    last: Seq<Token>,
)
    ensures
        reads(text, pos, first + seq![middle] + last) == match reads(text, pos, first) {
            Some(at) => if next_token_at(text, at).0 == middle {
                reads(text, next_token_at(text, at).1, last)
            } else {
                None
            },
            None => None,
        },
{
    lemma_reads_both(text, pos, first + seq![middle], last);
    lemma_reads_both(text, pos, first, seq![middle]);
    if let Some(at) = reads(text, pos, first) {
        lemma_reads_one(text, at, middle);
    }
}

/// The outcome of a rule that has read a derivation up to `end`.
pub open spec fn found(node: AstNode, end: int) -> Outcome {
    Ok((node, end))
}

proof fn lemma_operand_is_read(text: Seq<char>, pos: int, tree: Operand, end: int)
    requires
        reads(text, pos, tree.tokens()) == Some(end),
    ensures
        value(text, pos) == found(tree.node(), end),
{
    lemma_reads_one(text, pos, tree.token());
}

proof fn lemma_comparison_is_read(
    text: Seq<char>,
    pos: int,
    lhs: Operand,
    operator: Comparator,
    rhs: Operand,
    end: int,
)
    requires
        reads(text, pos, lhs.tokens() + seq![operator.token()] + rhs.tokens()) == Some(end),
    ensures
        comparison(text, pos) == found(operator.node(lhs.node(), rhs.node()), end),
{
    lemma_reads_around(text, pos, lhs.tokens(), operator.token(), rhs.tokens());
    let operator_start = reads(text, pos, lhs.tokens())->0;
    lemma_operand_is_read(text, pos, lhs, operator_start);
    lemma_operand_is_read(text, next_token_at(text, operator_start).1, rhs, end);
}

proof fn lemma_conjunction_is_read(text: Seq<char>, pos: int, tree: Conjunction, end: int)
    requires
        reads(text, pos, tree.tokens()) == Some(end),
    ensures
        conjunction(text, pos) == found(tree.node(), end),
    decreases tree, 0nat,
{
    match tree {
        Conjunction::Comparison(lhs, operator, rhs) => {
            lemma_comparison_is_read(text, pos, lhs, operator, rhs, end);
        },
        Conjunction::Group(inner) => {
            lemma_reads_both(
                text,
                pos,
                seq![Token::LeftParen] + inner.tokens(),
                seq![Token::RightParen],
            );
            lemma_reads_both(text, pos, seq![Token::LeftParen], inner.tokens());
            lemma_reads_one(text, pos, Token::LeftParen);
            let inner_start = next_token_at(text, pos).1;
            let inner_end = reads(text, inner_start, inner.tokens())->0;
            lemma_reads_one(text, inner_end, Token::RightParen);
            lemma_condition_is_read(text, inner_start, *inner, inner_end);
        },
    }
}

proof fn lemma_disjunction_is_begun(text: Seq<char>, pos: int, tree: Disjunction, end: int)
    requires
        reads(text, pos, tree.tokens()) == Some(end),
    ensures
        disjunction(text, pos) == conjunctions(text, end, tree.node()),
    decreases tree, 0nat,
{
    match tree {
        Disjunction::One(only) => {
            lemma_conjunction_is_read(text, pos, only, end);
            lemma_rules_move_forward(text, pos);
        },
        Disjunction::And(lhs, rhs) => {
            lemma_reads_around(text, pos, lhs.tokens(), Token::And, rhs.tokens());
            let and_start = reads(text, pos, lhs.tokens())->0;
            let rhs_start = next_token_at(text, and_start).1;
            lemma_disjunction_is_begun(text, pos, *lhs, and_start);
            lemma_conjunction_is_read(text, rhs_start, rhs, end);
            lemma_rules_move_forward(text, rhs_start);
        },
    }
}

proof fn lemma_disjunction_is_read(text: Seq<char>, pos: int, tree: Disjunction, end: int)
    requires
        reads(text, pos, tree.tokens()) == Some(end),
        next_token_at(text, end).0 != Token::And,
    ensures
        disjunction(text, pos) == found(tree.node(), end),
    decreases tree, 1nat,
{
    lemma_disjunction_is_begun(text, pos, tree, end);
}

proof fn lemma_condition_is_begun(text: Seq<char>, pos: int, tree: Condition, end: int)
    requires
        reads(text, pos, tree.tokens()) == Some(end),
        next_token_at(text, end).0 != Token::And,
    ensures
        condition(text, pos) == disjunctions(text, end, tree.node()),
    decreases tree, 0nat,
{
    match tree {
        Condition::One(only) => {
            lemma_disjunction_is_read(text, pos, only, end);
            lemma_rules_move_forward(text, pos);
        },
        Condition::Or(lhs, rhs) => {
            lemma_reads_around(text, pos, lhs.tokens(), Token::Or, rhs.tokens());
            let or_start = reads(text, pos, lhs.tokens())->0;
            let rhs_start = next_token_at(text, or_start).1;
            lemma_condition_is_begun(text, pos, *lhs, or_start);
            lemma_disjunction_is_read(text, rhs_start, rhs, end);
            lemma_rules_move_forward(text, rhs_start);
        },
    }
}

/// The rule for conditions reads what the grammar derives as a condition.
/// Where the lexer hands out the tokens of a derivation of `condition`
/// from `pos` on, and behind them neither `and` nor `or`, the condition at
/// `pos` is parsed: its syntax tree is the derivation's, and it ends behind
/// the derivation's last token.
pub proof fn lemma_condition_is_read(text: Seq<char>, pos: int, tree: Condition, end: int)
    requires
        reads(text, pos, tree.tokens()) == Some(end),
        next_token_at(text, end).0 != Token::And,
        next_token_at(text, end).0 != Token::Or,
    ensures
        condition(text, pos) == found(tree.node(), end),
    decreases tree, 1nat,
{
    lemma_condition_is_begun(text, pos, tree, end);
}

proof fn lemma_expression_is_read(text: Seq<char>, pos: int, tree: Expression, end: int)
    requires
        reads(text, pos, tree.tokens()) == Some(end),
    ensures
        expression(text, pos) == found(tree.node(), end),
    decreases tree, 0nat,
{
    match tree {
        Expression::Value(only) => {
            lemma_operand_is_read(text, pos, only, end);
        },
        Expression::If(inner) => {
            lemma_if_expression_is_read(text, pos, *inner, end);
        },
    }
}

proof fn lemma_if_expression_is_read(text: Seq<char>, pos: int, tree: IfExpression, end: int)
    requires
        reads(text, pos, tree.tokens()) == Some(end),
    ensures
        if_expression(text, pos) == found(tree.node(), end),
    decreases tree, 0nat,
{
    let opened = seq![Token::If] + seq![Token::LeftParen];
    let tested = opened + tree.condition.tokens();
    let accepted = tested + seq![Token::Semicolon] + tree.accept.tokens();
    let rejected = accepted + seq![Token::Semicolon] + tree.reject.tokens();
    lemma_reads_both(text, pos, rejected, seq![Token::RightParen]);
    lemma_reads_around(text, pos, accepted, Token::Semicolon, tree.reject.tokens());
    lemma_reads_around(text, pos, tested, Token::Semicolon, tree.accept.tokens());
    lemma_reads_both(text, pos, opened, tree.condition.tokens());
    lemma_reads_both(text, pos, seq![Token::If], seq![Token::LeftParen]);
    lemma_reads_one(text, pos, Token::If);
    let open_start = next_token_at(text, pos).1;
    lemma_reads_one(text, open_start, Token::LeftParen);
    let condition_start = next_token_at(text, open_start).1;
    let condition_end = reads(text, condition_start, tree.condition.tokens())->0;
    lemma_condition_is_read(text, condition_start, tree.condition, condition_end);
    let accept_start = next_token_at(text, condition_end).1;
    let accept_end = reads(text, accept_start, tree.accept.tokens())->0;
    lemma_expression_is_read(text, accept_start, tree.accept, accept_end);
    lemma_reads_forward(text, accept_start, tree.accept.tokens());
    let reject_start = next_token_at(text, accept_end).1;
    let reject_end = reads(text, reject_start, tree.reject.tokens())->0;
    lemma_expression_is_read(text, reject_start, tree.reject, reject_end);
    lemma_reads_one(text, reject_end, Token::RightParen);
}

/// The parser reads what the grammar derives. Where the lexer hands out
/// the tokens of a derivation of `if_expression` from `pos` on, the
/// statement at `pos` is parsed: its syntax tree is the derivation's, and it
/// ends behind the derivation's last token.
pub proof fn lemma_derivation_is_parsed(text: Seq<char>, pos: int, tree: IfExpression, end: int)
    requires
        reads(text, pos, tree.tokens()) == Some(end),
    ensures
        statement(text, pos) == found(tree.node(), end),
{
    lemma_if_expression_is_read(text, pos, tree, end);
}

/// The outcome is a success, and it is the reading of these tokens into
/// this syntax tree.
pub open spec fn derived(
    outcome: Outcome,
    text: Seq<char>,
    pos: int,
    tokens: Seq<Token>,
    node: AstNode,
) -> bool {
    &&& outcome matches Ok((found_node, end))
    &&& found_node == node
    &&& reads(text, pos, tokens) == Some(end)
}

proof fn lemma_value_is_operand(text: Seq<char>, pos: int) -> (tree: Operand)
    requires
        value(text, pos) is Ok,
    ensures
        derived(value(text, pos), text, pos, tree.tokens(), tree.node()),
{
    let tree = match next_token_at(text, pos).0 {
        Token::Number(key) => Operand::Number(key),
        _ => Operand::Null,
    };
    lemma_reads_one(text, pos, tree.token());
    tree
}

proof fn lemma_comparison_is_conjunction(text: Seq<char>, pos: int) -> (tree: Conjunction)
    requires
        comparison(text, pos) is Ok,
    ensures
        derived(comparison(text, pos), text, pos, tree.tokens(), tree.node()),
{
    let lhs = lemma_value_is_operand(text, pos);
    let operator_start = value(text, pos)->Ok_0.1;
    let operator = match next_token_at(text, operator_start).0 {
        Token::Eq => Comparator::Eq,
        Token::Nq => Comparator::Nq,
        Token::Gt => Comparator::Gt,
        Token::Lt => Comparator::Lt,
        Token::Ge => Comparator::Ge,
        _ => Comparator::Le,
    };
    let rhs = lemma_value_is_operand(text, next_token_at(text, operator_start).1);
    lemma_reads_around(text, pos, lhs.tokens(), operator.token(), rhs.tokens());
    Conjunction::Comparison(lhs, operator, rhs)
}

proof fn lemma_conjunction_is_derived(text: Seq<char>, pos: int) -> (tree: Conjunction)
    requires
        conjunction(text, pos) is Ok,
    ensures
        derived(conjunction(text, pos), text, pos, tree.tokens(), tree.node()),
    decreases remaining(text, pos), 0nat,
{
    if comparison(text, pos) is Ok {
        lemma_comparison_is_conjunction(text, pos)
    } else {
        lemma_next_token_at(text, pos);
        let inner_start = next_token_at(text, pos).1;
        let inner = lemma_condition_is_derived(text, inner_start);
        let inner_end = condition(text, inner_start)->Ok_0.1;
        lemma_reads_one(text, pos, Token::LeftParen);
        lemma_reads_both(text, pos, seq![Token::LeftParen], inner.tokens());
        lemma_reads_one(text, inner_end, Token::RightParen);
        lemma_reads_both(
            text,
            pos,
            seq![Token::LeftParen] + inner.tokens(),
            seq![Token::RightParen],
        );
        Conjunction::Group(Box::new(inner))
    }
}

proof fn lemma_conjunctions_are_derived(
    text: Seq<char>,
    start: int,
    pos: int,
    lhs: Disjunction,
) -> (tree: Disjunction)
    requires
        reads(text, start, lhs.tokens()) == Some(pos),
        conjunctions(text, pos, lhs.node()) is Ok,
    ensures
        derived(conjunctions(text, pos, lhs.node()), text, start, tree.tokens(), tree.node()),
    decreases remaining(text, pos), 1nat,
{
    if token(text, pos, Token::And) is Ok {
        lemma_next_token_at(text, pos);
        let rhs_start = next_token_at(text, pos).1;
        let rhs = lemma_conjunction_is_derived(text, rhs_start);
        let rhs_end = conjunction(text, rhs_start)->Ok_0.1;
        lemma_rules_move_forward(text, rhs_start);
        lemma_reads_around(text, start, lhs.tokens(), Token::And, rhs.tokens());
        lemma_conjunctions_are_derived(
            text,
            start,
            rhs_end,
            Disjunction::And(Box::new(lhs), rhs),
        )
    } else {
        lhs
    }
}

proof fn lemma_disjunction_is_derived(text: Seq<char>, pos: int) -> (tree: Disjunction)
    requires
        disjunction(text, pos) is Ok,
    ensures
        derived(disjunction(text, pos), text, pos, tree.tokens(), tree.node()),
    decreases remaining(text, pos), 2nat,
{
    let first = lemma_conjunction_is_derived(text, pos);
    lemma_rules_move_forward(text, pos);
    lemma_conjunctions_are_derived(
        text,
        pos,
        conjunction(text, pos)->Ok_0.1,
        Disjunction::One(first),
    )
}

proof fn lemma_disjunctions_are_derived(
    text: Seq<char>,
    start: int,
    pos: int,
    lhs: Condition,
) -> (tree: Condition)
    requires
        reads(text, start, lhs.tokens()) == Some(pos),
        disjunctions(text, pos, lhs.node()) is Ok,
    ensures
        derived(disjunctions(text, pos, lhs.node()), text, start, tree.tokens(), tree.node()),
    decreases remaining(text, pos), 3nat,
{
    if token(text, pos, Token::Or) is Ok {
        lemma_next_token_at(text, pos);
        let rhs_start = next_token_at(text, pos).1;
        let rhs = lemma_disjunction_is_derived(text, rhs_start);
        let rhs_end = disjunction(text, rhs_start)->Ok_0.1;
        lemma_rules_move_forward(text, rhs_start);
        lemma_reads_around(text, start, lhs.tokens(), Token::Or, rhs.tokens());
        lemma_disjunctions_are_derived(text, start, rhs_end, Condition::Or(Box::new(lhs), rhs))
    } else {
        lhs
    }
}

proof fn lemma_condition_is_derived(text: Seq<char>, pos: int) -> (tree: Condition)
    requires
        condition(text, pos) is Ok,
    ensures
        derived(condition(text, pos), text, pos, tree.tokens(), tree.node()),
    decreases remaining(text, pos), 4nat,
{
    let first = lemma_disjunction_is_derived(text, pos);
    lemma_rules_move_forward(text, pos);
    lemma_disjunctions_are_derived(
        text,
        pos,
        disjunction(text, pos)->Ok_0.1,
        Condition::One(first),
    )
}

proof fn lemma_if_expression_is_derived(text: Seq<char>, pos: int) -> (tree: IfExpression)
    requires
        if_expression(text, pos) is Ok,
    ensures
        derived(if_expression(text, pos), text, pos, tree.tokens(), tree.node()),
    decreases remaining(text, pos), 0nat,
{
    lemma_next_token_at(text, pos);
    let open_start = next_token_at(text, pos).1;
    lemma_next_token_at(text, open_start);
    let condition_start = next_token_at(text, open_start).1;
    let test = lemma_condition_is_derived(text, condition_start);
    let condition_end = condition(text, condition_start)->Ok_0.1;
    lemma_rules_move_forward(text, condition_start);
    lemma_next_token_at(text, condition_end);
    let accept_start = next_token_at(text, condition_end).1;
    let accept = lemma_expression_is_derived(text, accept_start);
    let accept_end = expression(text, accept_start)->Ok_0.1;
    lemma_reads_forward(text, accept_start, accept.tokens());
    lemma_next_token_at(text, accept_end);
    let reject_start = next_token_at(text, accept_end).1;
    let reject = lemma_expression_is_derived(text, reject_start);
    let reject_end = expression(text, reject_start)->Ok_0.1;
    let tree = IfExpression { condition: test, accept, reject };
    let opened = seq![Token::If] + seq![Token::LeftParen];
    let tested = opened + tree.condition.tokens();
    let accepted = tested + seq![Token::Semicolon] + tree.accept.tokens();
    let rejected = accepted + seq![Token::Semicolon] + tree.reject.tokens();
    lemma_reads_one(text, pos, Token::If);
    lemma_reads_one(text, open_start, Token::LeftParen);
    lemma_reads_both(text, pos, seq![Token::If], seq![Token::LeftParen]);
    lemma_reads_both(text, pos, opened, tree.condition.tokens());
    lemma_reads_around(text, pos, tested, Token::Semicolon, tree.accept.tokens());
    lemma_reads_around(text, pos, accepted, Token::Semicolon, tree.reject.tokens());
    lemma_reads_one(text, reject_end, Token::RightParen);
    lemma_reads_both(text, pos, rejected, seq![Token::RightParen]);
    tree
}

proof fn lemma_expression_is_derived(text: Seq<char>, pos: int) -> (tree: Expression)
    requires
        expression(text, pos) is Ok,
    ensures
        derived(expression(text, pos), text, pos, tree.tokens(), tree.node()),
    decreases remaining(text, pos), 1nat,
{
    if value(text, pos) is Ok {
        Expression::Value(lemma_value_is_operand(text, pos))
    } else {
        Expression::If(Box::new(lemma_if_expression_is_derived(text, pos)))
    }
}

/// The parser reads nothing but what the grammar derives. Where a
/// statement is parsed, there is a derivation of `if_expression` whose
/// tokens are those that the lexer hands out from `pos` up to the end of the
/// statement, and whose syntax tree is the one that was parsed.
pub proof fn lemma_parsed_is_derivation(text: Seq<char>, pos: int) -> (tree: IfExpression)
    requires
        statement(text, pos) is Ok,
    ensures
        derived(statement(text, pos), text, pos, tree.tokens(), tree.node()),
{
    lemma_if_expression_is_derived(text, pos)
}

/// `or` leans to the left: three disjunctions with `or` between them are
/// parsed into an `Or` whose left side holds the first two.
pub proof fn lemma_or_leans_left(
    text: Seq<char>,
    pos: int,
    first: Disjunction,
    second: Disjunction,
    third: Disjunction,
    end: int,
)
    requires
        reads(
            text,
            pos,
            first.tokens() + seq![Token::Or] + second.tokens() + seq![Token::Or] + third.tokens(),
        ) == Some(end),
        next_token_at(text, end).0 != Token::And,
        next_token_at(text, end).0 != Token::Or,
    ensures
        condition(text, pos) == found(
            AstNode::Or(
                Box::new(AstNode::Or(Box::new(first.node()), Box::new(second.node()))),
                Box::new(third.node()),
            ),
            end,
        ),
{
    let tree = Condition::Or(
        Box::new(Condition::Or(Box::new(Condition::One(first)), second)),
        third,
    );
    assert(tree.tokens() == first.tokens() + seq![Token::Or] + second.tokens() + seq![Token::Or]
        + third.tokens()) by {
        reveal_with_fuel(Condition::tokens, 3);
    }
    assert(tree.node() == AstNode::Or(
        Box::new(AstNode::Or(Box::new(first.node()), Box::new(second.node()))),
        Box::new(third.node()),
    )) by {
        reveal_with_fuel(Condition::node, 3);
    }
    lemma_condition_is_read(text, pos, tree, end);
}

/// `and` leans to the left: three conjunctions with `and` between them are
/// parsed into an `And` whose left side holds the first two.
pub proof fn lemma_and_leans_left(
    text: Seq<char>,
    pos: int,
    first: Conjunction,
    second: Conjunction,
    third: Conjunction,
    end: int,
)
    requires
        reads(
            text,
            pos,
            first.tokens() + seq![Token::And] + second.tokens() + seq![Token::And]
                + third.tokens(),
        ) == Some(end),
        next_token_at(text, end).0 != Token::And,
        next_token_at(text, end).0 != Token::Or,
    ensures
        condition(text, pos) == found(
            AstNode::And(
                Box::new(AstNode::And(Box::new(first.node()), Box::new(second.node()))),
                Box::new(third.node()),
            ),
            end,
        ),
{
    let tree = Condition::One(
        Disjunction::And(
            Box::new(Disjunction::And(Box::new(Disjunction::One(first)), second)),
            third,
        ),
    );
    assert(tree.tokens() == first.tokens() + seq![Token::And] + second.tokens() + seq![
        Token::And,
    ] + third.tokens()) by {
        reveal_with_fuel(Condition::tokens, 4);
    }
    assert(tree.node() == AstNode::And(
        Box::new(AstNode::And(Box::new(first.node()), Box::new(second.node()))),
        Box::new(third.node()),
    )) by {
        reveal_with_fuel(Condition::node, 4);
    }
    lemma_condition_is_read(text, pos, tree, end);
}

/// `and` binds tighter than `or`: a disjunction, `or`, and two conjunctions
/// with `and` between them are parsed into an `Or` whose right side is the
/// `And`; with the `and` in front of the `or`, the `And` is the left side.
pub proof fn lemma_and_binds_tighter(
    text: Seq<char>,
    pos: int,
    first: Conjunction,
    second: Conjunction,
    third: Conjunction,
    end: int,
)
    requires
        next_token_at(text, end).0 != Token::And,
        next_token_at(text, end).0 != Token::Or,
    ensures
        reads(
            text,
            pos,
            first.tokens() + seq![Token::Or] + (second.tokens() + seq![Token::And]
                + third.tokens()),
        ) == Some(end) ==> condition(text, pos) == found(
            AstNode::Or(
                Box::new(first.node()),
                Box::new(AstNode::And(Box::new(second.node()), Box::new(third.node()))),
            ),
            end,
        ),
        reads(
            text,
            pos,
            first.tokens() + seq![Token::And] + second.tokens() + seq![Token::Or]
                + third.tokens(),
        ) == Some(end) ==> condition(text, pos) == found(
            AstNode::Or(
                Box::new(AstNode::And(Box::new(first.node()), Box::new(second.node()))),
                Box::new(third.node()),
            ),
            end,
        ),
{
    let right = Condition::Or(
        Box::new(Condition::One(Disjunction::One(first))),
        Disjunction::And(Box::new(Disjunction::One(second)), third),
    );
    assert(right.tokens() == first.tokens() + seq![Token::Or] + (second.tokens() + seq![
        Token::And,
    ] + third.tokens())) by {
        reveal_with_fuel(Condition::tokens, 4);
    }
    assert(right.node() == AstNode::Or(
        Box::new(first.node()),
        Box::new(AstNode::And(Box::new(second.node()), Box::new(third.node()))),
    )) by {
        reveal_with_fuel(Condition::node, 4);
    }
    if reads(text, pos, right.tokens()) == Some(end) {
        lemma_condition_is_read(text, pos, right, end);
    }
    let left = Condition::Or(
        Box::new(
            Condition::One(Disjunction::And(Box::new(Disjunction::One(first)), second)),
        ),
        Disjunction::One(third),
    );
    assert(left.tokens() == first.tokens() + seq![Token::And] + second.tokens() + seq![
        Token::Or,
    ] + third.tokens()) by {
        reveal_with_fuel(Condition::tokens, 4);
    }
    assert(left.node() == AstNode::Or(
        Box::new(AstNode::And(Box::new(first.node()), Box::new(second.node()))),
        Box::new(third.node()),
    )) by {
        reveal_with_fuel(Condition::node, 4);
    }
    if reads(text, pos, left.tokens()) == Some(end) {
        lemma_condition_is_read(text, pos, left, end);
    }
}

/// A conjunction amounts to a truth value or to `Null`, whatever the input
/// slots hold: never to a number.
pub proof fn lemma_conjunction_is_no_number(tree: Conjunction, values: Map<IndexKey, Value>)
    ensures
        !(result(tree.node(), values) is Number),
    decreases tree,
{
    match tree {
        Conjunction::Group(inner) => {
            lemma_condition_is_no_number(*inner, values);
        },
        Conjunction::Comparison(lhs, operator, rhs) => {},
    }
}

/// A disjunction amounts to a truth value or to `Null`, whatever the input
/// slots hold: never to a number.
pub proof fn lemma_disjunction_is_no_number(tree: Disjunction, values: Map<IndexKey, Value>)
    ensures
        !(result(tree.node(), values) is Number),
    decreases tree,
{
    match tree {
        Disjunction::One(only) => {
            lemma_conjunction_is_no_number(only, values);
        },
        Disjunction::And(lhs, rhs) => {},
    }
}

/// A condition amounts to a truth value or to `Null`, whatever the input
/// slots hold: never to a number.
pub proof fn lemma_condition_is_no_number(tree: Condition, values: Map<IndexKey, Value>)
    ensures
        !(result(tree.node(), values) is Number),
    decreases tree,
{
    match tree {
        Condition::One(only) => {
            lemma_disjunction_is_no_number(only, values);
        },
        Condition::Or(lhs, rhs) => {},
    }
}

} // verus!
