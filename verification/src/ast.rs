//! The abstract syntax tree, and its picture as a tree of text lines.

use crate::lexer::IndexKey;
use crate::text::chars_of;
use crate::text::index_text;
use crate::text::index_to_string;
use ascii_tree::Tree;
use vstd::prelude::*;
use vstd::string::StrSliceExecFns;
use vstd::string::StringExecFns;

verus! {

/// Node of the abstract syntax tree.
#[derive(Debug, PartialEq, Eq)]
pub enum AstNode {
    /// Conjunction `and` of two conditions.
    And(Box<AstNode>, Box<AstNode>),
    /// Comparison `=` of two values.
    Eq(Box<AstNode>, Box<AstNode>),
    /// Comparison `>=` of two values.
    Ge(Box<AstNode>, Box<AstNode>),
    /// Comparison `>` of two values.
    Gt(Box<AstNode>, Box<AstNode>),
    /// `if` expression: the condition, the expression taken when it is
    /// true, the expression taken when it is false.
    If(Box<AstNode>, Box<AstNode>, Box<AstNode>),
    /// Comparison `<=` of two values.
    Le(Box<AstNode>, Box<AstNode>),
    /// Comparison `<` of two values.
    Lt(Box<AstNode>, Box<AstNode>),
    /// Disjunction `or` of two conditions.
    Or(Box<AstNode>, Box<AstNode>),
    /// The `null` value.
    Null,
    /// The content of the input slot with this key.
    Number(IndexKey),
    /// Comparison `<>` of two values.
    Nq(Box<AstNode>, Box<AstNode>),
}

impl AstNode {
    /// The number of nodes of the tree.
    pub open spec fn size(self) -> nat
        decreases self,
    {
        match self {
            AstNode::And(lhs, rhs) => 1 + lhs.size() + rhs.size(),
            AstNode::Eq(lhs, rhs) => 1 + lhs.size() + rhs.size(),
            AstNode::Ge(lhs, rhs) => 1 + lhs.size() + rhs.size(),
            AstNode::Gt(lhs, rhs) => 1 + lhs.size() + rhs.size(),
            AstNode::If(mhs, lhs, rhs) => 1 + mhs.size() + lhs.size() + rhs.size(),
            AstNode::Le(lhs, rhs) => 1 + lhs.size() + rhs.size(),
            AstNode::Lt(lhs, rhs) => 1 + lhs.size() + rhs.size(),
            AstNode::Or(lhs, rhs) => 1 + lhs.size() + rhs.size(),
            AstNode::Null => 1,
            AstNode::Number(_) => 1,
            AstNode::Nq(lhs, rhs) => 1 + lhs.size() + rhs.size(),
        }
    }

    /// The picture of the tree: see [`ast_to_tree`].
    pub fn to_string(&self) -> (text: String)
        ensures
            text@ == indented(drawing(picture(*self))),
    {
        ast_to_tree(self)
    }
}

/// `ascii_tree::Tree`, as the outside crate declares it: a node with a title
/// and subtrees, or a leaf of text lines. The enum and its fields are public
/// and made of `String` and `Vec` alone, so the declaration hides nothing:
/// verified code builds such trees and reads them.
#[verifier::external_type_specification]
pub struct ExTree(ascii_tree::Tree);

/// What a tree of texts holds: its titles, its lines and its form.
pub enum Shape {
    /// A title, and the subtrees under it.
    Node(Seq<char>, Seq<Shape>),
    /// The lines of a leaf.
    Leaf(Seq<Seq<char>>),
}

/// What the tree holds.
pub open spec fn shape_of(tree: Tree) -> Shape
    decreases tree,
{
    match tree {
        Tree::Node(title, children) => Shape::Node(
            title@,
            Seq::new(
                children@.len(),
                |i: int|
                    if 0 <= i < children@.len() {
                        shape_of(children@[i])
                    } else {
                        Shape::Leaf(Seq::empty())
                    },
            ),
        ),
        Tree::Leaf(lines) => Shape::Leaf(Seq::new(lines@.len(), |i: int| lines@[i]@)),
    }
}

/// The text that `ascii_tree::write_tree` writes for a tree of this shape.
pub uninterp spec fn drawing(shape: Shape) -> Seq<char>;

/// Calls `ascii_tree::write_tree` on an empty `String` and returns what it
/// wrote. The contract only names the text: it is a function of the tree's
/// titles, lines and form alone. Writing to a `String` does not fail, so the
/// `fmt::Result` is dropped.
#[verifier::external_body]
fn write_tree(tree: &Tree) -> (text: String)
    ensures
        text@ == drawing(shape_of(*tree)),
{
    let mut text = String::new();
    let _ = ascii_tree::write_tree(&mut text, tree);
    text
}

/// The picture of an operator with two operands.
pub open spec fn picture_2(name: Seq<char>, lhs: Shape, rhs: Shape) -> Shape {
    Shape::Node(name, seq![lhs, rhs])
}

/// The picture of an operator with three operands.
pub open spec fn picture_3(name: Seq<char>, lhs: Shape, mid: Shape, rhs: Shape) -> Shape {
    Shape::Node(name, seq![lhs, mid, rhs])
}

/// The picture of a leaf with one line.
pub open spec fn picture_leaf(line: Seq<char>) -> Shape {
    Shape::Leaf(seq![line])
}

/// The picture of the syntax tree: each operator is a node titled with its
/// name, over the pictures of its operands in their order; `null` is the
/// leaf `Null`; a slot is the node `Number` over a leaf that holds the key
/// between backticks.
pub open spec fn picture(node: AstNode) -> Shape
    decreases node,
{
    match node {
        AstNode::And(lhs, rhs) => picture_2("And"@, picture(*lhs), picture(*rhs)),
        AstNode::Eq(lhs, rhs) => picture_2("Eq"@, picture(*lhs), picture(*rhs)),
        AstNode::Ge(lhs, rhs) => picture_2("Ge"@, picture(*lhs), picture(*rhs)),
        AstNode::Gt(lhs, rhs) => picture_2("Gt"@, picture(*lhs), picture(*rhs)),
        AstNode::If(lhs, mid, rhs) => picture_3(
            "If"@,
            picture(*lhs),
            picture(*mid),
            picture(*rhs),
        ),
        AstNode::Le(lhs, rhs) => picture_2("Le"@, picture(*lhs), picture(*rhs)),
        AstNode::Lt(lhs, rhs) => picture_2("Lt"@, picture(*lhs), picture(*rhs)),
        AstNode::Null => picture_leaf("Null"@),
        AstNode::Number(key) => Shape::Node(
            "Number"@,
            seq![picture_leaf("`"@ + index_text(key) + "`"@)],
        ),
        AstNode::Or(lhs, rhs) => picture_2("Or"@, picture(*lhs), picture(*rhs)),
        AstNode::Nq(lhs, rhs) => picture_2("Nq"@, picture(*lhs), picture(*rhs)),
    }
}

/// The position of the first line feed from `pos` on, or the end of the
/// text.
pub open spec fn line_end(text: Seq<char>, pos: int) -> int
    decreases text.len() - pos,
{
    if 0 <= pos < text.len() && text[pos] != '\n' {
        line_end(text, pos + 1)
    } else {
        pos
    }
}

/// The position behind the last character of the line that starts at
/// `pos`: a carriage return in front of the line feed is no part of the
/// line.
pub open spec fn line_stop(text: Seq<char>, pos: int) -> int {
    let end = line_end(text, pos);
    if pos < end < text.len() && text[end - 1] == '\r' {
        end - 1
    } else {
        end
    }
}

/// What every line of a picture starts with.
pub open spec fn margin() -> Seq<char> {
    "\n      "@
}

/// The lines of `text` from `pos` on, each behind a line feed and a margin
/// of six spaces. The text's own line ends are dropped; behind its last
/// line end no further line starts.
pub open spec fn indented_from(text: Seq<char>, pos: int) -> Seq<char>
    decreases text.len() + 1 - pos,
{
    if 0 <= pos < text.len() {
        proof {
            lemma_line_end(text, pos);
        }
        margin() + text.subrange(pos, line_stop(text, pos)) + indented_from(
            text,
            line_end(text, pos) + 1,
        )
    } else {
        Seq::empty()
    }
}

/// The lines of `text`, each behind a line feed and a margin of six spaces,
/// and at the end a line feed and four spaces.
pub open spec fn indented(text: Seq<char>) -> Seq<char> {
    indented_from(text, 0) + "\n    "@
}

/// A line ends at its start or behind it, in the text, at a line feed or at
/// the end of the text.
pub proof fn lemma_line_end(text: Seq<char>, pos: int)
    ensures
        pos <= line_end(text, pos),
        pos <= text.len() ==> line_end(text, pos) <= text.len(),
        0 <= line_end(text, pos) < text.len() ==> text[line_end(text, pos)] == '\n',
        forall|i: int| pos <= i < line_end(text, pos) ==> text[i] != '\n',
    decreases text.len() - pos,
{
    if 0 <= pos < text.len() && text[pos] != '\n' {
        lemma_line_end(text, pos + 1);
    }
}

/// Puts each line of `drawn` behind a line feed and a margin of six spaces,
/// and ends with a line feed and four spaces.
pub fn indent(drawn: &str) -> (text: String)
    ensures
        text@ == indented(drawn@),
{
    let chars = chars_of(drawn);
    let mut text = String::new();
    let mut pos: usize = 0;
    while pos < chars.len()
        invariant
            chars@ == drawn@,
            pos <= chars.len(),
            text@ + indented_from(drawn@, pos as int) == indented_from(drawn@, 0),
        decreases chars.len() - pos,
    {
        let mut end = pos;
        while end < chars.len() && chars[end] != '\n'
            invariant
                pos <= end <= chars.len(),
                line_end(chars@, end as int) == line_end(chars@, pos as int),
            decreases chars.len() - end,
        {
            end += 1;
        }
        let stop = if pos < end && end < chars.len() && chars[end - 1] == '\r' {
            end - 1
        } else {
            end
        };
        let ghost before = text@;
        text.append("\n      ");
        text.append(drawn.substring_char(pos, stop));
        assert(text@ + indented_from(drawn@, end + 1) == before + indented_from(
            drawn@,
            pos as int,
        ));
        if end == chars.len() {
            pos = end;
        } else {
            pos = end + 1;
        }
    }
    text.append("\n    ");
    text
}

/// Converts AST into textual tree: the picture that `ascii_tree` draws of
/// it, see [`picture`], with each line behind a margin, see [`indent`].
pub fn ast_to_tree(root: &AstNode) -> (text: String)
    ensures
        text@ == indented(drawing(picture(*root))),
{
    let tree = ast_node_to_tree(root);
    let ascii_tree = write_tree(&tree);
    indent(ascii_tree.as_str())
}

/// Converts single AST node into tree.
fn ast_node_to_tree(node: &AstNode) -> (tree: Tree)
    ensures
        shape_of(tree) == picture(*node),
    decreases node.size(), 1nat,
{
    match node {
        AstNode::And(lhs, rhs) => node_2("And", lhs, rhs),
        AstNode::Eq(lhs, rhs) => node_2("Eq", lhs, rhs),
        AstNode::Ge(lhs, rhs) => node_2("Ge", lhs, rhs),
        AstNode::Gt(lhs, rhs) => node_2("Gt", lhs, rhs),
        AstNode::If(lhs, mid, rhs) => node_3("If", lhs, mid, rhs),
        AstNode::Le(lhs, rhs) => node_2("Le", lhs, rhs),
        AstNode::Lt(lhs, rhs) => node_2("Lt", lhs, rhs),
        AstNode::Null => leaf("Null"),
        AstNode::Number(lhs) => {
            let mut text = String::from_str("`");
            text.append(index_to_string(*lhs).as_str());
            text.append("`");
            node_and_leaf("Number", text.as_str())
        },
        AstNode::Or(lhs, rhs) => node_2("Or", lhs, rhs),
        AstNode::Nq(lhs, rhs) => node_2("Nq", lhs, rhs),
    }
}

fn node_2(name: &str, lhs: &AstNode, rhs: &AstNode) -> (tree: Tree)
    ensures
        shape_of(tree) == picture_2(name@, picture(*lhs), picture(*rhs)),
    decreases 1 + lhs.size() + rhs.size(), 0nat,
{
    let mut children: Vec<Tree> = Vec::new();
    children.push(ast_node_to_tree(lhs));
    children.push(ast_node_to_tree(rhs));
    let tree = Tree::Node(String::from_str(name), children);
    assert(shape_of(tree)->Node_1 =~= seq![picture(*lhs), picture(*rhs)]);
    tree
}

fn node_3(name: &str, lhs: &AstNode, mid: &AstNode, rhs: &AstNode) -> (tree: Tree)
    ensures
        shape_of(tree) == picture_3(name@, picture(*lhs), picture(*mid), picture(*rhs)),
    decreases 1 + lhs.size() + mid.size() + rhs.size(), 0nat,
{
    let mut children: Vec<Tree> = Vec::new();
    children.push(ast_node_to_tree(lhs));
    children.push(ast_node_to_tree(mid));
    children.push(ast_node_to_tree(rhs));
    let tree = Tree::Node(String::from_str(name), children);
    assert(shape_of(tree)->Node_1 =~= seq![picture(*lhs), picture(*mid), picture(*rhs)]);
    tree
}

fn node_and_leaf(name: &str, line: &str) -> (tree: Tree)
    ensures
        shape_of(tree) == Shape::Node(name@, seq![picture_leaf(line@)]),
{
    let mut children: Vec<Tree> = Vec::new();
    children.push(leaf(line));
    let tree = Tree::Node(String::from_str(name), children);
    assert(shape_of(tree)->Node_1 =~= seq![picture_leaf(line@)]);
    tree
}

fn leaf(line: &str) -> (tree: Tree)
    ensures
        shape_of(tree) == picture_leaf(line@),
{
    let mut lines: Vec<String> = Vec::new();
    lines.push(String::from_str(line));
    let tree = Tree::Leaf(lines);
    assert(shape_of(tree)->Leaf_0 =~= seq![line@]);
    tree
}

} // verus!
