//! The value and expression-tree model shared by the parser and the
//! interpreter, together with its mathematical model.

use vstd::prelude::*;

use crate::token::{Operator, Rat, SpecToken, Token};

verus! {

/// The tagged value vocabulary: literal values, operator tags, and the
/// `Null` sentinel. Operator tags appear only as internal tree node labels;
/// they are never a final evaluation result.
#[derive(Clone, Debug, PartialEq)]
pub enum Parameters {
    Int(i64),
    Rational(Rat),
    Identifier(String),
    PlusOperation,
    MinusOperation,
    MultiplicationOperation,
    DivideOperation,
    Assign,
    Null,
}

/// A binary expression tree: either the empty marker `Nil` or a node holding
/// one value and two owned subtrees. Building a tree never mutates a node in
/// place; every insertion produces a new node wrapping the old structure.
#[derive(Debug, PartialEq)]
pub enum Ast {
    Nil,
    Node { value: Parameters, left: Box<Ast>, right: Box<Ast> },
}

/// Mathematical model of a `Parameters` value.
pub enum SpecValue {
    Int(i64),
    Rational(Rat),
    Identifier(Seq<char>),
    PlusOperation,
    MinusOperation,
    MultiplicationOperation,
    DivideOperation,
    Assign,
    Null,
}

/// Mathematical model of an expression tree.
pub enum SpecTree {
    Nil,
    Node { value: SpecValue, left: Box<SpecTree>, right: Box<SpecTree> },
}

impl View for Parameters {
    type V = SpecValue;

    open spec fn view(&self) -> SpecValue {
        match self {
            Parameters::Int(i) => SpecValue::Int(*i),
            Parameters::Rational(q) => SpecValue::Rational(*q),
            Parameters::Identifier(s) => SpecValue::Identifier(s@),
            Parameters::PlusOperation => SpecValue::PlusOperation,
            Parameters::MinusOperation => SpecValue::MinusOperation,
            Parameters::MultiplicationOperation => SpecValue::MultiplicationOperation,
            Parameters::DivideOperation => SpecValue::DivideOperation,
            Parameters::Assign => SpecValue::Assign,
            Parameters::Null => SpecValue::Null,
        }
    }
}

pub open spec fn tree_view(a: Ast) -> SpecTree
    decreases a,
{
    match a {
        Ast::Nil => SpecTree::Nil,
        Ast::Node { value, left, right } => SpecTree::Node {
            value: value@,
            left: Box::new(tree_view(*left)),
            right: Box::new(tree_view(*right)),
        },
    }
}

impl View for Ast {
    type V = SpecTree;

    open spec fn view(&self) -> SpecTree {
        tree_view(*self)
    }
}

/// A one-node tree in the model.
pub open spec fn spec_leaf(p: SpecValue) -> SpecTree {
    SpecTree::Node { value: p, left: Box::new(SpecTree::Nil), right: Box::new(SpecTree::Nil) }
}

/// The value at the root of a tree; the empty tree carries `Null`.
pub open spec fn spec_root_value(t: SpecTree) -> SpecValue {
    match t {
        SpecTree::Nil => SpecValue::Null,
        SpecTree::Node { value, .. } => value,
    }
}

/// The left subtree; the empty tree has an empty left subtree.
pub open spec fn spec_left(t: SpecTree) -> SpecTree {
    match t {
        SpecTree::Nil => SpecTree::Nil,
        SpecTree::Node { left, .. } => *left,
    }
}

/// Replacing the left child: on the empty tree the new subtree is the result.
pub open spec fn spec_insert_left(t: SpecTree, node: SpecTree) -> SpecTree {
    match t {
        SpecTree::Nil => node,
        SpecTree::Node { value, left: _, right } => SpecTree::Node {
            value,
            left: Box::new(node),
            right,
        },
    }
}

/// Replacing the right child: on the empty tree the new subtree is the result.
pub open spec fn spec_insert_right(t: SpecTree, node: SpecTree) -> SpecTree {
    match t {
        SpecTree::Nil => node,
        SpecTree::Node { value, left, right: _ } => SpecTree::Node {
            value,
            left,
            right: Box::new(node),
        },
    }
}

impl Ast {
    /// A one-node tree holding `p`, with both children empty.
    pub fn new(p: Parameters) -> (r: Self)
        ensures
            r@ == spec_leaf(p@),
    {
        let r = Ast::Node { value: p, left: Box::new(Ast::Nil), right: Box::new(Ast::Nil) };
        proof {
            reveal_with_fuel(tree_view, 2);
        }
        r
    }

    /// A copy of `self` whose left child is `node`; an empty `self` becomes
    /// `node` itself.
    pub fn insert_left(self, node: Ast) -> (r: Self)
        ensures
            r@ == spec_insert_left(self@, node@),
    {
        match self {
            Ast::Nil => node,
            Ast::Node { value, left: _, right } => Ast::Node {
                value,
                left: Box::new(node),
                right,
            },
        }
    }

    /// A copy of `self` whose right child is `node`; an empty `self` becomes
    /// `node` itself.
    pub fn insert_right(self, node: Ast) -> (r: Self)
        ensures
            r@ == spec_insert_right(self@, node@),
    {
        match self {
            Ast::Nil => node,
            Ast::Node { value, left, right: _ } => Ast::Node {
                value,
                left,
                right: Box::new(node),
            },
        }
    }

    /// The value at the root; the empty tree yields `Null`.
    pub fn value(self) -> (r: Parameters)
        ensures
            r@ == spec_root_value(self@),
    {
        match self {
            Ast::Nil => Parameters::Null,
            Ast::Node { value, .. } => value,
        }
    }

    /// The left subtree; the empty tree yields the empty tree.
    pub fn left(self) -> (r: Ast)
        ensures
            r@ == spec_left(self@),
    {
        match self {
            Ast::Nil => Ast::Nil,
            Ast::Node { left, .. } => *left,
        }
    }
}

/// The model of `token_to_parameter`: how each token category reads as a
/// tree value. Parentheses and the sentinel carry nothing and become `Null`.
pub open spec fn spec_token_to_parameter(t: SpecToken) -> SpecValue {
    match t {
        SpecToken::Int(i) => SpecValue::Int(i),
        SpecToken::Rational(q) => SpecValue::Rational(q),
        SpecToken::Identifier(s) => SpecValue::Identifier(s),
        SpecToken::Ope(Operator::Plus) => SpecValue::PlusOperation,
        SpecToken::Ope(Operator::Minus) => SpecValue::MinusOperation,
        SpecToken::Ope(Operator::Multiplication) => SpecValue::MultiplicationOperation,
        SpecToken::Ope(Operator::Divide) => SpecValue::DivideOperation,
        SpecToken::Equal => SpecValue::Assign,
        _ => SpecValue::Null,
    }
}

/// Reads a token as a tree value.
pub fn token_to_parameter(token: Token) -> (r: Parameters)
    ensures
        r@ == spec_token_to_parameter(token@),
{
    match token {
        Token::Int(i) => Parameters::Int(i),
        Token::Rational(q) => Parameters::Rational(q),
        Token::Identifier(s) => Parameters::Identifier(s),
        Token::Ope(Operator::Plus) => Parameters::PlusOperation,
        Token::Ope(Operator::Minus) => Parameters::MinusOperation,
        Token::Ope(Operator::Multiplication) => Parameters::MultiplicationOperation,
        Token::Ope(Operator::Divide) => Parameters::DivideOperation,
        Token::Equal => Parameters::Assign,
        _ => Parameters::Null,
    }
}

} // verus!
