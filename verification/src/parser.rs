//! The parser: one left-to-right pass over the token list that grows a
//! binary expression tree with a fixed insertion policy.
//!
//! There is no operator precedence: every operator becomes the new root and
//! swallows everything parsed so far as its left operand, so operators apply
//! strictly in arrival order. A parenthesized group is parsed as an
//! independent subtree and merged back as if it were a single value. The
//! parser never fails; malformed input yields an empty or partial tree whose
//! defects surface only at evaluation time.

use vstd::prelude::*;

use crate::ast::{
    spec_leaf, spec_left, spec_root_value, spec_token_to_parameter, token_to_parameter, tree_view,
    Ast, Parameters, SpecTree, SpecValue,
};
use crate::token::{copy_token, tokens_view, SpecToken, Token};

verus! {

/// Insertion of a value `p` into the accumulator: fill the left slot, else
/// the right slot; if both are full, the new value becomes the root and the
/// whole old tree its left subtree. On an empty accumulator the value
/// becomes a one-node tree (a `Null` value is dropped).
pub open spec fn s_push_value(t: SpecTree, p: SpecValue) -> SpecTree {
    match t {
        SpecTree::Nil => if p is Null {
            SpecTree::Nil
        } else {
            spec_leaf(p)
        },
        SpecTree::Node { value, left, right } => {
            if *left is Nil {
                SpecTree::Node { value, left: Box::new(spec_leaf(p)), right }
            } else if *right is Nil {
                SpecTree::Node { value, left, right: Box::new(spec_leaf(p)) }
            } else {
                SpecTree::Node { value: p, left: Box::new(t), right: Box::new(SpecTree::Nil) }
            }
        },
    }
}

/// Insertion of an operator `p`: the operator becomes the new root and the
/// whole old tree its left operand, the right operand still empty. On an
/// empty accumulator the operator becomes a lone one-node tree.
pub open spec fn s_push_operator(t: SpecTree, p: SpecValue) -> SpecTree {
    match t {
        SpecTree::Nil => if p is Null {
            SpecTree::Nil
        } else {
            spec_leaf(p)
        },
        SpecTree::Node { .. } => SpecTree::Node {
            value: p,
            left: Box::new(t),
            right: Box::new(SpecTree::Nil),
        },
    }
}

/// Merge of a parenthesized subtree `sub` into the accumulator: the root
/// keeps its value, its left child is rebuilt from the left spine (the old
/// left child's value and left subtree, over the old right subtree), and
/// `sub` becomes the right child. On an empty accumulator `sub` is the
/// result.
pub open spec fn s_push_ast(t: SpecTree, sub: SpecTree) -> SpecTree {
    match t {
        SpecTree::Nil => sub,
        SpecTree::Node { value, left, right } => SpecTree::Node {
            value,
            left: Box::new(
                SpecTree::Node {
                    value: spec_root_value(*left),
                    left: Box::new(spec_left(*left)),
                    right,
                },
            ),
            right: Box::new(sub),
        },
    }
}

/// Folding of the suspended accumulators when the tokens end with open
/// parentheses still unclosed: each suspended tree absorbs the inner one.
pub open spec fn s_close_all(stack: Seq<SpecTree>, acc: SpecTree) -> SpecTree
    decreases stack.len(),
{
    if stack.len() == 0 {
        acc
    } else {
        s_close_all(stack.drop_last(), s_push_ast(stack.last(), acc))
    }
}

/// The whole parse, one token at a time. `stack` holds the accumulators of
/// the enclosing parenthesized groups, innermost last. A closing parenthesis
/// with no open group ends parsing and drops the remaining tokens.
pub open spec fn s_parse_loop(ts: Seq<SpecToken>, stack: Seq<SpecTree>, acc: SpecTree) -> SpecTree
    decreases ts.len(),
{
    if ts.len() == 0 {
        s_close_all(stack, acc)
    } else {
        let rest = ts.skip(1);
        match ts[0] {
            SpecToken::Int(i) => s_parse_loop(
                rest,
                stack,
                s_push_value(acc, spec_token_to_parameter(ts[0])),
            ),
            SpecToken::Rational(q) => s_parse_loop(
                rest,
                stack,
                s_push_value(acc, spec_token_to_parameter(ts[0])),
            ),
            SpecToken::Identifier(s) => s_parse_loop(
                rest,
                stack,
                s_push_value(acc, spec_token_to_parameter(ts[0])),
            ),
            SpecToken::Ope(o) => s_parse_loop(
                rest,
                stack,
                s_push_operator(acc, spec_token_to_parameter(ts[0])),
            ),
            SpecToken::Equal => s_parse_loop(rest, stack, s_push_operator(acc, SpecValue::Assign)),
            SpecToken::LeftParenthesis => s_parse_loop(rest, stack.push(acc), SpecTree::Nil),
            SpecToken::RightParenthesis => {
                if stack.len() == 0 {
                    acc
                } else {
                    s_parse_loop(rest, stack.drop_last(), s_push_ast(stack.last(), acc))
                }
            },
            SpecToken::Null => s_parse_loop(rest, stack, acc),
        }
    }
}

/// What `parse` returns on a token list.
pub open spec fn s_parse(ts: Seq<SpecToken>) -> SpecTree {
    s_parse_loop(ts, Seq::empty(), SpecTree::Nil)
}

/// The models of a stack of accumulators.
pub open spec fn stack_views(s: Seq<Ast>) -> Seq<SpecTree> {
    s.map_values(|a: Ast| tree_view(a))
}

fn push_value(ast: Ast, token: Token) -> (r: Ast)
    ensures
        r@ == s_push_value(ast@, spec_token_to_parameter(token@)),
{
    proof {
        reveal_with_fuel(tree_view, 4);
    }
    let parameter = token_to_parameter(token);
    match ast {
        Ast::Nil => match parameter {
            Parameters::Null => Ast::Nil,
            _ => Ast::new(parameter),
        },
        Ast::Node { value, left, right } => match *left {
            Ast::Nil => Ast::Node { value, left: Box::new(Ast::new(parameter)), right },
            Ast::Node { value: lv, left: ll, right: lr } => {
                let l = Ast::Node { value: lv, left: ll, right: lr };
                match *right {
                    Ast::Nil => Ast::Node {
                        value,
                        left: Box::new(l),
                        right: Box::new(Ast::new(parameter)),
                    },
                    Ast::Node { value: rv, left: rl, right: rr } => {
                        let r = Ast::Node { value: rv, left: rl, right: rr };
                        Ast::Node {
                            value: parameter,
                            left: Box::new(
                                Ast::Node { value, left: Box::new(l), right: Box::new(r) },
                            ),
                            right: Box::new(Ast::Nil),
                        }
                    },
                }
            },
        },
    }
}

fn push_operator(ast: Ast, token: Token) -> (r: Ast)
    ensures
        r@ == s_push_operator(ast@, spec_token_to_parameter(token@)),
{
    proof {
        reveal_with_fuel(tree_view, 4);
    }
    let parameter = token_to_parameter(token);
    match ast {
        Ast::Nil => match parameter {
            Parameters::Null => Ast::Nil,
            _ => Ast::new(parameter),
        },
        Ast::Node { value, left, right } => Ast::Node {
            value: parameter,
            left: Box::new(Ast::Node { value, left, right }),
            right: Box::new(Ast::Nil),
        },
    }
}

fn push_ast(ast: Ast, ast2: Ast) -> (r: Ast)
    ensures
        r@ == s_push_ast(ast@, ast2@),
{
    proof {
        reveal_with_fuel(tree_view, 4);
    }
    match ast {
        Ast::Nil => ast2,
        Ast::Node { value, left, right } => match *left {
            Ast::Nil => Ast::Node {
                value,
                left: Box::new(
                    Ast::Node { value: Parameters::Null, left: Box::new(Ast::Nil), right },
                ),
                right: Box::new(ast2),
            },
            Ast::Node { value: lv, left: ll, right: _lr } => Ast::Node {
                value,
                left: Box::new(Ast::Node { value: lv, left: ll, right }),
                right: Box::new(ast2),
            },
        },
    }
}

/// Builds the expression tree of a token list.
///
/// The result is exactly one pass of the insertion policy over the tokens:
/// values fill the first empty slot (or wrap the full tree), operators wrap
/// the whole tree as their left operand, parenthesized groups parse as
/// independent subtrees and merge back as single values, and an unmatched
/// closing parenthesis ends parsing. Parsing never fails.
pub fn parse(lst: &Vec<Token>) -> (r: Ast)
    ensures
        r@ == s_parse(tokens_view(lst@)),
{
    let tokens = add_parenthesis(lst);
    let ghost full = tokens_view(lst@);
    let mut i: usize = 0;
    let mut stack: Vec<Ast> = Vec::new();
    let mut acc = Ast::Nil;
    proof {
        assert(full.skip(0) =~= full);
        assert(stack_views(stack@) =~= Seq::<SpecTree>::empty());
    }
    while i < tokens.len()
        invariant
            full == tokens_view(lst@),
            tokens_view(tokens@) == full,
            i <= tokens.len(),
            s_parse_loop(full.skip(i as int), stack_views(stack@), acc@) == s_parse(full),
        decreases tokens.len() - i,
    {
        let ghost prev_stack = stack@;
        let ghost prev_acc = acc@;
        proof {
            assert(full.skip(i as int)[0] == full[i as int]);
            assert(full.skip(i as int).skip(1) =~= full.skip(i as int + 1));
            assert(full[i as int] == tokens@[i as int]@);
        }
        let t = &tokens[i];
        match t {
            Token::LeftParenthesis => {
                stack.push(acc);
                acc = Ast::Nil;
                proof {
                    assert(stack_views(stack@) =~= stack_views(prev_stack).push(prev_acc));
                }
            },
            Token::RightParenthesis => {
                if stack.len() == 0 {
                    return acc;
                } else {
                    let top = stack.pop().unwrap();
                    proof {
                        assert(stack_views(prev_stack).last() == top@);
                        assert(stack_views(stack@) =~= stack_views(prev_stack).drop_last());
                    }
                    acc = push_ast(top, acc);
                }
            },
            Token::Ope(_) => {
                acc = push_operator(acc, copy_token(t));
            },
            Token::Equal => {
                acc = push_operator(acc, copy_token(t));
            },
            Token::Null => {},
            _ => {
                acc = push_value(acc, copy_token(t));
            },
        }
        i = i + 1;
    }
    proof {
        assert(full.skip(i as int) =~= Seq::<SpecToken>::empty());
    }
    while stack.len() > 0
        invariant
            s_close_all(stack_views(stack@), acc@) == s_parse(full),
        decreases stack.len(),
    {
        let ghost prev_stack = stack@;
        let top = stack.pop().unwrap();
        proof {
            assert(stack_views(prev_stack).last() == top@);
            assert(stack_views(stack@) =~= stack_views(prev_stack).drop_last());
        }
        acc = push_ast(top, acc);
    }
    proof {
        assert(stack_views(stack@) =~= Seq::<SpecTree>::empty());
    }
    acc
}

/// The normalization pass run on the token list before parsing; it returns
/// an equal copy of the list.
pub fn add_parenthesis(lst: &Vec<Token>) -> (r: Vec<Token>)
    ensures
        tokens_view(r@) == tokens_view(lst@),
{
    let mut acc: Vec<Token> = Vec::new();
    let mut i: usize = 0;
    while i < lst.len()
        invariant
            i <= lst.len(),
            acc@.len() == i,
            forall|k: int| 0 <= k < i ==> acc@[k]@ == lst@[k]@,
        decreases lst.len() - i,
    {
        acc.push(copy_token(&lst[i]));
        i = i + 1;
    }
    proof {
        assert(tokens_view(acc@) =~= tokens_view(lst@));
    }
    acc
}

} // verus!
