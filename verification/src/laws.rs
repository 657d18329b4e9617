//! Laws of the pipeline, stated and proved over the models that the
//! executable functions are specified against.

use vstd::prelude::*;

use crate::ast::{spec_leaf, spec_root_value, SpecTree, SpecValue};
use crate::interpreter::{s_binop, s_interp, SpecError};
use crate::lexer::{
    digit_val, digits_acc, digits_len, is_digit, lemma_digits_len_eq, s_lex,
};
use crate::parser::{s_close_all, s_parse, s_parse_loop, s_push_value};
use crate::token::SpecToken;

verus! {

/// The decimal digit characters of a non-negative number, most significant
/// first.
pub open spec fn dec_digits(n: int) -> Seq<char>
    decreases n,
{
    if n < 10 {
        seq![digit_char(n)]
    } else {
        dec_digits(n / 10).push(digit_char(n % 10))
    }
}

/// The character of one decimal digit.
pub open spec fn digit_char(d: int) -> char {
    if d == 0 {
        '0'
    } else if d == 1 {
        '1'
    } else if d == 2 {
        '2'
    } else if d == 3 {
        '3'
    } else if d == 4 {
        '4'
    } else if d == 5 {
        '5'
    } else if d == 6 {
        '6'
    } else if d == 7 {
        '7'
    } else if d == 8 {
        '8'
    } else {
        '9'
    }
}

proof fn lemma_digit_char(d: int)
    requires
        0 <= d <= 9,
    ensures
        is_digit(digit_char(d)),
        digit_val(digit_char(d)) == d,
{
}

proof fn lemma_digits_acc_push(s: Seq<char>, c: char, a: int)
    requires
        forall|m: int| 0 <= m < s.len() ==> is_digit(#[trigger] s[m]),
        is_digit(c),
    ensures
        digits_acc(s.push(c), a) == 10 * digits_acc(s, a) + digit_val(c),
    decreases s.len(),
{
    reveal_with_fuel(digits_acc, 3);
    if s.len() == 0 {
        assert(s.push(c)[0] == c);
        assert(s.push(c).skip(1) =~= Seq::<char>::empty());
    } else {
        assert(s.push(c)[0] == s[0]);
        assert(s.push(c).skip(1) =~= s.skip(1).push(c));
        assert forall|m: int| 0 <= m < s.skip(1).len() implies is_digit(
            #[trigger] s.skip(1)[m],
        ) by {
            assert(s.skip(1)[m] == s[m + 1]);
        }
        lemma_digits_acc_push(s.skip(1), c, a * 10 + digit_val(s[0]));
    }
}

proof fn lemma_dec_digits(n: int)
    requires
        0 <= n,
    ensures
        dec_digits(n).len() >= 1,
        forall|m: int| 0 <= m < dec_digits(n).len() ==> is_digit(#[trigger] dec_digits(n)[m]),
        digits_acc(dec_digits(n), 0) == n,
    decreases n,
{
    reveal_with_fuel(digits_acc, 3);
    if n < 10 {
        lemma_digit_char(n);
        assert(dec_digits(n) =~= seq![digit_char(n)]);
        assert(dec_digits(n).skip(1) =~= Seq::<char>::empty());
    } else {
        lemma_dec_digits(n / 10);
        lemma_digit_char(n % 10);
        let s = dec_digits(n / 10);
        lemma_digits_acc_push(s, digit_char(n % 10), 0);
        assert(n == 10 * (n / 10) + n % 10);
        assert forall|m: int| 0 <= m < dec_digits(n).len() implies is_digit(
            #[trigger] dec_digits(n)[m],
        ) by {
            if m < s.len() {
                assert(dec_digits(n)[m] == s[m]);
            } else {
                assert(dec_digits(n)[m] == digit_char(n % 10));
            }
        }
    }
}

/// An integer literal round-trips through the whole pipeline: lexing its
/// decimal text yields exactly one integer token holding its value, parsing
/// that one token yields the one-node tree holding it, and evaluating that
/// tree yields the value itself, leaving any environment unchanged.
pub proof fn lemma_integer_literal_roundtrip(n: i64, env: Map<Seq<char>, SpecValue>)
    requires
        0 <= n,
    ensures
        s_lex(dec_digits(n as int)) == seq![SpecToken::Int(n)],
        s_parse(seq![SpecToken::Int(n)]) == spec_leaf(SpecValue::Int(n)),
        s_interp(spec_leaf(SpecValue::Int(n)), env) == (
            Ok::<SpecValue, SpecError>(SpecValue::Int(n)),
            env,
        ),
{
    reveal_with_fuel(s_lex, 3);
    reveal_with_fuel(s_parse_loop, 3);
    reveal_with_fuel(s_close_all, 2);
    let s = dec_digits(n as int);
    lemma_dec_digits(n as int);
    lemma_digits_len_eq(s, s.len() as int);
    assert(s.skip(s.len() as int) =~= Seq::<char>::empty());
    assert(s_lex(s) =~= seq![SpecToken::Int(n)]);
    let ts = seq![SpecToken::Int(n)];
    assert(ts.skip(1) =~= Seq::<SpecToken>::empty());
    assert(s_push_value(SpecTree::Nil, SpecValue::Int(n)) == spec_leaf(SpecValue::Int(n)));
    assert(s_parse_loop(ts, Seq::empty(), SpecTree::Nil) == s_close_all(
        Seq::empty(),
        spec_leaf(SpecValue::Int(n)),
    ));
    assert(s_parse(ts) == spec_leaf(SpecValue::Int(n)));
}

/// Lexing and parsing are functions of the line alone: two independent runs
/// on the same characters yield structurally equal token lists and trees, so
/// re-lexing and re-parsing a line cannot be influenced by hidden state.
pub proof fn lemma_relex_reparse_equal(
    s: Seq<char>,
    t1: Seq<SpecToken>,
    t2: Seq<SpecToken>,
)
    requires
        t1 == s_lex(s),
        t2 == s_lex(s),
    ensures
        t1 == t2,
        s_parse(t1) == s_parse(t2),
{
}

/// A successful assignment whose target holds the identifier `name` leaves
/// the environment binding `name` to the assignment's own result, and
/// evaluating `name` as its own expression against that environment yields
/// the same value again: assignments stay visible across lines that share
/// the environment.
pub proof fn lemma_assignment_visible(
    target: SpecTree,
    rhs: SpecTree,
    name: Seq<char>,
    env: Map<Seq<char>, SpecValue>,
)
    requires
        spec_root_value(target) == SpecValue::Identifier(name),
        s_interp(
            SpecTree::Node {
                value: SpecValue::Assign,
                left: Box::new(target),
                right: Box::new(rhs),
            },
            env,
        ).0 is Ok,
    ensures
        ({
            let out = s_interp(
                SpecTree::Node {
                    value: SpecValue::Assign,
                    left: Box::new(target),
                    right: Box::new(rhs),
                },
                env,
            );
            &&& out.1.dom().contains(name)
            &&& out.0 == Ok::<SpecValue, SpecError>(out.1[name])
            &&& s_interp(spec_leaf(SpecValue::Identifier(name)), out.1) == (
                Ok::<SpecValue, SpecError>(out.1[name]),
                out.1,
            )
        }),
{
}

/// Dividing any integer by the integer zero is the division-by-zero error,
/// never a value.
pub proof fn lemma_division_by_zero(x: i64)
    ensures
        s_binop(SpecValue::DivideOperation, SpecValue::Int(x), SpecValue::Int(0)) == Err::<
            SpecValue,
            SpecError,
        >(SpecError::DivisionByZero),
{
}

/// Evaluating an identifier the environment does not bind is the
/// unbound-variable error naming it, and leaves the environment unchanged.
pub proof fn lemma_unbound_variable(name: Seq<char>, env: Map<Seq<char>, SpecValue>)
    requires
        !env.dom().contains(name),
    ensures
        s_interp(spec_leaf(SpecValue::Identifier(name)), env) == (
            Err::<SpecValue, SpecError>(SpecError::UnboundVariable(name)),
            env,
        ),
{
}

} // verus!
