//! The interpreter: a recursive walk of the expression tree against the
//! variable environment, total over every tree the parser can produce.
//!
//! Arithmetic is exact. Integer addition, subtraction and multiplication
//! stay integers; an uneven integer division yields the exact rational
//! `x / y` with a positive denominator, so nothing is silently truncated.
//! Rational results keep the numerator and denominator that the textbook
//! formulas produce, without reduction. A result whose numerator or
//! denominator falls outside the machine integer range is reported as an
//! overflow error rather than wrapped or rounded.

use vstd::prelude::*;

use crate::ast::{spec_root_value, tree_view, Ast, Parameters, SpecTree, SpecValue};
use crate::env::{Environment, FunctionTable};
use crate::token::{Operator, Rat};

verus! {

/// A recoverable evaluation error. Errors end one line's evaluation and are
/// shown by the session driver; they never end the session.
#[derive(Clone, Debug, PartialEq)]
pub enum CalcError {
    /// An identifier was read that the environment does not bind.
    UnboundVariable(String),
    /// A division whose divisor evaluates to zero.
    DivisionByZero,
    /// An operator was applied to a non-numeric operand.
    TypeMismatch,
    /// The left side of an assignment is not an identifier.
    InvalidAssignmentTarget,
    /// An exact result does not fit the machine integer range.
    Overflow,
}

/// Mathematical model of a `CalcError`.
pub enum SpecError {
    UnboundVariable(Seq<char>),
    DivisionByZero,
    TypeMismatch,
    InvalidAssignmentTarget,
    Overflow,
}

impl View for CalcError {
    type V = SpecError;

    open spec fn view(&self) -> SpecError {
        match self {
            CalcError::UnboundVariable(s) => SpecError::UnboundVariable(s@),
            CalcError::DivisionByZero => SpecError::DivisionByZero,
            CalcError::TypeMismatch => SpecError::TypeMismatch,
            CalcError::InvalidAssignmentTarget => SpecError::InvalidAssignmentTarget,
            CalcError::Overflow => SpecError::Overflow,
        }
    }
}

/// The model of an evaluation outcome.
pub open spec fn result_view(r: Result<Parameters, CalcError>) -> Result<SpecValue, SpecError> {
    match r {
        Ok(v) => Ok(v@),
        Err(e) => Err(e@),
    }
}

/// A rational carried by a value must have a positive denominator.
pub open spec fn rat_wf(q: Rat) -> bool {
    q.den >= 1
}

pub open spec fn fits_i64(x: int) -> bool {
    i64::MIN <= x <= i64::MAX
}

pub open spec fn s_abs(x: int) -> int {
    if x < 0 {
        -x
    } else {
        x
    }
}

/// The exact rational `n / d` if both parts fit the machine range, else an
/// overflow error.
pub open spec fn s_make_rat(n: int, d: int) -> Result<SpecValue, SpecError> {
    if fits_i64(n) && fits_i64(d) {
        Ok(SpecValue::Rational(Rat { num: n as i64, den: d as i64 }))
    } else {
        Err(SpecError::Overflow)
    }
}

/// Integer arithmetic. Addition, subtraction and multiplication stay
/// integers; division by zero is an error; an even division stays an
/// integer; an uneven one is the exact rational `x / y`, sign moved to the
/// numerator.
pub open spec fn s_int_binop(op: Operator, x: i64, y: i64) -> Result<SpecValue, SpecError> {
    match op {
        Operator::Plus => if fits_i64(x + y) {
            Ok(SpecValue::Int((x + y) as i64))
        } else {
            Err(SpecError::Overflow)
        },
        Operator::Minus => if fits_i64(x - y) {
            Ok(SpecValue::Int((x - y) as i64))
        } else {
            Err(SpecError::Overflow)
        },
        Operator::Multiplication => if fits_i64(x * y) {
            Ok(SpecValue::Int((x * y) as i64))
        } else {
            Err(SpecError::Overflow)
        },
        Operator::Divide => if y == 0 {
            Err(SpecError::DivisionByZero)
        } else if s_abs(x as int) % s_abs(y as int) == 0 {
            let q = s_abs(x as int) / s_abs(y as int);
            let signed = if (x < 0) == (y < 0) {
                q
            } else {
                -q
            };
            if fits_i64(signed) {
                Ok(SpecValue::Int(signed as i64))
            } else {
                Err(SpecError::Overflow)
            }
        } else if y > 0 {
            s_make_rat(x as int, y as int)
        } else {
            s_make_rat(-(x as int), -(y as int))
        },
    }
}

/// Rational arithmetic by the textbook formulas, the divisor's sign moved to
/// the numerator so the denominator stays positive.
pub open spec fn s_rat_binop(op: Operator, p: Rat, q: Rat) -> Result<SpecValue, SpecError> {
    match op {
        Operator::Plus => s_make_rat(p.num * q.den + q.num * p.den, p.den * q.den),
        Operator::Minus => s_make_rat(p.num * q.den - q.num * p.den, p.den * q.den),
        Operator::Multiplication => s_make_rat(p.num * q.num, p.den * q.den),
        Operator::Divide => if q.num == 0 {
            Err(SpecError::DivisionByZero)
        } else if q.num > 0 {
            s_make_rat(p.num * q.den, p.den * q.num)
        } else {
            s_make_rat(-(p.num * q.den), -(p.den * q.num))
        },
    }
}

/// Which operator a tree value denotes, if any.
pub open spec fn s_op_of(v: SpecValue) -> Option<Operator> {
    match v {
        SpecValue::PlusOperation => Some(Operator::Plus),
        SpecValue::MinusOperation => Some(Operator::Minus),
        SpecValue::MultiplicationOperation => Some(Operator::Multiplication),
        SpecValue::DivideOperation => Some(Operator::Divide),
        _ => None,
    }
}

/// Combination of two evaluated operands under a tree value. A value that is
/// not an operator, an operand that is not numeric, and a rational without a
/// positive denominator are type mismatches; the integer side of a mixed
/// pair is promoted to a rational.
pub open spec fn s_binop(op: SpecValue, a: SpecValue, b: SpecValue) -> Result<
    SpecValue,
    SpecError,
> {
    match s_op_of(op) {
        None => Err(SpecError::TypeMismatch),
        Some(o) => match (a, b) {
            (SpecValue::Int(x), SpecValue::Int(y)) => s_int_binop(o, x, y),
            (SpecValue::Int(x), SpecValue::Rational(q)) => if rat_wf(q) {
                s_rat_binop(o, Rat { num: x, den: 1 }, q)
            } else {
                Err(SpecError::TypeMismatch)
            },
            (SpecValue::Rational(p), SpecValue::Int(y)) => if rat_wf(p) {
                s_rat_binop(o, p, Rat { num: y, den: 1 })
            } else {
                Err(SpecError::TypeMismatch)
            },
            (SpecValue::Rational(p), SpecValue::Rational(q)) => if rat_wf(p) && rat_wf(q) {
                s_rat_binop(o, p, q)
            } else {
                Err(SpecError::TypeMismatch)
            },
            _ => Err(SpecError::TypeMismatch),
        },
    }
}

/// What evaluating a tree against an environment yields: the outcome and the
/// environment afterwards. The empty tree and a `Null` value yield `Null`;
/// literals yield themselves; an identifier yields its binding or an
/// unbound-variable error; an operator node evaluates its left child, then
/// its right child, then combines; an assignment node requires its left
/// child's value to be a literal identifier, evaluates its right child and
/// stores the outcome under that name, the stored value being its own
/// result. The first error ends the walk, keeping the mutations made so far.
pub open spec fn s_interp(t: SpecTree, env: Map<Seq<char>, SpecValue>) -> (Result<
    SpecValue,
    SpecError,
>, Map<Seq<char>, SpecValue>)
    decreases t,
{
    match t {
        SpecTree::Nil => (Ok(SpecValue::Null), env),
        SpecTree::Node { value, left, right } => match value {
            SpecValue::Int(i) => (Ok(SpecValue::Int(i)), env),
            SpecValue::Rational(q) => (Ok(SpecValue::Rational(q)), env),
            SpecValue::Null => (Ok(SpecValue::Null), env),
            SpecValue::Identifier(name) => if env.dom().contains(name) {
                (Ok(env[name]), env)
            } else {
                (Err(SpecError::UnboundVariable(name)), env)
            },
            SpecValue::Assign => match spec_root_value(*left) {
                SpecValue::Identifier(name) => {
                    let r = s_interp(*right, env);
                    match r.0 {
                        Ok(v) => (Ok(v), r.1.insert(name, v)),
                        Err(e) => (Err(e), r.1),
                    }
                },
                _ => (Err(SpecError::InvalidAssignmentTarget), env),
            },
            _ => {
                let l = s_interp(*left, env);
                match l.0 {
                    Err(e) => (Err(e), l.1),
                    Ok(lv) => {
                        let r = s_interp(*right, l.1);
                        match r.0 {
                            Err(e) => (Err(e), r.1),
                            Ok(rv) => (s_binop(value, lv, rv), r.1),
                        }
                    },
                }
            },
        },
    }
}

/// An equal copy of a value. Written out by hand so that the copy is known
/// to carry the same model as the original.
pub fn copy_parameters(p: &Parameters) -> (r: Parameters)
    ensures
        r@ == p@,
{
    match p {
        Parameters::Int(i) => Parameters::Int(*i),
        Parameters::Rational(q) => Parameters::Rational(*q),
        Parameters::Identifier(s) => Parameters::Identifier(s.clone()),
        Parameters::PlusOperation => Parameters::PlusOperation,
        Parameters::MinusOperation => Parameters::MinusOperation,
        Parameters::MultiplicationOperation => Parameters::MultiplicationOperation,
        Parameters::DivideOperation => Parameters::DivideOperation,
        Parameters::Assign => Parameters::Assign,
        Parameters::Null => Parameters::Null,
    }
}

/// `|a * b|` stays under `bound_a * bound_b`.
proof fn lemma_mul_bound(a: int, b: int, bound_a: int, bound_b: int)
    by (nonlinear_arith)
    requires
        -bound_a <= a <= bound_a,
        -bound_b <= b <= bound_b,
        0 <= bound_a,
        0 <= bound_b,
    ensures
        -(bound_a * bound_b) <= a * b <= bound_a * bound_b,
{
}

/// Widening product of two machine integers, exact in 128 bits.
fn mul_wide(a: i64, b: i64) -> (r: i128)
    ensures
        r as int == a as int * b as int,
{
    proof {
        lemma_mul_bound(a as int, b as int, 0x8000_0000_0000_0000, 0x8000_0000_0000_0000);
    }
    (a as i128) * (b as i128)
}

/// The exact rational `n / d` when both parts fit, else the overflow error.
fn make_rat(n: i128, d: i128) -> (r: Result<Parameters, CalcError>)
    ensures
        result_view(r) == s_make_rat(n as int, d as int),
{
    if n < i64::MIN as i128 || n > i64::MAX as i128 || d < i64::MIN as i128 || d > i64::MAX as i128
    {
        Err(CalcError::Overflow)
    } else {
        Ok(Parameters::Rational(Rat { num: n as i64, den: d as i64 }))
    }
}

/// The magnitude of a machine integer, exact even at the extreme value.
fn abs_u64(x: i64) -> (r: u64)
    ensures
        r as int == s_abs(x as int),
{
    if x < 0 {
        (-(x as i128)) as u64
    } else {
        x as u64
    }
}

fn int_binop(op: Operator, x: i64, y: i64) -> (r: Result<Parameters, CalcError>)
    ensures
        result_view(r) == s_int_binop(op, x, y),
{
    match op {
        Operator::Plus => {
            let s = x as i128 + y as i128;
            if s < i64::MIN as i128 || s > i64::MAX as i128 {
                Err(CalcError::Overflow)
            } else {
                Ok(Parameters::Int(s as i64))
            }
        },
        Operator::Minus => {
            let s = x as i128 - y as i128;
            if s < i64::MIN as i128 || s > i64::MAX as i128 {
                Err(CalcError::Overflow)
            } else {
                Ok(Parameters::Int(s as i64))
            }
        },
        Operator::Multiplication => {
            let s = mul_wide(x, y);
            if s < i64::MIN as i128 || s > i64::MAX as i128 {
                Err(CalcError::Overflow)
            } else {
                Ok(Parameters::Int(s as i64))
            }
        },
        Operator::Divide => {
            if y == 0 {
                return Err(CalcError::DivisionByZero);
            }
            let ax = abs_u64(x);
            let ay = abs_u64(y);
            if ax % ay == 0 {
                let q = ax / ay;
                let signed: i128 = if (x < 0) == (y < 0) {
                    q as i128
                } else {
                    -(q as i128)
                };
                if signed < i64::MIN as i128 || signed > i64::MAX as i128 {
                    Err(CalcError::Overflow)
                } else {
                    Ok(Parameters::Int(signed as i64))
                }
            } else if y > 0 {
                make_rat(x as i128, y as i128)
            } else {
                make_rat(-(x as i128), -(y as i128))
            }
        },
    }
}

fn rat_binop(op: Operator, p: Rat, q: Rat) -> (r: Result<Parameters, CalcError>)
    requires
        rat_wf(p),
        rat_wf(q),
    ensures
        result_view(r) == s_rat_binop(op, p, q),
{
    match op {
        Operator::Plus => {
            let n1 = mul_wide(p.num, q.den);
            let n2 = mul_wide(q.num, p.den);
            let d = mul_wide(p.den, q.den);
            proof {
                lemma_mul_bound(p.num as int, q.den as int, 0x8000_0000_0000_0000, 0x7FFF_FFFF_FFFF_FFFF);
                lemma_mul_bound(q.num as int, p.den as int, 0x8000_0000_0000_0000, 0x7FFF_FFFF_FFFF_FFFF);
            }
            make_rat(n1 + n2, d)
        },
        Operator::Minus => {
            let n1 = mul_wide(p.num, q.den);
            let n2 = mul_wide(q.num, p.den);
            let d = mul_wide(p.den, q.den);
            proof {
                lemma_mul_bound(p.num as int, q.den as int, 0x8000_0000_0000_0000, 0x7FFF_FFFF_FFFF_FFFF);
                lemma_mul_bound(q.num as int, p.den as int, 0x8000_0000_0000_0000, 0x7FFF_FFFF_FFFF_FFFF);
            }
            make_rat(n1 - n2, d)
        },
        Operator::Multiplication => {
            let n = mul_wide(p.num, q.num);
            let d = mul_wide(p.den, q.den);
            make_rat(n, d)
        },
        Operator::Divide => {
            if q.num == 0 {
                return Err(CalcError::DivisionByZero);
            }
            let n = mul_wide(p.num, q.den);
            let d = mul_wide(p.den, q.num);
            proof {
                lemma_mul_bound(p.num as int, q.den as int, 0x8000_0000_0000_0000, 0x7FFF_FFFF_FFFF_FFFF);
                lemma_mul_bound(p.den as int, q.num as int, 0x7FFF_FFFF_FFFF_FFFF, 0x8000_0000_0000_0000);
            }
            if q.num > 0 {
                make_rat(n, d)
            } else {
                make_rat(-n, -d)
            }
        },
    }
}

/// Combines two evaluated operands under the tree value `op`.
fn apply_binop(op: &Parameters, a: Parameters, b: Parameters) -> (r: Result<Parameters, CalcError>)
    ensures
        result_view(r) == s_binop(op@, a@, b@),
{
    let o = match op {
        Parameters::PlusOperation => Operator::Plus,
        Parameters::MinusOperation => Operator::Minus,
        Parameters::MultiplicationOperation => Operator::Multiplication,
        Parameters::DivideOperation => Operator::Divide,
        _ => {
            return Err(CalcError::TypeMismatch);
        },
    };
    match (a, b) {
        (Parameters::Int(x), Parameters::Int(y)) => int_binop(o, x, y),
        (Parameters::Int(x), Parameters::Rational(q)) => {
            if q.den >= 1 {
                rat_binop(o, Rat { num: x, den: 1 }, q)
            } else {
                Err(CalcError::TypeMismatch)
            }
        },
        (Parameters::Rational(p), Parameters::Int(y)) => {
            if p.den >= 1 {
                rat_binop(o, p, Rat { num: y, den: 1 })
            } else {
                Err(CalcError::TypeMismatch)
            }
        },
        (Parameters::Rational(p), Parameters::Rational(q)) => {
            if p.den >= 1 && q.den >= 1 {
                rat_binop(o, p, q)
            } else {
                Err(CalcError::TypeMismatch)
            }
        },
        _ => Err(CalcError::TypeMismatch),
    }
}

/// Evaluates a tree against the environment and the function table.
///
/// The outcome and the environment afterwards are exactly `s_interp` of the
/// tree's model against the environment's model; the function table is left
/// unchanged. Recoverable conditions (an unbound variable, a division by
/// zero, an operand of the wrong kind, a malformed assignment target, an
/// overflow) come back as errors, never as a panic, so the session always
/// goes on to the next line.
pub fn interpret(ast: &Ast, ram: &mut Environment, functions: &mut FunctionTable) -> (r: Result<
    Parameters,
    CalcError,
>)
    requires
        old(ram).wf(),
    ensures
        final(ram).wf(),
        *final(functions) == *old(functions),
        result_view(r) == s_interp(ast@, old(ram)@).0,
        final(ram)@ == s_interp(ast@, old(ram)@).1,
    decreases *ast,
{
    let ghost env0 = ram@;
    match ast {
        Ast::Nil => Ok(Parameters::Null),
        Ast::Node { value, left, right } => match value {
            Parameters::Int(i) => Ok(Parameters::Int(*i)),
            Parameters::Rational(q) => Ok(Parameters::Rational(*q)),
            Parameters::Null => Ok(Parameters::Null),
            Parameters::Identifier(name) => match ram.get(name) {
                Some(v) => Ok(copy_parameters(v)),
                None => Err(CalcError::UnboundVariable(name.clone())),
            },
            Parameters::Assign => match &**left {
                Ast::Node { value: Parameters::Identifier(name), .. } => {
                    match interpret(&**right, ram, functions) {
                        Ok(v) => {
                            let stored = copy_parameters(&v);
                            ram.insert(name.clone(), stored);
                            Ok(v)
                        },
                        Err(e) => Err(e),
                    }
                },
                _ => Err(CalcError::InvalidAssignmentTarget),
            },
            _ => {
                match interpret(&**left, ram, functions) {
                    Err(e) => Err(e),
                    Ok(lv) => {
                        let ghost l1 = s_interp(tree_view(**left), env0);
                        match interpret(&**right, ram, functions) {
                            Err(e) => Err(e),
                            Ok(rv) => apply_binop(value, lv, rv),
                        }
                    },
                }
            },
        },
    }
}

} // verus!
