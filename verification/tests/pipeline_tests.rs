use mini_calc::ast::{Ast, Parameters};
use mini_calc::env::{Environment, FunctionTable};
use mini_calc::interpreter::{interpret, CalcError};
use mini_calc::lexer::lex;
use mini_calc::parser::{add_parenthesis, parse};
use mini_calc::token::{Operator, Rat, Token};

fn run(line: &str, ram: &mut Environment, funcs: &mut FunctionTable) -> Result<Parameters, CalcError> {
    interpret(&parse(&lex(line.to_string())), ram, funcs)
}

fn run_fresh(line: &str) -> Result<Parameters, CalcError> {
    let mut ram = Environment::new();
    let mut funcs = FunctionTable::new();
    run(line, &mut ram, &mut funcs)
}

#[test]
fn integer_literal_roundtrips() {
    assert_eq!(lex("12345".to_string()), vec![Token::Int(12345)]);
    assert_eq!(
        parse(&lex("12345".to_string())),
        Ast::new(Parameters::Int(12345))
    );
    assert_eq!(run_fresh("12345"), Ok(Parameters::Int(12345)));
    assert_eq!(lex("0".to_string()), vec![Token::Int(0)]);
    assert_eq!(run_fresh("0"), Ok(Parameters::Int(0)));
}

#[test]
fn two_plus_two_is_four() {
    assert_eq!(run_fresh("2+2"), Ok(Parameters::Int(4)));
}

#[test]
fn nested_parentheses_evaluate() {
    assert_eq!(run_fresh("1+(1*1)"), Ok(Parameters::Int(2)));
    assert_eq!(run_fresh("1+(1*(1/1))"), Ok(Parameters::Int(2)));
}

#[test]
fn nested_parentheses_keep_every_token() {
    // Every one of the value and operator tokens of the input reappears
    // exactly once in the tree, at its expected place.
    let expected = Ast::Node {
        value: Parameters::PlusOperation,
        left: Box::from(Ast::new(Parameters::Int(1))),
        right: Box::from(Ast::Node {
            value: Parameters::MultiplicationOperation,
            left: Box::from(Ast::new(Parameters::Int(1))),
            right: Box::from(Ast::Node {
                value: Parameters::DivideOperation,
                left: Box::from(Ast::new(Parameters::Int(1))),
                right: Box::from(Ast::new(Parameters::Int(1))),
            }),
        }),
    };
    assert_eq!(parse(&lex("1+(1*(1/1))".to_string())), expected);
}

#[test]
fn assignment_is_visible_on_later_lines() {
    let mut ram = Environment::new();
    let mut funcs = FunctionTable::new();
    assert_eq!(run("i=1", &mut ram, &mut funcs), Ok(Parameters::Int(1)));
    assert_eq!(run("i", &mut ram, &mut funcs), Ok(Parameters::Int(1)));
}

#[test]
fn assignment_can_be_overwritten() {
    let mut ram = Environment::new();
    let mut funcs = FunctionTable::new();
    assert_eq!(run("i=1", &mut ram, &mut funcs), Ok(Parameters::Int(1)));
    assert_eq!(run("i=2", &mut ram, &mut funcs), Ok(Parameters::Int(2)));
    assert_eq!(run("i", &mut ram, &mut funcs), Ok(Parameters::Int(2)));
}

#[test]
fn assignment_nests_inside_arithmetic() {
    let mut ram = Environment::new();
    let mut funcs = FunctionTable::new();
    assert_eq!(run("i=1+1", &mut ram, &mut funcs), Ok(Parameters::Int(2)));
    assert_eq!(run("i", &mut ram, &mut funcs), Ok(Parameters::Int(1)));
}

#[test]
fn division_by_zero_is_signalled() {
    assert_eq!(run_fresh("1/0"), Err(CalcError::DivisionByZero));
    assert_eq!(run_fresh("1/0.0"), Err(CalcError::DivisionByZero));
}

#[test]
fn relex_reparse_is_idempotent() {
    let line = "1+(2*pi)-4.5";
    let first_tokens = lex(line.to_string());
    let second_tokens = lex(line.to_string());
    assert_eq!(first_tokens, second_tokens);
    let first_tree = parse(&first_tokens);
    let second_tree = parse(&second_tokens);
    assert_eq!(first_tree, second_tree);
}

#[test]
fn unknown_variable_is_signalled() {
    assert_eq!(
        run_fresh("zzz"),
        Err(CalcError::UnboundVariable("zzz".to_string()))
    );
}

#[test]
fn lexer_reads_decimal_literals() {
    assert_eq!(
        lex("3.14".to_string()),
        vec![Token::Rational(Rat { num: 314, den: 100 })]
    );
    assert_eq!(
        lex("3.".to_string()),
        vec![Token::Rational(Rat { num: 3, den: 1 })]
    );
    assert_eq!(
        lex("1.2.3".to_string()),
        vec![Token::Rational(Rat { num: 12, den: 10 }), Token::Int(3)]
    );
}

#[test]
fn lexer_drops_unrecognized_characters() {
    assert_eq!(
        lex("1 @# + $2".to_string()),
        vec![Token::Int(1), Token::Ope(Operator::Plus), Token::Int(2)]
    );
    assert_eq!(lex("".to_string()), vec![]);
    assert_eq!(lex("??".to_string()), vec![]);
}

#[test]
fn lexer_reads_identifiers_and_punctuation() {
    assert_eq!(
        lex("x1=(a/b)*c-2".to_string()),
        vec![
            Token::Identifier("x1".to_string()),
            Token::Equal,
            Token::LeftParenthesis,
            Token::Identifier("a".to_string()),
            Token::Ope(Operator::Divide),
            Token::Identifier("b".to_string()),
            Token::RightParenthesis,
            Token::Ope(Operator::Multiplication),
            Token::Identifier("c".to_string()),
            Token::Ope(Operator::Minus),
            Token::Int(2),
        ]
    );
}

#[test]
fn oversized_literal_saturates() {
    assert_eq!(
        lex("99999999999999999999".to_string()),
        vec![Token::Int(i64::MAX)]
    );
}

#[test]
fn uneven_division_is_exact() {
    assert_eq!(
        run_fresh("2/4"),
        Ok(Parameters::Rational(Rat { num: 2, den: 4 }))
    );
    assert_eq!(run_fresh("6/3"), Ok(Parameters::Int(2)));
    assert_eq!(run_fresh("0-7/2"), Ok(Parameters::Rational(Rat { num: -7, den: 2 })));
}

#[test]
fn mixed_arithmetic_promotes_to_rational() {
    assert_eq!(
        run_fresh("1+2.5"),
        Ok(Parameters::Rational(Rat { num: 35, den: 10 }))
    );
    assert_eq!(
        run_fresh("0.5*0.5"),
        Ok(Parameters::Rational(Rat { num: 25, den: 100 }))
    );
}

#[test]
fn operator_without_operands_is_a_type_mismatch() {
    assert_eq!(run_fresh("+"), Err(CalcError::TypeMismatch));
}

#[test]
fn assignment_to_a_literal_is_rejected() {
    assert_eq!(run_fresh("1=2"), Err(CalcError::InvalidAssignmentTarget));
}

#[test]
fn integer_overflow_is_signalled() {
    assert_eq!(
        run_fresh("9223372036854775807+1"),
        Err(CalcError::Overflow)
    );
}

#[test]
fn empty_line_evaluates_to_null() {
    assert_eq!(run_fresh(""), Ok(Parameters::Null));
}

#[test]
fn add_parenthesis_returns_the_list_unchanged() {
    let tokens = lex("1+(2*3)".to_string());
    assert_eq!(add_parenthesis(&tokens), tokens);
}

#[test]
fn seeded_constants_are_bound() {
    let mut ram = Environment::with_constants(
        Parameters::Rational(Rat { num: 314, den: 100 }),
        Parameters::Rational(Rat { num: 271, den: 100 }),
    );
    let mut funcs = FunctionTable::new();
    assert_eq!(
        run("pi", &mut ram, &mut funcs),
        Ok(Parameters::Rational(Rat { num: 314, den: 100 }))
    );
    assert_eq!(
        run("e", &mut ram, &mut funcs),
        Ok(Parameters::Rational(Rat { num: 271, den: 100 }))
    );
    assert_eq!(
        run("2*pi", &mut ram, &mut funcs),
        Ok(Parameters::Rational(Rat { num: 628, den: 100 }))
    );
}

#[test]
fn unmatched_closing_parenthesis_ends_parsing() {
    assert_eq!(parse(&lex("2)9".to_string())), Ast::new(Parameters::Int(2)));
}
