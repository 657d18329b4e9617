//! Lexical vocabulary: the token type handed from the lexer to the parser,
//! together with its mathematical model.

use vstd::prelude::*;

verus! {

/// An exact rational number with a positive denominator.
///
/// Non-integer numbers (decimal literals, uneven quotients) are kept exact as
/// `num / den`; the display layer renders them as decimals. Nothing here
/// keeps the fraction reduced: arithmetic states the exact numerator and
/// denominator it produces.
#[derive(Clone, Copy, Debug, PartialEq, Eq, Structural)]
pub struct Rat {
    pub num: i64,
    pub den: i64,
}

/// The four arithmetic operators.
#[derive(Clone, Copy, Debug, PartialEq, Eq, Structural)]
pub enum Operator {
    Plus,
    Minus,
    Multiplication,
    Divide,
}

/// One lexical unit of an input line, in source order.
///
/// Tokens carry no position information. `Null` is the sentinel for a token
/// that carries nothing; the parser skips it.
#[derive(Clone, Debug, PartialEq)]
pub enum Token {
    Int(i64),
    Rational(Rat),
    Identifier(String),
    Ope(Operator),
    Equal,
    LeftParenthesis,
    RightParenthesis,
    Null,
}

/// Mathematical model of a `Token`: an identifier is its character sequence.
pub enum SpecToken {
    Int(i64),
    Rational(Rat),
    Identifier(Seq<char>),
    Ope(Operator),
    Equal,
    LeftParenthesis,
    RightParenthesis,
    Null,
}

impl View for Token {
    type V = SpecToken;

    open spec fn view(&self) -> SpecToken {
        match self {
            Token::Int(i) => SpecToken::Int(*i),
            Token::Rational(q) => SpecToken::Rational(*q),
            Token::Identifier(s) => SpecToken::Identifier(s@),
            Token::Ope(o) => SpecToken::Ope(*o),
            Token::Equal => SpecToken::Equal,
            Token::LeftParenthesis => SpecToken::LeftParenthesis,
            Token::RightParenthesis => SpecToken::RightParenthesis,
            Token::Null => SpecToken::Null,
        }
    }
}

/// The model of a whole token list.
pub open spec fn tokens_view(ts: Seq<Token>) -> Seq<SpecToken> {
    ts.map_values(|t: Token| t@)
}

/// An equal copy of a token. Written out by hand so that the copy is known
/// to carry the same model as the original.
pub fn copy_token(t: &Token) -> (r: Token)
    ensures
        r@ == t@,
{
    match t {
        Token::Int(i) => Token::Int(*i),
        Token::Rational(q) => Token::Rational(*q),
        Token::Identifier(s) => Token::Identifier(s.clone()),
        Token::Ope(o) => Token::Ope(*o),
        Token::Equal => Token::Equal,
        Token::LeftParenthesis => Token::LeftParenthesis,
        Token::RightParenthesis => Token::RightParenthesis,
        Token::Null => Token::Null,
    }
}

} // verus!
