//! The lexer: one left-to-right scan of an input line into tokens.
//!
//! Whitespace separates tokens; a run of digits, with at most one decimal
//! point, is a numeric literal; a run of letters and digits starting with a
//! letter is an identifier; the seven punctuation characters each make their
//! own token; and any other character is silently dropped, so lexing never
//! fails. A numeric run stops at a second decimal point. A literal too
//! large for the machine integer range saturates at its largest value.

use vstd::prelude::*;

use crate::token::{tokens_view, Operator, Rat, SpecToken, Token};
use vstd::string::StrSliceExecFns;

verus! {

pub open spec fn is_digit(c: char) -> bool {
    48 <= c as u32 <= 57
}

pub open spec fn digit_val(c: char) -> int {
    c as u32 - 48
}

pub open spec fn is_letter(c: char) -> bool {
    (65 <= c as u32 <= 90) || (97 <= c as u32 <= 122)
}

pub open spec fn is_ident_char(c: char) -> bool {
    is_letter(c) || is_digit(c)
}

/// How many leading digits `s` has.
pub open spec fn digits_len(s: Seq<char>) -> nat
    decreases s.len(),
{
    if s.len() > 0 && is_digit(s[0]) {
        1 + digits_len(s.skip(1))
    } else {
        0
    }
}

/// How many leading identifier characters `s` has.
pub open spec fn ident_len(s: Seq<char>) -> nat
    decreases s.len(),
{
    if s.len() > 0 && is_ident_char(s[0]) {
        1 + ident_len(s.skip(1))
    } else {
        0
    }
}

/// The value of the leading digits of `s`, appended to the accumulator
/// `acc` in base ten.
pub open spec fn digits_acc(s: Seq<char>, acc: int) -> int
    decreases s.len(),
{
    if s.len() > 0 && is_digit(s[0]) {
        digits_acc(s.skip(1), acc * 10 + digit_val(s[0]))
    } else {
        acc
    }
}

/// A non-negative value clamped to the machine integer range.
pub open spec fn clamp_i64(x: int) -> i64 {
    if x > i64::MAX {
        i64::MAX
    } else {
        x as i64
    }
}

pub open spec fn pow10(k: nat) -> int
    decreases k,
{
    if k == 0 {
        1
    } else {
        10 * pow10((k - 1) as nat)
    }
}

/// What `lex` yields on a character sequence, defined one token at a time.
/// A digit run makes an integer literal, or, continued by a decimal point
/// and a further digit run of length `k`, the exact decimal `num / 10^k`;
/// a letter starts an identifier run; seven characters stand for
/// themselves; everything else is dropped.
///
/// A run never reaches past the end of the sequence, but the definition
/// caps each step at the length so that the recursion's progress is
/// self-evident.
pub open spec fn s_lex(s: Seq<char>) -> Seq<SpecToken>
    decreases s.len(),
{
    if s.len() == 0 {
        Seq::empty()
    } else {
        let c = s[0];
        if is_digit(c) {
            let k1 = digits_len(s);
            let v1 = digits_acc(s, 0);
            if k1 < s.len() && s[k1 as int] == '.' {
                let frac = s.skip(k1 as int + 1);
                let k2 = digits_len(frac);
                let num = digits_acc(frac, v1);
                let tok = SpecToken::Rational(
                    Rat { num: clamp_i64(num), den: clamp_i64(pow10(k2)) },
                );
                let used = if k1 as int + 1 + k2 as int <= s.len() {
                    k1 as int + 1 + k2 as int
                } else {
                    s.len() as int
                };
                seq![tok] + s_lex(s.skip(used))
            } else {
                let used = if k1 as int <= s.len() {
                    k1 as int
                } else {
                    s.len() as int
                };
                seq![SpecToken::Int(clamp_i64(v1))] + s_lex(s.skip(used))
            }
        } else if is_letter(c) {
            let k = ident_len(s);
            let used = if k as int <= s.len() {
                k as int
            } else {
                s.len() as int
            };
            seq![SpecToken::Identifier(s.take(used))] + s_lex(s.skip(used))
        } else if c == '+' {
            seq![SpecToken::Ope(Operator::Plus)] + s_lex(s.skip(1))
        } else if c == '-' {
            seq![SpecToken::Ope(Operator::Minus)] + s_lex(s.skip(1))
        } else if c == '*' {
            seq![SpecToken::Ope(Operator::Multiplication)] + s_lex(s.skip(1))
        } else if c == '/' {
            seq![SpecToken::Ope(Operator::Divide)] + s_lex(s.skip(1))
        } else if c == '=' {
            seq![SpecToken::Equal] + s_lex(s.skip(1))
        } else if c == '(' {
            seq![SpecToken::LeftParenthesis] + s_lex(s.skip(1))
        } else if c == ')' {
            seq![SpecToken::RightParenthesis] + s_lex(s.skip(1))
        } else {
            s_lex(s.skip(1))
        }
    }
}

/// A leading run of `k` digit characters, with the run ending at `k`, is
/// exactly what `digits_len` counts.
pub proof fn lemma_digits_len_eq(s: Seq<char>, k: int)
    requires
        0 <= k <= s.len(),
        forall|m: int| 0 <= m < k ==> is_digit(#[trigger] s[m]),
        k < s.len() ==> !is_digit(s[k]),
    ensures
        digits_len(s) == k,
    decreases s.len(),
{
    if k == 0 {
    } else {
        assert(is_digit(s[0]));
        assert forall|m: int| 0 <= m < k - 1 implies is_digit(#[trigger] s.skip(1)[m]) by {
            assert(s.skip(1)[m] == s[m + 1]);
        }
        if k - 1 < s.skip(1).len() {
            assert(s.skip(1)[k - 1] == s[k]);
        }
        lemma_digits_len_eq(s.skip(1), k - 1);
    }
}

/// The same, for identifier characters.
proof fn lemma_ident_len_eq(s: Seq<char>, k: int)
    requires
        0 <= k <= s.len(),
        forall|m: int| 0 <= m < k ==> is_ident_char(#[trigger] s[m]),
        k < s.len() ==> !is_ident_char(s[k]),
    ensures
        ident_len(s) == k,
    decreases s.len(),
{
    if k == 0 {
    } else {
        assert(is_ident_char(s[0]));
        assert forall|m: int| 0 <= m < k - 1 implies is_ident_char(#[trigger] s.skip(1)[m]) by {
            assert(s.skip(1)[m] == s[m + 1]);
        }
        if k - 1 < s.skip(1).len() {
            assert(s.skip(1)[k - 1] == s[k]);
        }
        lemma_ident_len_eq(s.skip(1), k - 1);
    }
}

fn digit_check(c: char) -> (b: bool)
    ensures
        b == is_digit(c),
{
    let u = c as u32;
    48 <= u && u <= 57
}

fn ident_char_check(c: char) -> (b: bool)
    ensures
        b == is_ident_char(c),
{
    let u = c as u32;
    (65 <= u && u <= 90) || (97 <= u && u <= 122) || (48 <= u && u <= 57)
}

/// Converts a line of text into its tokens, left to right. Lexing is total:
/// it never fails, and a line with nothing recognizable in it simply yields
/// no tokens.
pub fn lex(input: String) -> (r: Vec<Token>)
    ensures
        tokens_view(r@) == s_lex(input@),
{
    let s = input.as_str();
    let ghost full = s@;
    let n = s.unicode_len();
    let mut toks: Vec<Token> = Vec::new();
    let mut i: usize = 0;
    proof {
        assert(full.skip(0) =~= full);
        assert(tokens_view(toks@) + s_lex(full.skip(0)) =~= s_lex(full));
    }
    while i < n
        invariant
            s@ == full,
            input@ == full,
            n == full.len(),
            i <= n,
            tokens_view(toks@) + s_lex(full.skip(i as int)) == s_lex(full),
        decreases n - i,
    {
        let ghost start_suffix = full.skip(i as int);
        let ghost toks0 = toks@;
        let c = s.get_char(i);
        proof {
            assert(start_suffix[0] == full[i as int]);
        }
        if digit_check(c) {
            let start = i;
            let mut acc: i64 = 0;
            let ghost mut acc_t: int = 0;
            while i < n && digit_check(s.get_char(i))
                invariant
                    s@ == full,
                    n == full.len(),
                    start <= i <= n,
                    forall|m: int| start <= m < i ==> is_digit(#[trigger] full[m]),
                    0 <= acc_t,
                    acc_t <= i64::MAX ==> acc as int == acc_t,
                    acc_t > i64::MAX ==> acc as int == i64::MAX,
                    digits_acc(full.skip(start as int), 0) == digits_acc(
                        full.skip(i as int),
                        acc_t,
                    ),
                decreases n - i,
            {
                let d = (s.get_char(i) as u32) - 48;
                let wide: i128 = acc as i128 * 10 + d as i128;
                proof {
                    assert(full.skip(i as int).skip(1) =~= full.skip(i as int + 1));
                    acc_t = acc_t * 10 + digit_val(full[i as int]);
                }
                if wide > i64::MAX as i128 {
                    acc = i64::MAX;
                } else {
                    acc = wide as i64;
                }
                i = i + 1;
            }
            let ghost k1 = i - start;
            proof {
                lemma_digits_len_eq(full.skip(start as int), k1);
                assert(digits_acc(full.skip(i as int), acc_t) == acc_t);
                assert(acc as int == clamp_i64(acc_t) as int);
            }
            if i < n && s.get_char(i) == '.' {
                i = i + 1;
                let fstart = i;
                let ghost v1 = acc_t;
                let mut den: i64 = 1;
                let ghost mut den_t: int = 1;
                while i < n && digit_check(s.get_char(i))
                    invariant
                        s@ == full,
                        n == full.len(),
                        fstart <= i <= n,
                        forall|m: int| fstart <= m < i ==> is_digit(#[trigger] full[m]),
                        0 <= v1 <= acc_t,
                        acc_t <= i64::MAX ==> acc as int == acc_t,
                        acc_t > i64::MAX ==> acc as int == i64::MAX,
                        digits_acc(full.skip(fstart as int), v1) == digits_acc(
                            full.skip(i as int),
                            acc_t,
                        ),
                        1 <= den_t,
                        den_t == pow10((i - fstart) as nat),
                        den_t <= i64::MAX ==> den as int == den_t,
                        den_t > i64::MAX ==> den as int == i64::MAX,
                    decreases n - i,
                {
                    let d = (s.get_char(i) as u32) - 48;
                    let wide: i128 = acc as i128 * 10 + d as i128;
                    let dwide: i128 = den as i128 * 10;
                    proof {
                        assert(full.skip(i as int).skip(1) =~= full.skip(i as int + 1));
                        acc_t = acc_t * 10 + digit_val(full[i as int]);
                        den_t = den_t * 10;
                        assert(pow10((i + 1 - fstart) as nat) == 10 * pow10((i - fstart) as nat));
                    }
                    if wide > i64::MAX as i128 {
                        acc = i64::MAX;
                    } else {
                        acc = wide as i64;
                    }
                    if dwide > i64::MAX as i128 {
                        den = i64::MAX;
                    } else {
                        den = dwide as i64;
                    }
                    i = i + 1;
                }
                let ghost k2 = i - fstart;
                let tok = Token::Rational(Rat { num: acc, den });
                proof {
                    lemma_digits_len_eq(full.skip(fstart as int), k2);
                    assert(digits_acc(full.skip(i as int), acc_t) == acc_t);
                    assert(full.skip(start as int).skip(k1 + 1) =~= full.skip(fstart as int));
                    assert(start_suffix[k1] == full[start + k1]);
                    assert(acc as int == clamp_i64(acc_t) as int);
                    assert(den as int == clamp_i64(den_t) as int);
                    assert(full.skip(start as int).skip(k1 + 1 + k2) =~= full.skip(i as int));
                    assert(s_lex(start_suffix) == seq![tok@] + s_lex(full.skip(i as int)));
                }
                toks.push(tok);
                proof {
                    assert(tokens_view(toks@) =~= tokens_view(toks0).push(tok@));
                    assert(tokens_view(toks@) + s_lex(full.skip(i as int)) =~= tokens_view(toks0)
                        + s_lex(start_suffix));
                }
            } else {
                let tok = Token::Int(acc);
                proof {
                    assert(full.skip(start as int).skip(k1) =~= full.skip(i as int));
                    if k1 < start_suffix.len() {
                        assert(start_suffix[k1] == full[start + k1]);
                    }
                    assert(s_lex(start_suffix) == seq![tok@] + s_lex(full.skip(i as int)));
                }
                toks.push(tok);
                proof {
                    assert(tokens_view(toks@) =~= tokens_view(toks0).push(tok@));
                    assert(tokens_view(toks@) + s_lex(full.skip(i as int)) =~= tokens_view(toks0)
                        + s_lex(start_suffix));
                }
            }
        } else if ident_char_check(c) {
            let start = i;
            while i < n && ident_char_check(s.get_char(i))
                invariant
                    s@ == full,
                    n == full.len(),
                    start <= i <= n,
                    forall|m: int| start <= m < i ==> is_ident_char(#[trigger] full[m]),
                decreases n - i,
            {
                i = i + 1;
            }
            let ghost k = i - start;
            let name = s.substring_char(start, i).to_owned();
            let tok = Token::Identifier(name);
            proof {
                lemma_ident_len_eq(full.skip(start as int), k);
                assert(full.skip(start as int).take(k) =~= full.subrange(start as int, i as int));
                assert(full.skip(start as int).skip(k) =~= full.skip(i as int));
                assert(s_lex(start_suffix) == seq![tok@] + s_lex(full.skip(i as int)));
            }
            toks.push(tok);
            proof {
                assert(tokens_view(toks@) =~= tokens_view(toks0).push(tok@));
                assert(tokens_view(toks@) + s_lex(full.skip(i as int)) =~= tokens_view(toks0)
                    + s_lex(start_suffix));
            }
        } else {
            let tok_opt: Option<Token> = if c == '+' {
                Some(Token::Ope(Operator::Plus))
            } else if c == '-' {
                Some(Token::Ope(Operator::Minus))
            } else if c == '*' {
                Some(Token::Ope(Operator::Multiplication))
            } else if c == '/' {
                Some(Token::Ope(Operator::Divide))
            } else if c == '=' {
                Some(Token::Equal)
            } else if c == '(' {
                Some(Token::LeftParenthesis)
            } else if c == ')' {
                Some(Token::RightParenthesis)
            } else {
                None
            };
            i = i + 1;
            proof {
                assert(start_suffix.skip(1) =~= full.skip(i as int));
            }
            match tok_opt {
                Some(tok) => {
                    proof {
                        assert(s_lex(start_suffix) == seq![tok@] + s_lex(full.skip(i as int)));
                    }
                    toks.push(tok);
                    proof {
                        assert(tokens_view(toks@) =~= tokens_view(toks0).push(tok@));
                        assert(tokens_view(toks@) + s_lex(full.skip(i as int)) =~= tokens_view(
                            toks0,
                        ) + s_lex(start_suffix));
                    }
                },
                None => {
                    proof {
                        assert(s_lex(start_suffix) == s_lex(full.skip(i as int)));
                    }
                },
            }
        }
    }
    proof {
        assert(full.skip(i as int) =~= Seq::<char>::empty());
        assert(tokens_view(toks@) + s_lex(full.skip(i as int)) =~= tokens_view(toks@));
    }
    toks
}

} // verus!
