//! Whitespace removal and the lexer: characters to tokens.
use vstd::prelude::*;

use crate::token::{
    LexError, NumberToken, OperationToken, ParenthesisToken, Token, number_token, operator_of,
};

verus! {

/// ASCII whitespace: space, tab, line feed, form feed and carriage return.
pub open spec fn is_space(c: char) -> bool {
    c == ' ' || c == '\t' || c == '\n' || c == '\x0C' || c == '\r'
}

/// The text with every whitespace character removed.
pub open spec fn strip(s: Seq<char>) -> Seq<char>
    decreases s.len(),
{
    if s.len() == 0 {
        s
    } else if is_space(s.last()) {
        strip(s.drop_last())
    } else {
        strip(s.drop_last()).push(s.last())
    }
}

pub open spec fn is_digit(c: char) -> bool {
    '0' <= c <= '9'
}

pub open spec fn digit_value(c: char) -> int {
    c as int - '0' as int
}

/// The token that a single non-digit character stands for, if any.
pub open spec fn symbol_token(c: char) -> Option<Token> {
    if c == '(' {
        Some(Token::Parenthesis(ParenthesisToken::Opened))
    } else if c == ')' {
        Some(Token::Parenthesis(ParenthesisToken::Closed))
    } else {
        match operator_of(c) {
            Some(op) => Some(Token::Operation(op)),
            None => None,
        }
    }
}

/// The value of a literal under assembly after one more digit `c`.
pub open spec fn extend_literal(cur: Option<i64>, c: char) -> int {
    match cur {
        Some(n) => n * 10 + digit_value(c),
        None => digit_value(c),
    }
}

/// The tokens with the literal under assembly, if any, appended.
pub open spec fn flush_literal(toks: Seq<Token>, cur: Option<i64>) -> Seq<Token> {
    match cur {
        Some(n) => toks.push(number_token(n)),
        None => toks,
    }
}

/// One step of the scan: the tokens emitted so far and the literal under
/// assembly, after the character `c` at index `pos`.
pub open spec fn lex_step(toks: Seq<Token>, cur: Option<i64>, c: char, pos: int) -> Result<
    (Seq<Token>, Option<i64>),
    LexError,
> {
    if is_digit(c) {
        if extend_literal(cur, c) > i64::MAX {
            Err(LexError::Overflow)
        } else {
            Ok((toks, Some(extend_literal(cur, c) as i64)))
        }
    } else {
        match symbol_token(c) {
            Some(t) => Ok((flush_literal(toks, cur).push(t), None)),
            None => Err(LexError::InvalidCharacter(c, pos as usize)),
        }
    }
}

/// The scan of `s` from index `i` on, starting from the given state.
pub open spec fn lex_from(s: Seq<char>, i: int, toks: Seq<Token>, cur: Option<i64>) -> Result<
    Seq<Token>,
    LexError,
>
    decreases s.len() - i,
{
    if i < 0 || i >= s.len() {
        Ok(flush_literal(toks, cur))
    } else {
        match lex_step(toks, cur, s[i], i) {
            Err(e) => Err(e),
            Ok((t2, c2)) => lex_from(s, i + 1, t2, c2),
        }
    }
}

/// The tokens of a whitespace-free text, in order.
pub open spec fn lex(s: Seq<char>) -> Result<Seq<Token>, LexError> {
    lex_from(s, 0, Seq::empty(), None)
}

/// Removes every ASCII whitespace character from the expression.
pub fn clear(exp: &String) -> (r: Vec<char>)
    ensures
        r@ == strip(exp@),
{
    let mut out: Vec<char> = Vec::new();
    for c in it: exp.as_str().chars()
        invariant
            it.seq() == exp@,
            out@ == strip(exp@.take(it.index())),
    {
        let ghost k = it.index();
        assert(exp@.take(k + 1).drop_last() =~= exp@.take(k));
        if !(c == ' ' || c == '\t' || c == '\n' || c == '\x0C' || c == '\r') {
            out.push(c);
        }
    }
    assert(exp@.take(exp@.len() as int) =~= exp@);
    out
}

/// Extends the literal under assembly by the digit `c`; `None` when the
/// value would no longer fit in an `i64`.
pub fn number_parse(cur: Option<i64>, c: char) -> (r: Option<i64>)
    requires
        is_digit(c),
        cur matches Some(n) ==> n >= 0,
    ensures
        r == (if extend_literal(cur, c) > i64::MAX {
            None::<i64>
        } else {
            Some(extend_literal(cur, c) as i64)
        }),
{
    let d = (c as u32 - '0' as u32) as i64;
    assert(d == digit_value(c));
    match cur {
        None => Some(d),
        Some(n) => match n.checked_mul(10) {
            Some(m) => m.checked_add(d),
            None => None,
        },
    }
}

/// The operator token that `c` denotes, if any.
pub fn operation_parse(c: char) -> (r: Option<Token>)
    ensures
        r == (match operator_of(c) {
            Some(op) => Some(Token::Operation(op)),
            None => None,
        }),
{
    match OperationToken::new(c) {
        Some(op) => Some(Token::new_operation(op)),
        None => None,
    }
}

/// The parenthesis token that `c` denotes, if any.
pub fn parentheses_parse(c: char) -> (r: Option<Token>)
    ensures
        r == (if c == '(' {
            Some(Token::Parenthesis(ParenthesisToken::Opened))
        } else if c == ')' {
            Some(Token::Parenthesis(ParenthesisToken::Closed))
        } else {
            None
        }),
{
    if c == '(' {
        Some(Token::new_open_parenthesis())
    } else if c == ')' {
        Some(Token::new_closed_parenthesis())
    } else {
        None
    }
}

/// Splits a whitespace-free text into tokens: greedy runs of digits become
/// numbers, `+ - * /` operators, `(` and `)` parentheses.
pub fn tokenizing(exp: &Vec<char>) -> (r: Result<Vec<Token>, LexError>)
    ensures
        r matches Ok(t) ==> lex(exp@) == Ok::<Seq<Token>, LexError>(t@),
        r matches Err(e) ==> lex(exp@) == Err::<Seq<Token>, LexError>(e),
{
    let mut tokens: Vec<Token> = Vec::new();
    let mut cur: Option<i64> = None;
    let mut i: usize = 0;
    while i < exp.len()
        invariant
            i <= exp.len(),
            lex(exp@) == lex_from(exp@, i as int, tokens@, cur),
            cur matches Some(n) ==> n >= 0,
        decreases exp.len() - i,
    {
        let c = exp[i];
        if '0' <= c && c <= '9' {
            match number_parse(cur, c) {
                Some(v) => {
                    cur = Some(v);
                },
                None => {
                    return Err(LexError::Overflow);
                },
            }
        } else {
            let t = match operation_parse(c) {
                Some(t) => t,
                None => match parentheses_parse(c) {
                    Some(t) => t,
                    None => {
                        return Err(LexError::InvalidCharacter(c, i));
                    },
                },
            };
            if let Some(n) = cur {
                tokens.push(Token::new_number(n));
            }
            tokens.push(t);
            cur = None;
        }
        i = i + 1;
    }
    if let Some(n) = cur {
        tokens.push(Token::new_number(n));
    }
    Ok(tokens)
}

} // verus!
