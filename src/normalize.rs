//! The normaliser: grammar checks and the rewriting of unary minus.
use vstd::prelude::*;

use crate::token::{
    OperationToken, ParenthesisToken, SyntaxError, Token, TokenType, close_token, number_token,
    open_token,
};

verus! {

/// The three tokens `( -1 *` that open the rewrite of a unary minus.
pub open spec fn unary_minus_prefix() -> Seq<Token> {
    seq![open_token(), number_token(-1i64), Token::Operation(OperationToken::Mul)]
}

/// `k` closing parentheses.
pub open spec fn closes(k: nat) -> Seq<Token> {
    Seq::new(k, |_j: int| close_token())
}

/// The pending unary minuses that an operand completed at depth `d` pays:
/// the entries equal to `d` on top of the stack. Gives the stack left and
/// how many `)` are paid.
pub open spec fn settle(pending: Seq<usize>, d: usize) -> (Seq<usize>, nat)
    decreases pending.len(),
{
    if pending.len() > 0 && pending.last() == d {
        let (rest, k) = settle(pending.drop_last(), d);
        (rest, k + 1)
    } else {
        (pending, 0)
    }
}

/// One step of the normaliser. The state is the kind of the previous token
/// (`Operation` at the start), the parenthesis depth of the input so far,
/// and a stack of the depths at which each unary minus still owing its `)`
/// was seen. The step gives the next state and the tokens to emit for `t`,
/// the token at index `pos`.
pub open spec fn norm_step(
    prev: TokenType,
    depth: usize,
    pending: Seq<usize>,
    t: Token,
    pos: int,
) -> Result<(TokenType, usize, Seq<usize>, Seq<Token>), SyntaxError> {
    match t {
        Token::Operation(op) => {
            if prev == TokenType::Number || prev == TokenType::ClosedParenthesis {
                Ok((TokenType::Operation, depth, pending, seq![t]))
            } else if op == OperationToken::Sub {
                Ok((TokenType::Operation, depth, pending.push(depth), unary_minus_prefix()))
            } else if prev == TokenType::OpenedParenthesis && op == OperationToken::Add {
                Ok((TokenType::Operation, depth, pending, Seq::empty()))
            } else {
                Err(SyntaxError::UnexpectedOperator(pos as usize))
            }
        },
        Token::Number(_) => {
            let (rest, k) = settle(pending, depth);
            Ok((TokenType::Number, depth, rest, seq![t] + closes(k)))
        },
        Token::Parenthesis(_) => {
            if t == open_token() {
                Ok((TokenType::OpenedParenthesis, (depth + 1) as usize, pending, seq![t]))
            } else if prev == TokenType::Operation {
                Err(SyntaxError::UnexpectedCloseParen(pos as usize))
            } else {
                let d2: usize = if depth > 0 {
                    (depth - 1) as usize
                } else {
                    0
                };
                let (rest, k) = settle(pending, d2);
                Ok((TokenType::ClosedParenthesis, d2, rest, seq![t] + closes(k)))
            }
        },
    }
}

/// The normaliser run over `s` from index `i` on, from the given state and
/// the tokens emitted so far. A non-empty input may not end on an operator.
pub open spec fn norm_from(
    s: Seq<Token>,
    i: int,
    prev: TokenType,
    depth: usize,
    pending: Seq<usize>,
    out: Seq<Token>,
) -> Result<Seq<Token>, SyntaxError>
    decreases s.len() - i,
{
    if i < 0 || i >= s.len() {
        if prev == TokenType::Operation && s.len() > 0 {
            Err(SyntaxError::TrailingOperator)
        } else {
            Ok(out)
        }
    } else {
        match norm_step(prev, depth, pending, s[i], i) {
            Err(e) => Err(e),
            Ok((p2, d2, q2, emitted)) => norm_from(s, i + 1, p2, d2, q2, out + emitted),
        }
    }
}

/// The normalised form of a token sequence.
pub open spec fn normalize(s: Seq<Token>) -> Result<Seq<Token>, SyntaxError> {
    norm_from(s, 0, TokenType::Operation, 0, Seq::empty(), Seq::empty())
}

/// Emits the `)` that the pending unary minuses seen at depth `d` are owed,
/// removing them from the stack.
fn pay_pending(out: &mut Vec<Token>, pending: &mut Vec<usize>, d: usize)
    ensures
        final(pending)@ == settle(old(pending)@, d).0,
        final(out)@ == old(out)@ + closes(settle(old(pending)@, d).1),
{
    let ghost goal = settle(pending@, d);
    let ghost start = out@;
    while pending.len() > 0 && pending[pending.len() - 1] == d
        invariant
            settle(pending@, d).0 == goal.0,
            out@ + closes(settle(pending@, d).1) == start + closes(goal.1),
        decreases pending.len(),
    {
        let ghost k = settle(pending@, d).1;
        pending.pop();
        out.push(Token::new_closed_parenthesis());
        assert(closes(k) =~= seq![close_token()] + closes((k - 1) as nat));
        assert(out@ + closes((k - 1) as nat) =~= start + closes(goal.1));
    }
    assert(out@ + closes(0) =~= out@);
}

/// Checks the grammar of the lexed tokens and rewrites each unary minus
/// (one after an operator, after `(` or at the start) as `( -1 *`. Its
/// `)` is emitted once its operand is complete: right after the next number
/// at the same depth, or right after the `)` that brings the depth back to
/// where the minus stood. A `+` right after `(` is dropped; any other
/// operator after `(` or after an operator, a `)` after an operator, or a
/// non-empty input that ends on an operator is an error.
pub fn parsing(tokens: Vec<Token>) -> (r: Result<Vec<Token>, SyntaxError>)
    ensures
        r matches Ok(t) ==> normalize(tokens@) == Ok::<Seq<Token>, SyntaxError>(t@),
        r matches Err(e) ==> normalize(tokens@) == Err::<Seq<Token>, SyntaxError>(e),
{
    let mut previous_token_type = TokenType::Operation;
    let mut depth: usize = 0;
    let mut pending: Vec<usize> = Vec::new();
    let mut processed_tokens: Vec<Token> = Vec::new();
    let mut pos: usize = 0;
    while pos < tokens.len()
        invariant
            pos <= tokens.len(),
            depth <= pos,
            normalize(tokens@) == norm_from(
                tokens@,
                pos as int,
                previous_token_type,
                depth,
                pending@,
                processed_tokens@,
            ),
        decreases tokens.len() - pos,
    {
        let token = tokens[pos];
        let ghost before = processed_tokens@;
        let ghost old_prev = previous_token_type;
        let ghost old_depth = depth;
        let ghost old_pending = pending@;
        match token {
            Token::Operation(op) => {
                if previous_token_type == TokenType::Number || previous_token_type
                    == TokenType::ClosedParenthesis {
                    processed_tokens.push(token);
                } else if op == OperationToken::Sub {
                    processed_tokens.push(Token::new_open_parenthesis());
                    processed_tokens.push(Token::new_number(-1));
                    processed_tokens.push(Token::new_operation(OperationToken::Mul));
                    pending.push(depth);
                } else if previous_token_type == TokenType::OpenedParenthesis && op
                    == OperationToken::Add {
                } else {
                    return Err(SyntaxError::UnexpectedOperator(pos));
                }
                previous_token_type = TokenType::Operation;
            },
            Token::Number(_) => {
                processed_tokens.push(token);
                pay_pending(&mut processed_tokens, &mut pending, depth);
                previous_token_type = TokenType::Number;
            },
            Token::Parenthesis(p) => {
                if p == ParenthesisToken::Opened {
                    processed_tokens.push(token);
                    depth = depth + 1;
                    previous_token_type = TokenType::OpenedParenthesis;
                } else {
                    if previous_token_type == TokenType::Operation {
                        return Err(SyntaxError::UnexpectedCloseParen(pos));
                    }
                    processed_tokens.push(token);
                    if depth > 0 {
                        depth = depth - 1;
                    }
                    pay_pending(&mut processed_tokens, &mut pending, depth);
                    previous_token_type = TokenType::ClosedParenthesis;
                }
            },
        }
        proof {
            match norm_step(old_prev, old_depth, old_pending, token, pos as int) {
                Ok((_, _, _, emitted)) => {
                    assert(processed_tokens@ =~= before + emitted);
                },
                Err(_) => {},
            }
        }
        pos = pos + 1;
    }
    if previous_token_type == TokenType::Operation && tokens.len() > 0 {
        return Err(SyntaxError::TrailingOperator);
    }
    Ok(processed_tokens)
}

} // verus!
