//! The shunting-yard stage: infix tokens to postfix order.
use vstd::prelude::*;

use crate::token::{ParenError, ParenthesisToken, Token, open_token};

verus! {

/// Moves operators of priority at least `p` from the top of the stack to the
/// output, stopping at an empty stack, at `(` or at a weaker operator.
pub open spec fn pop_while_stronger(out: Seq<Token>, stack: Seq<Token>, p: u8) -> (
    Seq<Token>,
    Seq<Token>,
)
    decreases stack.len(),
{
    if stack.len() == 0 {
        (out, stack)
    } else {
        match stack.last() {
            Token::Operation(op) => {
                if op.priority() >= p {
                    pop_while_stronger(out.push(stack.last()), stack.drop_last(), p)
                } else {
                    (out, stack)
                }
            },
            _ => (out, stack),
        }
    }
}

/// Moves tokens from the top of the stack to the output up to the nearest
/// `(`, which is discarded; `None` when the stack holds no `(`.
pub open spec fn pop_to_open(out: Seq<Token>, stack: Seq<Token>) -> Option<
    (Seq<Token>, Seq<Token>),
>
    decreases stack.len(),
{
    if stack.len() == 0 {
        None
    } else if stack.last() == open_token() {
        Some((out, stack.drop_last()))
    } else {
        pop_to_open(out.push(stack.last()), stack.drop_last())
    }
}

/// Moves the whole stack, top first, to the output; a `(` left on it is an
/// unbalanced parenthesis.
pub open spec fn drain(out: Seq<Token>, stack: Seq<Token>) -> Result<Seq<Token>, ParenError>
    decreases stack.len(),
{
    if stack.len() == 0 {
        Ok(out)
    } else if stack.last() == open_token() {
        Err(ParenError::Unbalanced)
    } else {
        drain(out.push(stack.last()), stack.drop_last())
    }
}

/// One step of the conversion on the token `t`: the output and the operator
/// stack after it.
pub open spec fn shunt_step(out: Seq<Token>, stack: Seq<Token>, t: Token) -> Result<
    (Seq<Token>, Seq<Token>),
    ParenError,
> {
    match t {
        Token::Number(_) => Ok((out.push(t), stack)),
        Token::Operation(op) => {
            let (o2, s2) = pop_while_stronger(out, stack, op.priority());
            Ok((o2, s2.push(t)))
        },
        Token::Parenthesis(ParenthesisToken::Opened) => Ok((out, stack.push(t))),
        Token::Parenthesis(ParenthesisToken::Closed) => match pop_to_open(out, stack) {
            Some(r) => Ok(r),
            None => Err(ParenError::Unbalanced),
        },
    }
}

/// The conversion of `s` from index `i` on, from the given output and stack.
pub open spec fn shunt_from(s: Seq<Token>, i: int, out: Seq<Token>, stack: Seq<Token>) -> Result<
    Seq<Token>,
    ParenError,
>
    decreases s.len() - i,
{
    if i < 0 || i >= s.len() {
        drain(out, stack)
    } else {
        match shunt_step(out, stack, s[i]) {
            Err(e) => Err(e),
            Ok((o2, s2)) => shunt_from(s, i + 1, o2, s2),
        }
    }
}

/// The postfix order of an infix token sequence.
pub open spec fn to_postfix(s: Seq<Token>) -> Result<Seq<Token>, ParenError> {
    shunt_from(s, 0, Seq::empty(), Seq::empty())
}

/// Reorders infix tokens into postfix order with an operator stack:
/// operators of equal priority associate to the left, parentheses group,
/// and a parenthesis without its partner is `Unbalanced`.
pub fn postfix(parsed_exp: Vec<Token>) -> (r: Result<Vec<Token>, ParenError>)
    ensures
        r matches Ok(t) ==> to_postfix(parsed_exp@) == Ok::<Seq<Token>, ParenError>(t@),
        r matches Err(e) ==> to_postfix(parsed_exp@) == Err::<Seq<Token>, ParenError>(e),
{
    let mut postfix_tokens: Vec<Token> = Vec::new();
    let mut operation_stack: Vec<Token> = Vec::new();
    let mut i: usize = 0;
    while i < parsed_exp.len()
        invariant
            i <= parsed_exp.len(),
            to_postfix(parsed_exp@) == shunt_from(
                parsed_exp@,
                i as int,
                postfix_tokens@,
                operation_stack@,
            ),
        decreases parsed_exp.len() - i,
    {
        let token = parsed_exp[i];
        match token {
            Token::Number(_) => {
                postfix_tokens.push(token);
            },
            Token::Parenthesis(ParenthesisToken::Opened) => {
                operation_stack.push(token);
            },
            Token::Parenthesis(ParenthesisToken::Closed) => {
                let ghost goal = pop_to_open(postfix_tokens@, operation_stack@);
                loop
                    invariant_except_break
                        goal == pop_to_open(postfix_tokens@, operation_stack@),
                    invariant
                        to_postfix(parsed_exp@) == (match goal {
                            Some((o, s)) => shunt_from(parsed_exp@, i + 1, o, s),
                            None => Err(ParenError::Unbalanced),
                        }),
                        i < parsed_exp.len(),
                    ensures
                        goal == Some((postfix_tokens@, operation_stack@)),
                    decreases operation_stack.len(),
                {
                    match operation_stack.pop() {
                        Some(top) => {
                            if top == Token::Parenthesis(ParenthesisToken::Opened) {
                                break;
                            }
                            postfix_tokens.push(top);
                        },
                        None => {
                            return Err(ParenError::Unbalanced);
                        },
                    }
                }
            },
            Token::Operation(op) => {
                let priority = op.get_priority();
                let ghost goal = pop_while_stronger(postfix_tokens@, operation_stack@, priority);
                while operation_stack.len() > 0
                    invariant_except_break
                        goal == pop_while_stronger(postfix_tokens@, operation_stack@, priority),
                    invariant
                        to_postfix(parsed_exp@) == shunt_from(
                            parsed_exp@,
                            i + 1,
                            goal.0,
                            goal.1.push(token),
                        ),
                        i < parsed_exp.len(),
                    ensures
                        goal == (postfix_tokens@, operation_stack@),
                    decreases operation_stack.len(),
                {
                    let top = operation_stack[operation_stack.len() - 1];
                    match top {
                        Token::Operation(top_op) => {
                            if top_op.get_priority() >= priority {
                                operation_stack.pop();
                                postfix_tokens.push(top);
                            } else {
                                break;
                            }
                        },
                        _ => {
                            break;
                        },
                    }
                }
                operation_stack.push(token);
            },
        }
        i = i + 1;
    }
    let ghost goal = drain(postfix_tokens@, operation_stack@);
    while operation_stack.len() > 0
        invariant
            goal == drain(postfix_tokens@, operation_stack@),
            to_postfix(parsed_exp@) == goal,
        decreases operation_stack.len(),
    {
        match operation_stack.pop() {
            Some(top) => {
                if top == Token::Parenthesis(ParenthesisToken::Opened) {
                    return Err(ParenError::Unbalanced);
                }
                postfix_tokens.push(top);
            },
            None => {},
        }
    }
    Ok(postfix_tokens)
}

} // verus!
