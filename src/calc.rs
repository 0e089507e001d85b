//! The calculator: a postfix token sequence folded into one integer.
use vstd::prelude::*;

use crate::token::{EvalError, Token};

verus! {

/// One step of the calculator on the operand stack (top last).
pub open spec fn calc_step(stack: Seq<i64>, t: Token) -> Result<Seq<i64>, EvalError> {
    match t {
        Token::Number(n) => Ok(stack.push(n.value)),
        Token::Operation(op) => {
            if stack.len() < 2 {
                Err(EvalError::MalformedExpression)
            } else {
                let rest = stack.drop_last().drop_last();
                match op.apply(stack[stack.len() - 2], stack.last()) {
                    Ok(v) => Ok(rest.push(v)),
                    Err(e) => Err(e),
                }
            }
        },
        Token::Parenthesis(_) => Err(EvalError::MalformedExpression),
    }
}

/// The calculator run over `s` from index `i` on, from the given stack; at
/// the end exactly one operand must be left.
pub open spec fn calc_from(s: Seq<Token>, i: int, stack: Seq<i64>) -> Result<i64, EvalError>
    decreases s.len() - i,
{
    if i < 0 || i >= s.len() {
        if stack.len() == 0 {
            Err(EvalError::NoResult)
        } else if stack.len() > 1 {
            Err(EvalError::MalformedExpression)
        } else {
            Ok(stack[0])
        }
    } else {
        match calc_step(stack, s[i]) {
            Err(e) => Err(e),
            Ok(s2) => calc_from(s, i + 1, s2),
        }
    }
}

/// The value of a postfix token sequence.
pub open spec fn postfix_value(s: Seq<Token>) -> Result<i64, EvalError> {
    calc_from(s, 0, Seq::empty())
}

/// Evaluates a postfix sequence with an operand stack: a number is pushed,
/// an operator takes the two topmost operands (the right one on top) and
/// pushes its checked result.
pub fn calculate(postfix_exp: Vec<Token>) -> (r: Result<i64, EvalError>)
    ensures
        r == postfix_value(postfix_exp@),
{
    let mut result: Vec<i64> = Vec::new();
    let mut i: usize = 0;
    while i < postfix_exp.len()
        invariant
            i <= postfix_exp.len(),
            postfix_value(postfix_exp@) == calc_from(postfix_exp@, i as int, result@),
        decreases postfix_exp.len() - i,
    {
        let token = postfix_exp[i];
        match token {
            Token::Number(n) => {
                result.push(n.get_value());
            },
            Token::Operation(_) => {
                if result.len() < 2 {
                    return Err(EvalError::MalformedExpression);
                }
                let ghost before = result@;
                let op2 = result.pop().unwrap();
                let op1 = result.pop().unwrap();
                assert(result@ =~= before.drop_last().drop_last());
                let v = token.execute(op1, op2)?;
                result.push(v);
            },
            Token::Parenthesis(_) => {
                return Err(EvalError::MalformedExpression);
            },
        }
        i = i + 1;
    }
    if result.len() == 0 {
        Err(EvalError::NoResult)
    } else if result.len() > 1 {
        Err(EvalError::MalformedExpression)
    } else {
        Ok(result[0])
    }
}

} // verus!
