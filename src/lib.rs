//! Evaluation of integer arithmetic expressions written as text.
//!
//! The text goes through four stages: the lexer turns characters into
//! tokens, the normaliser checks the grammar and rewrites unary minus,
//! the shunting-yard stage reorders the tokens into postfix order, and the
//! calculator folds the postfix sequence into one `i64`.
use vstd::prelude::*;

pub mod calc;
pub mod lexer;
pub mod normalize;
pub mod precedence;
pub mod shunting;
pub mod token;

pub use token::{
    EvalError, EvaluationError, LexError, NumberToken, OperationToken, ParenError,
    ParenthesisToken, SyntaxError, Token, TokenType,
};

use calc::{calculate, postfix_value};
use lexer::{clear, is_space, lex, strip, tokenizing};
use normalize::{normalize, parsing};
use shunting::{postfix, to_postfix};

verus! {

/// The result of evaluating the text `s`: the four stages in turn on the
/// text without whitespace, the first failure ending the evaluation.
pub open spec fn evaluation(s: Seq<char>) -> Result<i64, EvaluationError> {
    match lex(strip(s)) {
        Err(e) => Err(EvaluationError::Lex(e)),
        Ok(tokens) => token_value(tokens),
    }
}

/// The result of the stages after the lexer on a token sequence.
pub open spec fn token_value(tokens: Seq<Token>) -> Result<i64, EvaluationError> {
    match normalize(tokens) {
        Err(e) => Err(EvaluationError::Syntax(e)),
        Ok(infix) => match to_postfix(infix) {
            Err(e) => Err(EvaluationError::Paren(e)),
            Ok(post) => match postfix_value(post) {
                Err(e) => Err(EvaluationError::Eval(e)),
                Ok(v) => Ok(v),
            },
        },
    }
}

/// Evaluates an arithmetic expression over `i64`: digits, `+ - * /`,
/// parentheses and whitespace. Multiplication and division bind tighter
/// than addition and subtraction, equal priorities associate to the left,
/// division truncates toward zero, and every operation is checked.
pub fn eval(exp: &String) -> (r: Result<i64, EvaluationError>)
    ensures
        r == evaluation(exp@),
{
    let chars = clear(exp);
    let tokens = match tokenizing(&chars) {
        Ok(t) => t,
        Err(e) => {
            return Err(EvaluationError::Lex(e));
        },
    };
    let infix = match parsing(tokens) {
        Ok(t) => t,
        Err(e) => {
            return Err(EvaluationError::Syntax(e));
        },
    };
    let post = match postfix(infix) {
        Ok(t) => t,
        Err(e) => {
            return Err(EvaluationError::Paren(e));
        },
    };
    match calculate(post) {
        Ok(v) => Ok(v),
        Err(e) => Err(EvaluationError::Eval(e)),
    }
}

/// Removing whitespace from a concatenation removes it from each part.
pub proof fn lemma_strip_concat(x: Seq<char>, y: Seq<char>)
    ensures
        strip(x + y) == strip(x) + strip(y),
    decreases y.len(),
{
    if y.len() == 0 {
        assert(x + y =~= x);
        assert(strip(y) =~= Seq::<char>::empty());
        assert(strip(x) + strip(y) =~= strip(x));
    } else {
        let xy = x + y;
        assert(xy.drop_last() =~= x + y.drop_last());
        assert(xy.last() == y.last());
        lemma_strip_concat(x, y.drop_last());
        if is_space(y.last()) {
        } else {
            assert(strip(x) + strip(y.drop_last()).push(y.last()) =~= (strip(x) + strip(
                y.drop_last(),
            )).push(y.last()));
        }
    }
}

/// The result depends on the text alone, and only on its characters
/// outside whitespace: two texts that agree once whitespace is removed
/// evaluate to the same result or the same error.
pub proof fn lemma_same_text_same_result(a: Seq<char>, b: Seq<char>)
    requires
        strip(a) == strip(b),
    ensures
        evaluation(a) == evaluation(b),
{
}

/// Whitespace is irrelevant: inserting a whitespace character anywhere in
/// the text leaves the result unchanged.
pub proof fn lemma_whitespace_irrelevant(a: Seq<char>, b: Seq<char>, c: char)
    requires
        is_space(c),
    ensures
        evaluation(a + seq![c] + b) == evaluation(a + b),
{
    lemma_strip_concat(a + seq![c], b);
    lemma_strip_concat(a, seq![c]);
    lemma_strip_concat(a, b);
    let one = seq![c];
    assert(one.drop_last() =~= Seq::<char>::empty());
    assert(strip(one.drop_last()) == one.drop_last());
    assert(strip(one) =~= Seq::<char>::empty());
    assert(strip(a) + strip(one) =~= strip(a));
    lemma_same_text_same_result(a + seq![c] + b, a + b);
}

} // verus!
