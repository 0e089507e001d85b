use reverse::eval;
use reverse::{EvalError, EvaluationError, LexError, OperationToken, ParenError, SyntaxError};

fn run(text: &str) -> Result<i64, EvaluationError> {
    eval(&text.to_string())
}

#[test]
fn one_plus_one() {
    assert_eq!(run("1+1"), Ok(2));
}

#[test]
fn multiplication_binds_tighter() {
    assert_eq!(run("2*3+4"), Ok(10));
    assert_eq!(run("4+2*3"), Ok(10));
}

#[test]
fn parentheses_override_precedence() {
    assert_eq!(run("2*(3+4)"), Ok(14));
}

#[test]
fn leading_unary_minus() {
    assert_eq!(run("-5+3"), Ok(-2));
    assert_eq!(run("-5"), Ok(-5));
}

#[test]
fn unary_minus_after_binary_minus() {
    assert_eq!(run("3--2"), Ok(5));
}

#[test]
fn unary_minus_after_operator_and_paren() {
    assert_eq!(run("2*-3"), Ok(-6));
    assert_eq!(run("(-4)*2"), Ok(-8));
    assert_eq!(run("10/-3"), Ok(-3));
}

#[test]
fn division_by_zero() {
    assert_eq!(run("10/0"), Err(EvaluationError::Eval(EvalError::DivisionByZero)));
}

#[test]
fn unclosed_parenthesis() {
    assert_eq!(run("(1+2"), Err(EvaluationError::Paren(ParenError::Unbalanced)));
}

#[test]
fn unopened_parenthesis() {
    assert_eq!(run("1+2)"), Err(EvaluationError::Paren(ParenError::Unbalanced)));
}

#[test]
fn trailing_operator() {
    assert_eq!(run("1+"), Err(EvaluationError::Syntax(SyntaxError::TrailingOperator)));
}

#[test]
fn empty_text_gives_no_result() {
    assert_eq!(run(""), Err(EvaluationError::Eval(EvalError::NoResult)));
    assert_eq!(run("   "), Err(EvaluationError::Eval(EvalError::NoResult)));
}

#[test]
fn lone_operator_is_trailing() {
    assert_eq!(run("-"), Err(EvaluationError::Syntax(SyntaxError::TrailingOperator)));
}

#[test]
fn unary_minus_before_group() {
    assert_eq!(run("-(2+3)"), Ok(-5));
    assert_eq!(run("2*-(3+4)"), Ok(-14));
    assert_eq!(run("10*-(2+3)"), Ok(-50));
    assert_eq!(run("-(2*3+4)"), Ok(-10));
}

#[test]
fn repeated_unary_minus() {
    assert_eq!(run("--2"), Ok(2));
    assert_eq!(run("-(-2)"), Ok(2));
    assert_eq!(run("2*--3"), Ok(6));
    assert_eq!(run("3---2"), Ok(1));
    assert_eq!(run("-(-(1+2)*4)"), Ok(12));
}

#[test]
fn addition_overflow() {
    assert_eq!(
        run("9223372036854775807+1"),
        Err(EvaluationError::Eval(EvalError::Overflow(
            9223372036854775807,
            OperationToken::Add,
            1
        )))
    );
}

#[test]
fn multiplication_and_division_overflow() {
    assert_eq!(
        run("4611686018427387904*2"),
        Err(EvaluationError::Eval(EvalError::Overflow(
            4611686018427387904,
            OperationToken::Mul,
            2
        )))
    );
    assert_eq!(
        run("(-1*9223372036854775807-1)/-1"),
        Err(EvaluationError::Eval(EvalError::Overflow(
            i64::MIN,
            OperationToken::Div,
            -1
        )))
    );
}

#[test]
fn largest_literal_and_one_past_it() {
    assert_eq!(run("9223372036854775807"), Ok(i64::MAX));
    assert_eq!(run("9223372036854775808"), Err(EvaluationError::Lex(LexError::Overflow)));
    assert_eq!(run("-1*9223372036854775807-1"), Ok(i64::MIN));
}

#[test]
fn embedded_whitespace() {
    assert_eq!(run("1 + 2"), Ok(3));
    assert_eq!(run("1 + 2"), run("1+2"));
    assert_eq!(run(" 1\t+\n2 \r"), Ok(3));
}

#[test]
fn same_text_twice_gives_same_result() {
    for text in ["1+1", "2*(3+4)", "10/0", "1+", "(1+2", "abc"] {
        assert_eq!(run(text), run(text));
    }
}

#[test]
fn invalid_character_reports_position_without_whitespace() {
    assert_eq!(
        run("1 + a"),
        Err(EvaluationError::Lex(LexError::InvalidCharacter('a', 2)))
    );
    assert_eq!(
        run("2,3"),
        Err(EvaluationError::Lex(LexError::InvalidCharacter(',', 1)))
    );
}

#[test]
fn operator_after_operator() {
    assert_eq!(
        run("1+*2"),
        Err(EvaluationError::Syntax(SyntaxError::UnexpectedOperator(2)))
    );
}

#[test]
fn operator_after_open_paren() {
    assert_eq!(
        run("(*2)"),
        Err(EvaluationError::Syntax(SyntaxError::UnexpectedOperator(1)))
    );
    assert_eq!(run("(+2)"), Ok(2));
}

#[test]
fn close_paren_after_operator() {
    assert_eq!(
        run("(1+)"),
        Err(EvaluationError::Syntax(SyntaxError::UnexpectedCloseParen(3)))
    );
}

#[test]
fn empty_parentheses_give_no_result() {
    assert_eq!(run("()"), Err(EvaluationError::Eval(EvalError::NoResult)));
}

#[test]
fn empty_group_as_operand_is_malformed() {
    assert_eq!(
        run("1+()"),
        Err(EvaluationError::Eval(EvalError::MalformedExpression))
    );
}

#[test]
fn left_associativity() {
    assert_eq!(run("10-3-2"), Ok(5));
    assert_eq!(run("100/10/5"), Ok(2));
    assert_eq!(run("8/2*4"), Ok(16));
}

#[test]
fn division_truncates_toward_zero() {
    assert_eq!(run("7/2"), Ok(3));
    assert_eq!(run("-7/2"), Ok(-3));
    assert_eq!(run("7/-2"), Ok(-3));
    assert_eq!(run("-7/-2"), Ok(3));
}

#[test]
fn multi_digit_literals_and_nesting() {
    assert_eq!(run("((12+30)*(100-58))/42"), Ok(42));
}

// An independent evaluator by recursive descent over the characters, with the
// usual precedence and left associativity; `None` on a failed operation.
struct Descent<'a> {
    text: &'a [u8],
    pos: usize,
}

impl<'a> Descent<'a> {
    fn expr(&mut self) -> Option<i64> {
        let mut acc = self.term()?;
        while self.pos < self.text.len() && (self.text[self.pos] == b'+' || self.text[self.pos] == b'-') {
            let op = self.text[self.pos];
            self.pos += 1;
            let rhs = self.term()?;
            acc = if op == b'+' { acc.checked_add(rhs)? } else { acc.checked_sub(rhs)? };
        }
        Some(acc)
    }

    fn term(&mut self) -> Option<i64> {
        let mut acc = self.factor()?;
        while self.pos < self.text.len() && (self.text[self.pos] == b'*' || self.text[self.pos] == b'/') {
            let op = self.text[self.pos];
            self.pos += 1;
            let rhs = self.factor()?;
            acc = if op == b'*' { acc.checked_mul(rhs)? } else { acc.checked_div(rhs)? };
        }
        Some(acc)
    }

    fn factor(&mut self) -> Option<i64> {
        if self.text[self.pos] == b'(' {
            self.pos += 1;
            let v = self.expr();
            self.pos += 1;
            v
        } else if self.text[self.pos] == b'-' {
            self.pos += 1;
            let v = self.factor()?;
            v.checked_neg()
        } else {
            let v = (self.text[self.pos] - b'0') as i64;
            self.pos += 1;
            Some(v)
        }
    }
}

struct Lcg(u64);

impl Lcg {
    fn next(&mut self, bound: u64) -> u64 {
        self.0 = self.0.wrapping_mul(6364136223846793005).wrapping_add(1442695040888963407);
        (self.0 >> 33) % bound
    }
}

fn random_expr(rng: &mut Lcg, depth: u32, out: &mut String) {
    if depth > 0 && rng.next(6) == 0 {
        out.push('-');
        random_factor(rng, depth - 1, out);
        return;
    }
    if depth == 0 || rng.next(3) == 0 {
        out.push((b'0' + rng.next(10) as u8) as char);
        return;
    }
    if rng.next(4) == 0 {
        out.push('(');
        random_expr(rng, depth - 1, out);
        out.push(')');
        return;
    }
    random_expr(rng, depth - 1, out);
    out.push(['+', '-', '*', '/'][rng.next(4) as usize]);
    random_expr(rng, depth - 1, out);
}

fn random_factor(rng: &mut Lcg, depth: u32, out: &mut String) {
    match rng.next(3) {
        0 => out.push((b'0' + rng.next(10) as u8) as char),
        1 if depth > 0 => {
            out.push('-');
            random_factor(rng, depth - 1, out);
        }
        _ => {
            out.push('(');
            random_expr(rng, depth, out);
            out.push(')');
        }
    }
}

#[test]
fn agrees_with_recursive_descent_on_random_expressions() {
    let mut rng = Lcg(0x5eed);
    for _ in 0..3000 {
        let mut text = String::new();
        random_expr(&mut rng, 5, &mut text);
        let expected = Descent { text: text.as_bytes(), pos: 0 }.expr();
        let got = eval(&text);
        match expected {
            Some(v) => assert_eq!(got, Ok(v), "{}", text),
            None => assert!(
                matches!(
                    got,
                    Err(EvaluationError::Eval(EvalError::DivisionByZero))
                        | Err(EvaluationError::Eval(EvalError::Overflow(_, _, _)))
                ),
                "{}",
                text
            ),
        }
    }
}
