//! Tokens, their classification, and the error kinds of each stage.
use vstd::prelude::*;

verus! {

/// The kind of a token, as the normaliser and the shunting-yard stage see it.
#[derive(Clone, Copy, Debug, PartialEq, Eq, Structural)]
pub enum TokenType {
    Operation,
    Number,
    OpenedParenthesis,
    ClosedParenthesis,
}

/// One of the four arithmetic operators.
#[derive(Clone, Copy, Debug, PartialEq, Eq, Structural)]
pub enum OperationToken {
    Add,
    Sub,
    Mul,
    Div,
}

/// An integer literal, already assembled from its digits.
#[derive(Clone, Copy, Debug, PartialEq, Eq, Structural)]
pub struct NumberToken {
    pub value: i64,
}

/// An opening or a closing parenthesis.
#[derive(Clone, Copy, Debug, PartialEq, Eq, Structural)]
pub enum ParenthesisToken {
    Opened,
    Closed,
}

/// A token: exactly one of a number, an operator or a parenthesis.
#[derive(Clone, Copy, Debug, PartialEq, Eq, Structural)]
pub enum Token {
    Number(NumberToken),
    Operation(OperationToken),
    Parenthesis(ParenthesisToken),
}

/// Failures of the lexer.
#[derive(Clone, Copy, Debug, PartialEq, Eq, Structural)]
pub enum LexError {
    /// A character that is neither a digit, an operator nor a parenthesis,
    /// with its index in the whitespace-free text.
    InvalidCharacter(char, usize),
    /// A literal whose value does not fit in an `i64`.
    Overflow,
}

/// Failures of the normaliser; positions are token indices.
#[derive(Clone, Copy, Debug, PartialEq, Eq, Structural)]
pub enum SyntaxError {
    UnexpectedOperator(usize),
    UnexpectedCloseParen(usize),
    TrailingOperator,
}

/// Failure of the shunting-yard stage.
#[derive(Clone, Copy, Debug, PartialEq, Eq, Structural)]
pub enum ParenError {
    Unbalanced,
}

/// Failures of the postfix calculator.
#[derive(Clone, Copy, Debug, PartialEq, Eq, Structural)]
pub enum EvalError {
    DivisionByZero,
    /// The left operand, the operator and the right operand of an
    /// operation whose result does not fit in an `i64`.
    Overflow(i64, OperationToken, i64),
    NoResult,
    MalformedExpression,
}

/// The failure of a whole evaluation: the first stage that failed, and why.
#[derive(Clone, Copy, Debug, PartialEq, Eq, Structural)]
pub enum EvaluationError {
    Lex(LexError),
    Syntax(SyntaxError),
    Paren(ParenError),
    Eval(EvalError),
}

/// Whether an exact result is representable as an `i64`.
pub open spec fn fits_i64(x: int) -> bool {
    i64::MIN <= x <= i64::MAX
}

/// Integer division rounding toward zero.
pub open spec fn trunc_div(x: int, d: int) -> int {
    let q = (if x < 0 { -x } else { x }) / (if d < 0 { -d } else { d });
    if (x < 0) == (d < 0) { q } else { -q }
}

/// The operator that a character denotes, if any.
pub open spec fn operator_of(c: char) -> Option<OperationToken> {
    if c == '+' {
        Some(OperationToken::Add)
    } else if c == '-' {
        Some(OperationToken::Sub)
    } else if c == '*' {
        Some(OperationToken::Mul)
    } else if c == '/' {
        Some(OperationToken::Div)
    } else {
        None
    }
}

impl OperationToken {
    /// The character that denotes the operator.
    pub open spec fn symbol(self) -> char {
        match self {
            OperationToken::Add => '+',
            OperationToken::Sub => '-',
            OperationToken::Mul => '*',
            OperationToken::Div => '/',
        }
    }

    /// Binding strength: 1 for `+` and `-`, 2 for `*` and `/`.
    pub open spec fn priority(self) -> u8 {
        match self {
            OperationToken::Add | OperationToken::Sub => 1,
            OperationToken::Mul | OperationToken::Div => 2,
        }
    }

    /// The exact result of the operator on `a` and `b`.
    pub open spec fn exact(self, a: int, b: int) -> int {
        match self {
            OperationToken::Add => a + b,
            OperationToken::Sub => a - b,
            OperationToken::Mul => a * b,
            OperationToken::Div => trunc_div(a, b),
        }
    }

    /// The checked result of `a op b`.
    pub open spec fn apply(self, a: i64, b: i64) -> Result<i64, EvalError> {
        if self == OperationToken::Div && b == 0 {
            Err(EvalError::DivisionByZero)
        } else if fits_i64(self.exact(a as int, b as int)) {
            Ok(self.exact(a as int, b as int) as i64)
        } else {
            Err(EvalError::Overflow(a, self, b))
        }
    }

    /// The operator that `name` denotes; `None` for any other character.
    pub fn new(name: char) -> (r: Option<OperationToken>)
        ensures
            r == operator_of(name),
    {
        if name == '+' {
            Some(OperationToken::Add)
        } else if name == '-' {
            Some(OperationToken::Sub)
        } else if name == '*' {
            Some(OperationToken::Mul)
        } else if name == '/' {
            Some(OperationToken::Div)
        } else {
            None
        }
    }

    pub fn get_name(&self) -> (r: char)
        ensures
            r == self.symbol(),
    {
        match self {
            OperationToken::Add => '+',
            OperationToken::Sub => '-',
            OperationToken::Mul => '*',
            OperationToken::Div => '/',
        }
    }

    pub fn get_priority(&self) -> (r: u8)
        ensures
            r == self.priority(),
    {
        match self {
            OperationToken::Add | OperationToken::Sub => 1,
            OperationToken::Mul | OperationToken::Div => 2,
        }
    }

    /// Applies the operator with checked arithmetic; division truncates
    /// toward zero.
    pub fn execute(&self, op1: i64, op2: i64) -> (r: Result<i64, EvalError>)
        ensures
            r == self.apply(op1, op2),
    {
        let value = match self {
            OperationToken::Add => op1.checked_add(op2),
            OperationToken::Sub => op1.checked_sub(op2),
            OperationToken::Mul => op1.checked_mul(op2),
            OperationToken::Div => {
                if op2 == 0 {
                    return Err(EvalError::DivisionByZero);
                }
                op1.checked_div(op2)
            },
        };
        match value {
            Some(v) => Ok(v),
            None => Err(EvalError::Overflow(op1, *self, op2)),
        }
    }
}

impl NumberToken {
    pub fn new(value: i64) -> (r: NumberToken)
        ensures
            r.value == value,
    {
        NumberToken { value }
    }

    pub fn get_value(&self) -> (r: i64)
        ensures
            r == self.value,
    {
        self.value
    }
}

impl ParenthesisToken {
    /// The kind of the parenthesis.
    pub open spec fn kind(self) -> TokenType {
        match self {
            ParenthesisToken::Opened => TokenType::OpenedParenthesis,
            ParenthesisToken::Closed => TokenType::ClosedParenthesis,
        }
    }

    pub fn new_opened() -> (r: ParenthesisToken)
        ensures
            r == ParenthesisToken::Opened,
    {
        ParenthesisToken::Opened
    }

    pub fn new_closed() -> (r: ParenthesisToken)
        ensures
            r == ParenthesisToken::Closed,
    {
        ParenthesisToken::Closed
    }

    pub fn get_type(&self) -> (r: TokenType)
        ensures
            r == self.kind(),
    {
        match self {
            ParenthesisToken::Opened => TokenType::OpenedParenthesis,
            ParenthesisToken::Closed => TokenType::ClosedParenthesis,
        }
    }
}

/// The token `(`.
pub open spec fn open_token() -> Token {
    Token::Parenthesis(ParenthesisToken::Opened)
}

/// The token `)`.
pub open spec fn close_token() -> Token {
    Token::Parenthesis(ParenthesisToken::Closed)
}

/// The token for the number `v`.
pub open spec fn number_token(v: i64) -> Token {
    Token::Number(NumberToken { value: v })
}

impl Token {
    /// The kind of the token.
    pub open spec fn kind(self) -> TokenType {
        match self {
            Token::Number(_) => TokenType::Number,
            Token::Operation(_) => TokenType::Operation,
            Token::Parenthesis(p) => p.kind(),
        }
    }

    pub fn new_number(number: i64) -> (r: Token)
        ensures
            r == number_token(number),
    {
        Token::Number(NumberToken::new(number))
    }

    pub fn new_operation(op: OperationToken) -> (r: Token)
        ensures
            r == Token::Operation(op),
    {
        Token::Operation(op)
    }

    pub fn new_open_parenthesis() -> (r: Token)
        ensures
            r == open_token(),
    {
        Token::Parenthesis(ParenthesisToken::new_opened())
    }

    pub fn new_closed_parenthesis() -> (r: Token)
        ensures
            r == close_token(),
    {
        Token::Parenthesis(ParenthesisToken::new_closed())
    }

    /// The value of a number token; `None` for any other token.
    pub fn get_number(&self) -> (r: Option<i64>)
        ensures
            r == (match self {
                Token::Number(n) => Some(n.value),
                _ => None,
            }),
    {
        match self {
            Token::Number(n) => Some(n.get_value()),
            _ => None,
        }
    }

    /// The symbol of an operator token; `None` for any other token.
    pub fn get_operation_name(&self) -> (r: Option<char>)
        ensures
            r == (match self {
                Token::Operation(op) => Some(op.symbol()),
                _ => None,
            }),
    {
        match self {
            Token::Operation(op) => Some(op.get_name()),
            _ => None,
        }
    }

    /// The priority of an operator token; `None` for any other token.
    pub fn get_operation_priority(&self) -> (r: Option<u8>)
        ensures
            r == (match self {
                Token::Operation(op) => Some(op.priority()),
                _ => None,
            }),
    {
        match self {
            Token::Operation(op) => Some(op.get_priority()),
            _ => None,
        }
    }

    pub fn get_type(&self) -> (r: TokenType)
        ensures
            r == self.kind(),
    {
        match self {
            Token::Number(_) => TokenType::Number,
            Token::Operation(_) => TokenType::Operation,
            Token::Parenthesis(p) => p.get_type(),
        }
    }

    /// Applies an operator token to two operands; any other token is no
    /// operation, and gives `MalformedExpression`.
    pub fn execute(&self, op1: i64, op2: i64) -> (r: Result<i64, EvalError>)
        ensures
            r == (match self {
                Token::Operation(op) => op.apply(op1, op2),
                _ => Err(EvalError::MalformedExpression),
            }),
    {
        match self {
            Token::Operation(op) => op.execute(op1, op2),
            _ => Err(EvalError::MalformedExpression),
        }
    }
}

} // verus!
