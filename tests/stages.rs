use reverse::calc::calculate;
use reverse::lexer::{clear, number_parse, operation_parse, parentheses_parse, tokenizing};
use reverse::normalize::parsing;
use reverse::shunting::postfix;
use reverse::{
    EvalError, LexError, NumberToken, OperationToken, ParenError, ParenthesisToken, SyntaxError,
    Token, TokenType,
};

fn num(v: i64) -> Token {
    Token::new_number(v)
}

fn op(c: char) -> Token {
    Token::new_operation(OperationToken::new(c).unwrap())
}

fn open() -> Token {
    Token::new_open_parenthesis()
}

fn close() -> Token {
    Token::new_closed_parenthesis()
}

#[test]
fn operation_token_symbols_and_priorities() {
    assert_eq!(OperationToken::new('+'), Some(OperationToken::Add));
    assert_eq!(OperationToken::new('-'), Some(OperationToken::Sub));
    assert_eq!(OperationToken::new('*'), Some(OperationToken::Mul));
    assert_eq!(OperationToken::new('/'), Some(OperationToken::Div));
    assert_eq!(OperationToken::new('%'), None);
    assert_eq!(OperationToken::Mul.get_name(), '*');
    assert_eq!(OperationToken::Add.get_priority(), 1);
    assert_eq!(OperationToken::Sub.get_priority(), 1);
    assert_eq!(OperationToken::Mul.get_priority(), 2);
    assert_eq!(OperationToken::Div.get_priority(), 2);
}

#[test]
fn operation_token_execute() {
    assert_eq!(OperationToken::Add.execute(2, 3), Ok(5));
    assert_eq!(OperationToken::Sub.execute(2, 3), Ok(-1));
    assert_eq!(OperationToken::Mul.execute(-4, 3), Ok(-12));
    assert_eq!(OperationToken::Div.execute(-9, 2), Ok(-4));
    assert_eq!(OperationToken::Div.execute(1, 0), Err(EvalError::DivisionByZero));
    assert_eq!(
        OperationToken::Sub.execute(i64::MIN, 1),
        Err(EvalError::Overflow(i64::MIN, OperationToken::Sub, 1))
    );
}

#[test]
fn number_and_parenthesis_tokens() {
    assert_eq!(NumberToken::new(7).get_value(), 7);
    assert_eq!(ParenthesisToken::new_opened().get_type(), TokenType::OpenedParenthesis);
    assert_eq!(ParenthesisToken::new_closed().get_type(), TokenType::ClosedParenthesis);
}

#[test]
fn token_accessors() {
    assert_eq!(num(4).get_number(), Some(4));
    assert_eq!(op('+').get_number(), None);
    assert_eq!(op('/').get_operation_name(), Some('/'));
    assert_eq!(num(4).get_operation_name(), None);
    assert_eq!(op('*').get_operation_priority(), Some(2));
    assert_eq!(open().get_operation_priority(), None);
    assert_eq!(num(1).get_type(), TokenType::Number);
    assert_eq!(op('-').get_type(), TokenType::Operation);
    assert_eq!(open().get_type(), TokenType::OpenedParenthesis);
    assert_eq!(close().get_type(), TokenType::ClosedParenthesis);
    assert_eq!(op('-').execute(5, 7), Ok(-2));
    assert_eq!(num(5).execute(5, 7), Err(EvalError::MalformedExpression));
}

#[test]
fn clear_removes_whitespace() {
    assert_eq!(clear(&" 1 +\t2\n".to_string()), vec!['1', '+', '2']);
}

#[test]
fn character_parsers() {
    assert_eq!(number_parse(None, '7'), Some(7));
    assert_eq!(number_parse(Some(12), '3'), Some(123));
    assert_eq!(number_parse(Some(922337203685477580), '7'), Some(i64::MAX));
    assert_eq!(number_parse(Some(922337203685477580), '8'), None);
    assert_eq!(operation_parse('*'), Some(op('*')));
    assert_eq!(operation_parse('('), None);
    assert_eq!(parentheses_parse(')'), Some(close()));
    assert_eq!(parentheses_parse('+'), None);
}

#[test]
fn tokenizing_groups_digits() {
    let text: Vec<char> = "12*(3-45)".chars().collect();
    assert_eq!(
        tokenizing(&text),
        Ok(vec![num(12), op('*'), open(), num(3), op('-'), num(45), close()])
    );
    let bad: Vec<char> = "1+x".chars().collect();
    assert_eq!(tokenizing(&bad), Err(LexError::InvalidCharacter('x', 2)));
}

#[test]
fn parsing_rewrites_unary_minus() {
    assert_eq!(
        parsing(vec![num(3), op('-'), op('-'), num(2)]),
        Ok(vec![num(3), op('-'), open(), num(-1), op('*'), num(2), close()])
    );
    assert_eq!(
        parsing(vec![op('-'), num(5)]),
        Ok(vec![open(), num(-1), op('*'), num(5), close()])
    );
    assert_eq!(parsing(vec![open(), op('+'), num(5), close()]), Ok(vec![open(), num(5), close()]));
    assert_eq!(
        parsing(vec![op('-'), open(), num(2), op('+'), num(3), close()]),
        Ok(vec![open(), num(-1), op('*'), open(), num(2), op('+'), num(3), close(), close()])
    );
    assert_eq!(
        parsing(vec![op('-'), op('-'), num(2)]),
        Ok(vec![open(), num(-1), op('*'), open(), num(-1), op('*'), num(2), close(), close()])
    );
    assert_eq!(parsing(vec![]), Ok(vec![]));
    assert_eq!(parsing(vec![num(1), op('+')]), Err(SyntaxError::TrailingOperator));
    assert_eq!(
        parsing(vec![open(), op('/'), num(1)]),
        Err(SyntaxError::UnexpectedOperator(1))
    );
}

#[test]
fn postfix_orders_by_priority() {
    assert_eq!(
        postfix(vec![num(2), op('*'), num(3), op('+'), num(4)]),
        Ok(vec![num(2), num(3), op('*'), num(4), op('+')])
    );
    assert_eq!(
        postfix(vec![num(2), op('*'), open(), num(3), op('+'), num(4), close()]),
        Ok(vec![num(2), num(3), num(4), op('+'), op('*')])
    );
    assert_eq!(
        postfix(vec![num(1), op('-'), num(2), op('-'), num(3)]),
        Ok(vec![num(1), num(2), op('-'), num(3), op('-')])
    );
    assert_eq!(postfix(vec![num(1), close()]), Err(ParenError::Unbalanced));
    assert_eq!(postfix(vec![open(), num(1)]), Err(ParenError::Unbalanced));
}

#[test]
fn calculate_postfix() {
    assert_eq!(calculate(vec![num(2), num(3), op('*'), num(4), op('+')]), Ok(10));
    assert_eq!(calculate(vec![num(8), num(2), op('/')]), Ok(4));
    assert_eq!(calculate(vec![]), Err(EvalError::NoResult));
    assert_eq!(calculate(vec![op('+')]), Err(EvalError::MalformedExpression));
    assert_eq!(calculate(vec![num(1), num(2)]), Err(EvalError::MalformedExpression));
    assert_eq!(calculate(vec![num(1), open()]), Err(EvalError::MalformedExpression));
}
