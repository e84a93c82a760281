use rlox::expr::Expr;
use rlox::interpreter::Interpreter;
use rlox::parser::Parser;
use rlox::token::{Literal, Token, TokenType};
use rlox::value::Value;

fn t(tt: TokenType, lex: &str) -> Token {
    Token::new(tt, lex.to_string(), None, 1)
}

fn num(x: f64, lex: &str) -> Token {
    Token::new(TokenType::Number, lex.to_string(), Some(Literal::Number(x.to_bits())), 1)
}

fn eof() -> Token {
    Token::new(TokenType::Eof, String::new(), None, 1)
}

fn eval_tokens(mut toks: Vec<Token>) -> Value {
    toks.push(eof());
    let mut p = Parser::new(toks);
    let e: Expr = p.expression().unwrap();
    let mut it = Interpreter::new();
    it.evaluate(e).unwrap()
}

#[test]
fn test_eval_complex_expression() {
    // 1+2 * (8/4)
    let toks = vec![
        num(1.0, "1"),
        t(TokenType::Plus, "+"),
        num(2.0, "2"),
        t(TokenType::Star, "*"),
        t(TokenType::LeftParen, "("),
        num(8.0, "8"),
        t(TokenType::Slash, "/"),
        num(4.0, "4"),
        t(TokenType::RightParen, ")"),
    ];
    assert_eq!(eval_tokens(toks), Value::Number((5.0f64).to_bits()));
}

#[test]
fn test_eval_binary() {
    let plus = vec![num(1.0, "1"), t(TokenType::Plus, "+"), num(2.0, "2")];
    assert_eq!(eval_tokens(plus), Value::Number((3.0f64).to_bits()));
    let minus = vec![num(1.0, "1"), t(TokenType::Minus, "-"), num(1.0, "1")];
    assert_eq!(eval_tokens(minus), Value::Number((0.0f64).to_bits()));
    let mul = vec![num(10.0, "10"), t(TokenType::Star, "*"), num(10.0, "10")];
    assert_eq!(eval_tokens(mul), Value::Number((100.0f64).to_bits()));
    let div = vec![num(5.0, "5"), t(TokenType::Slash, "/"), num(2.0, "2")];
    assert_eq!(eval_tokens(div), Value::Number((2.5f64).to_bits()));
}

#[test]
fn test_eval_unary() {
    let neg = vec![t(TokenType::Minus, "-"), num(1.0, "1")];
    assert_eq!(eval_tokens(neg), Value::Number((-1.0f64).to_bits()));
    let bang = vec![
        t(TokenType::Bang, "!"),
        t(TokenType::LeftParen, "("),
        Token::new(TokenType::True, "true".to_string(), Some(Literal::Bool(true)), 1),
        t(TokenType::RightParen, ")"),
    ];
    assert_eq!(eval_tokens(bang), Value::Boolean(false));
}

#[test]
fn test_eval_variable() {
    // var a = 1; print a;  -> prints 1
    let toks = vec![
        t(TokenType::Var, "var"),
        t(TokenType::Identifier, "a"),
        t(TokenType::Equal, "="),
        num(1.0, "1"),
        t(TokenType::Semicolon, ";"),
        t(TokenType::Print, "print"),
        t(TokenType::Identifier, "a"),
        t(TokenType::Semicolon, ";"),
        eof(),
    ];
    let mut p = Parser::new(toks);
    let stmts = p.parse();
    assert_eq!(stmts.len(), 2);
    assert!(!p.had_error());
    match &stmts[0] {
        rlox::stmt::Stmt::Var { name, initializer } => {
            assert_eq!(name.lexeme, "a");
            match initializer.as_deref() {
                Some(Expr::Literal { value }) => {
                    assert_eq!(*value, Literal::Number((1.0f64).to_bits()));
                },
                other => panic!("unexpected initializer: {:?}", other),
            }
        },
        other => panic!("expected a var declaration, got {:?}", other),
    }
    match &stmts[1] {
        rlox::stmt::Stmt::Print { expression } => match expression.as_ref() {
            Expr::Variable { name } => assert_eq!(name.lexeme, "a"),
            other => panic!("expected a variable reference, got {:?}", other),
        },
        other => panic!("expected a print statement, got {:?}", other),
    }
    let mut it = Interpreter::new();
    it.interpret(stmts).unwrap();
    assert_eq!(it.take_output(), vec!["1".to_string()]);
}

fn strlit(s: &str) -> Token {
    Token::new(
        TokenType::Str,
        format!("\"{}\"", s),
        Some(Literal::String(s.to_string())),
        1,
    )
}

#[test]
fn test_eval_equal_not_equal() {
    let same = vec![strlit("hello"), t(TokenType::EqualEqual, "=="), strlit("hello")];
    assert_eq!(eval_tokens(same), Value::Boolean(true));
    let diff = vec![strlit("hello"), t(TokenType::EqualEqual, "=="), strlit("hello!")];
    assert_eq!(eval_tokens(diff), Value::Boolean(false));
}

#[test]
fn test_eval_literal() {
    let toks = vec![
        t(TokenType::LeftParen, "("),
        Token::new(TokenType::True, "true".to_string(), Some(Literal::Bool(true)), 1),
        t(TokenType::RightParen, ")"),
    ];
    assert_eq!(eval_tokens(toks), Value::Boolean(true));
}

#[test]
fn test_parse_error_recovery() {
    // var a = 1; var = 2; print a;  -> one diagnostic, the two good
    // statements still parse and run.
    let toks = vec![
        t(TokenType::Var, "var"),
        t(TokenType::Identifier, "a"),
        t(TokenType::Equal, "="),
        num(1.0, "1"),
        t(TokenType::Semicolon, ";"),
        t(TokenType::Var, "var"),
        t(TokenType::Equal, "="),
        num(2.0, "2"),
        t(TokenType::Semicolon, ";"),
        t(TokenType::Print, "print"),
        t(TokenType::Identifier, "a"),
        t(TokenType::Semicolon, ";"),
        eof(),
    ];
    let mut p = Parser::new(toks);
    let stmts = p.parse();
    assert_eq!(stmts.len(), 2);
    assert_eq!(p.errors().len(), 1);
    let mut it = Interpreter::new();
    it.interpret(stmts).unwrap();
    assert_eq!(it.take_output(), vec!["1".to_string()]);
}
