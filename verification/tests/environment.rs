use rlox::environment::Environment;
use rlox::token::{Token, TokenType};
use rlox::value::Value;

fn name(s: &str) -> Token {
    Token::new(TokenType::Identifier, s.to_string(), None, 1)
}

#[test]
fn test_new() {
    // A fresh environment is a single global frame: nothing encloses it
    // and no name resolves in it.
    let mut env = Environment::new();
    assert!(env.get_enclosing_env().is_none());
    assert!(env.get(name("a")).is_err());
}

#[test]
fn test_new_enclosing() {
    // A child scope sees the parent's bindings, and its enclosing chain
    // is the parent itself.
    let mut env = Environment::new();
    env.define("a".to_string(), Value::Number((1.0f64).to_bits()));
    let mut child = Environment::new_enclosing(env);
    assert_eq!(child.get(name("a")).unwrap(), Value::Number((1.0f64).to_bits()));
    let mut parent = *child.get_enclosing_env().unwrap();
    assert_eq!(parent.get(name("a")).unwrap(), Value::Number((1.0f64).to_bits()));
    assert!(parent.get_enclosing_env().is_none());
}
