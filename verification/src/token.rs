//! Lexical tokens: the typed units that the scanner produces and the parser
//! consumes.

use vstd::prelude::*;

verus! {

/// The type tag of a token.
#[derive(PartialEq, Eq, Structural, Clone, Copy, Debug)]
pub enum TokenType {
    LeftParen,
    RightParen,
    LeftBrace,
    RightBrace,
    Comma,
    Dot,
    Minus,
    Plus,
    Semicolon,
    Slash,
    Star,
    Bang,
    BangEqual,
    Equal,
    EqualEqual,
    Greater,
    GreaterEqual,
    Less,
    LessEqual,
    Identifier,
    Str,
    Number,
    And,
    Class,
    Else,
    False,
    Fun,
    For,
    If,
    Nil,
    Or,
    Print,
    Return,
    Super,
    This,
    True,
    Var,
    While,
    Eof,
}

/// The value a token carries: the text of a string literal, the binary64
/// pattern of a number literal, a boolean, or nil.
#[derive(PartialEq, Debug)]
pub enum Literal {
    String(String),
    Number(u64),
    Bool(bool),
    Nil,
}

impl Clone for Literal {
    /// A clone of a literal is the same literal.
    fn clone(&self) -> (res: Self)
        ensures
            res == *self,
    {
        match self {
            Literal::String(s) => Literal::String(s.clone()),
            Literal::Number(n) => Literal::Number(*n),
            Literal::Bool(b) => Literal::Bool(*b),
            Literal::Nil => Literal::Nil,
        }
    }
}

/// One lexical unit: its type tag, its original text, the literal value it
/// carries (if any), and the source line it came from.
#[derive(PartialEq, Debug)]
pub struct Token {
    pub token_type: TokenType,
    pub lexeme: String,
    pub literal: Option<Literal>,
    pub line: i32,
}

impl Token {
    pub fn new(token_type: TokenType, lexeme: String, literal: Option<Literal>, line: i32) -> (t:
        Token)
        ensures
            t == (Token { token_type, lexeme, literal, line }),
    {
        Token { token_type, lexeme, literal, line }
    }
}

impl Clone for Token {
    /// A clone of a token is the same token.
    fn clone(&self) -> (res: Self)
        ensures
            res == *self,
    {
        Token {
            token_type: self.token_type,
            lexeme: self.lexeme.clone(),
            literal: match &self.literal {
                Some(l) => Some(l.clone()),
                None => None,
            },
            line: self.line,
        }
    }
}


/// The mathematical model of a literal.
pub enum LitM {
    Str(Seq<char>),
    Num(u64),
    Bool(bool),
    Nil,
}

impl View for Literal {
    type V = LitM;

    open spec fn view(&self) -> LitM {
        match self {
            Literal::String(s) => LitM::Str(s@),
            Literal::Number(n) => LitM::Num(*n),
            Literal::Bool(b) => LitM::Bool(*b),
            Literal::Nil => LitM::Nil,
        }
    }
}

/// The mathematical model of a token.
pub struct TokM {
    pub token_type: TokenType,
    pub lexeme: Seq<char>,
    pub literal: Option<LitM>,
    pub line: i32,
}

impl View for Token {
    type V = TokM;

    open spec fn view(&self) -> TokM {
        TokM {
            token_type: self.token_type,
            lexeme: self.lexeme@,
            literal: match self.literal {
                Some(l) => Some(l@),
                None => None,
            },
            line: self.line,
        }
    }
}

} // verus!
