//! Tokens of the surface language, as the lexer produces them.

use vstd::prelude::*;
use vstd::utf8::encode_utf8;

verus! {

/// One lexical token.
///
/// `Ident` carries the identifier's text; `Int` carries the decoded decimal
/// value. A byte that starts no token (including a stray NUL inside the
/// input) lexes as `Illegal`.
#[derive(Debug, PartialEq, Clone)]
pub enum Token {
    Illegal,
    Eof,
    Ident(String),
    Int(i64),
    Bool(bool),
    Assign,
    Plus,
    Minus,
    Bang,
    Asterisk,
    Slash,
    LessThan,
    GreaterThan,
    Equal,
    NotEqual,
    Comma,
    Semicolon,
    Lparen,
    Rparen,
    Lbrace,
    Rbrace,
    Function,
    Let,
    If,
    Else,
    Return,
    Assert,
}

/// The mathematical shape of a token: identifier text as its UTF-8 bytes,
/// integers unbounded.
pub ghost enum TokenV {
    Illegal,
    Eof,
    Ident { name: Seq<u8> },
    Int { value: int },
    Bool { value: bool },
    Assign,
    Plus,
    Minus,
    Bang,
    Asterisk,
    Slash,
    LessThan,
    GreaterThan,
    Equal,
    NotEqual,
    Comma,
    Semicolon,
    Lparen,
    Rparen,
    Lbrace,
    Rbrace,
    Function,
    Let,
    If,
    Else,
    Return,
    Assert,
}

impl DeepView for Token {
    type V = TokenV;

    open spec fn deep_view(&self) -> TokenV {
        match self {
            Token::Illegal => TokenV::Illegal,
            Token::Eof => TokenV::Eof,
            Token::Ident(s) => TokenV::Ident { name: encode_utf8(s@) },
            Token::Int(v) => TokenV::Int { value: *v as int },
            Token::Bool(b) => TokenV::Bool { value: *b },
            Token::Assign => TokenV::Assign,
            Token::Plus => TokenV::Plus,
            Token::Minus => TokenV::Minus,
            Token::Bang => TokenV::Bang,
            Token::Asterisk => TokenV::Asterisk,
            Token::Slash => TokenV::Slash,
            Token::LessThan => TokenV::LessThan,
            Token::GreaterThan => TokenV::GreaterThan,
            Token::Equal => TokenV::Equal,
            Token::NotEqual => TokenV::NotEqual,
            Token::Comma => TokenV::Comma,
            Token::Semicolon => TokenV::Semicolon,
            Token::Lparen => TokenV::Lparen,
            Token::Rparen => TokenV::Rparen,
            Token::Lbrace => TokenV::Lbrace,
            Token::Rbrace => TokenV::Rbrace,
            Token::Function => TokenV::Function,
            Token::Let => TokenV::Let,
            Token::If => TokenV::If,
            Token::Else => TokenV::Else,
            Token::Return => TokenV::Return,
            Token::Assert => TokenV::Assert,
        }
    }
}

} // verus!
