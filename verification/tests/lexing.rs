use zkdsl::lexer::Lexer;
use zkdsl::token::Token;

fn lex_all(input: &str) -> Vec<Token> {
    let mut lexer = Lexer::new(input);
    let mut tokens = Vec::new();
    loop {
        let tok = lexer.next_token();
        let done = tok == Token::Eof;
        tokens.push(tok);
        if done {
            break;
        }
    }
    tokens
}

#[test]
fn lexes_a_let_statement() {
    assert_eq!(
        lex_all("let x = 5;"),
        vec![
            Token::Let,
            Token::Ident(String::from("x")),
            Token::Assign,
            Token::Int(5),
            Token::Semicolon,
            Token::Eof,
        ]
    );
}

#[test]
fn lexes_every_keyword() {
    assert_eq!(
        lex_all("function let true false if else return assert"),
        vec![
            Token::Function,
            Token::Let,
            Token::Bool(true),
            Token::Bool(false),
            Token::If,
            Token::Else,
            Token::Return,
            Token::Assert,
            Token::Eof,
        ]
    );
}

#[test]
fn lexes_operators_and_delimiters() {
    assert_eq!(
        lex_all("= + - ! * / < > , ; ( ) { } == !="),
        vec![
            Token::Assign,
            Token::Plus,
            Token::Minus,
            Token::Bang,
            Token::Asterisk,
            Token::Slash,
            Token::LessThan,
            Token::GreaterThan,
            Token::Comma,
            Token::Semicolon,
            Token::Lparen,
            Token::Rparen,
            Token::Lbrace,
            Token::Rbrace,
            Token::Equal,
            Token::NotEqual,
            Token::Eof,
        ]
    );
}

#[test]
fn two_byte_operators_bind_without_spaces() {
    assert_eq!(
        lex_all("a==b"),
        vec![
            Token::Ident(String::from("a")),
            Token::Equal,
            Token::Ident(String::from("b")),
            Token::Eof,
        ]
    );
    assert_eq!(
        lex_all("!x != y"),
        vec![
            Token::Bang,
            Token::Ident(String::from("x")),
            Token::NotEqual,
            Token::Ident(String::from("y")),
            Token::Eof,
        ]
    );
}

#[test]
fn identifiers_may_hold_underscores_and_keyword_prefixes() {
    assert_eq!(
        lex_all("letter _tmp iffy"),
        vec![
            Token::Ident(String::from("letter")),
            Token::Ident(String::from("_tmp")),
            Token::Ident(String::from("iffy")),
            Token::Eof,
        ]
    );
}

#[test]
fn whitespace_of_every_kind_is_skipped() {
    assert_eq!(
        lex_all(" \t\r\n  42 \n"),
        vec![Token::Int(42), Token::Eof]
    );
}

#[test]
fn an_empty_input_yields_eof_forever() {
    let mut lexer = Lexer::new("");
    assert_eq!(lexer.next_token(), Token::Eof);
    assert_eq!(lexer.next_token(), Token::Eof);
}

#[test]
fn an_unknown_byte_is_illegal() {
    assert_eq!(
        lex_all("4 @ 2"),
        vec![Token::Int(4), Token::Illegal, Token::Int(2), Token::Eof]
    );
}

#[test]
fn the_largest_machine_integer_still_lexes() {
    assert_eq!(
        lex_all("9223372036854775807"),
        vec![Token::Int(i64::MAX), Token::Eof]
    );
}

#[test]
fn an_oversized_integer_literal_is_illegal() {
    assert_eq!(
        lex_all("9223372036854775808"),
        vec![Token::Illegal, Token::Eof]
    );
    assert_eq!(
        lex_all("99999999999999999999999"),
        vec![Token::Illegal, Token::Eof]
    );
}

#[test]
fn numbers_and_operators_mix() {
    assert_eq!(
        lex_all("1+20*3"),
        vec![
            Token::Int(1),
            Token::Plus,
            Token::Int(20),
            Token::Asterisk,
            Token::Int(3),
            Token::Eof,
        ]
    );
}
