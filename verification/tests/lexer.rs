use sexpr::error::{Expectation, ParseError};
use sexpr::lexer::{lex, Token};

#[test]
fn lex_maps_each_character() {
    assert_eq!(
        lex("(a b)"),
        vec![
            Token::LParen,
            Token::Char('a'),
            Token::Space,
            Token::Char('b'),
            Token::RParen,
        ]
    );
}

#[test]
fn lex_empty_input_gives_no_tokens() {
    assert_eq!(lex(""), Vec::<Token>::new());
}

#[test]
fn lex_never_fails_on_stray_markers() {
    assert_eq!(
        lex(") (x"),
        vec![
            Token::RParen,
            Token::Space,
            Token::LParen,
            Token::Char('x'),
        ]
    );
}

#[test]
fn lex_treats_multibyte_character_as_one_atom() {
    assert_eq!(lex("\u{03b1}"), vec![Token::Char('\u{03b1}')]);
}

#[test]
fn lex_double_space_gives_two_separators() {
    assert_eq!(
        lex("a  b"),
        vec![
            Token::Char('a'),
            Token::Space,
            Token::Space,
            Token::Char('b'),
        ]
    );
}

#[test]
fn expect_lparen_accepts_only_open_marker() {
    assert_eq!(Token::LParen.expect_lparen(), Ok(()));
    assert_eq!(
        Token::RParen.expect_lparen(),
        Err(ParseError::UnexpectedToken(Expectation::LParen, Token::RParen))
    );
    assert_eq!(
        Token::Char('a').expect_lparen(),
        Err(ParseError::UnexpectedToken(Expectation::LParen, Token::Char('a')))
    );
}

#[test]
fn expect_rparen_accepts_only_close_marker() {
    assert_eq!(Token::RParen.expect_rparen(), Ok(()));
    assert_eq!(
        Token::Space.expect_rparen(),
        Err(ParseError::UnexpectedToken(Expectation::RParen, Token::Space))
    );
}

#[test]
fn expect_space_accepts_only_separator() {
    assert_eq!(Token::Space.expect_space(), Ok(()));
    assert_eq!(
        Token::Char('q').expect_space(),
        Err(ParseError::UnexpectedToken(Expectation::Space, Token::Char('q')))
    );
}
