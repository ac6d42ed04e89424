use sexpr::error::{Expectation, ParseError};
use sexpr::lexer::{lex, Token};
use sexpr::node::Node;
use sexpr::parser::{Parser, Scanner};

fn parse_text(input: &str) -> Result<Node, ParseError> {
    Parser::new(Scanner::new(lex(input))).parse()
}

fn leaf(c: char) -> Node {
    Node::Char(c)
}

fn pair(l: Node, r: Node) -> Node {
    Node::Pair(Box::new(l), Box::new(r))
}

#[test]
fn single_atom_parses_to_leaf() {
    assert_eq!(parse_text("x"), Ok(leaf('x')));
    assert_eq!(parse_text("9"), Ok(leaf('9')));
    assert_eq!(parse_text("+"), Ok(leaf('+')));
}

#[test]
fn pair_of_atoms_parses() {
    assert_eq!(parse_text("(a b)"), Ok(pair(leaf('a'), leaf('b'))));
}

#[test]
fn nested_pair_parses() {
    assert_eq!(
        parse_text("((a b) c)"),
        Ok(pair(pair(leaf('a'), leaf('b')), leaf('c')))
    );
}

#[test]
fn composing_two_valid_expressions_parses_to_their_pair() {
    let l = parse_text("(x y)").unwrap();
    let r = parse_text("z").unwrap();
    assert_eq!(parse_text("((x y) z)"), Ok(pair(l, r)));
}

#[test]
fn empty_input_is_end_of_input() {
    assert_eq!(parse_text(""), Err(ParseError::EndOfInput));
}

#[test]
fn lone_open_marker_is_end_of_input() {
    assert_eq!(parse_text("("), Err(ParseError::EndOfInput));
}

#[test]
fn missing_close_marker_is_end_of_input() {
    assert_eq!(parse_text("(a b"), Err(ParseError::EndOfInput));
}

#[test]
fn trailing_separator_is_trailing_input() {
    assert_eq!(parse_text("(a b) "), Err(ParseError::TrailingInput));
}

#[test]
fn extra_close_marker_is_trailing_input() {
    assert_eq!(parse_text("(a b))"), Err(ParseError::TrailingInput));
}

#[test]
fn two_atoms_are_trailing_input() {
    assert_eq!(parse_text("ab"), Err(ParseError::TrailingInput));
}

#[test]
fn double_space_is_unexpected_token() {
    assert_eq!(
        parse_text("(a  b)"),
        Err(ParseError::UnexpectedToken(Expectation::Expr, Token::Space))
    );
}

#[test]
fn close_marker_first_is_unexpected_token() {
    assert_eq!(
        parse_text(")"),
        Err(ParseError::UnexpectedToken(Expectation::Expr, Token::RParen))
    );
}

#[test]
fn missing_separator_is_unexpected_token() {
    assert_eq!(
        parse_text("(ab)"),
        Err(ParseError::UnexpectedToken(Expectation::Space, Token::Char('b')))
    );
}

#[test]
fn missing_right_expression_is_unexpected_token() {
    assert_eq!(
        parse_text("(a )"),
        Err(ParseError::UnexpectedToken(Expectation::Expr, Token::RParen))
    );
}

#[test]
fn parse_char_on_open_marker_fails() {
    let mut p = Parser::new(Scanner::new(lex("(")));
    assert_eq!(
        p.parse_char(),
        Err(ParseError::UnexpectedToken(Expectation::Atom, Token::LParen))
    );
}

#[test]
fn parse_pair_on_atom_fails() {
    let mut p = Parser::new(Scanner::new(lex("a")));
    assert_eq!(
        p.parse_pair(),
        Err(ParseError::UnexpectedToken(Expectation::LParen, Token::Char('a')))
    );
}

#[test]
fn parse_node_consumes_one_expression() {
    let mut p = Parser::new(Scanner::new(lex("(a b) c")));
    assert_eq!(p.parse_node(), Ok(pair(leaf('a'), leaf('b'))));
}

#[test]
fn scanner_peek_take_remaining() {
    let mut s = Scanner::new(lex("(a"));
    assert_eq!(s.remaining(), 2);
    assert_eq!(s.peek(), Ok(Token::LParen));
    assert_eq!(s.remaining(), 2);
    assert_eq!(s.take(), Ok(Token::LParen));
    assert_eq!(s.take(), Ok(Token::Char('a')));
    assert_eq!(s.remaining(), 0);
    assert_eq!(s.peek(), Err(ParseError::EndOfInput));
    assert_eq!(s.take(), Err(ParseError::EndOfInput));
}

#[test]
fn error_messages_match_each_condition() {
    assert_eq!(
        ParseError::UnexpectedToken(Expectation::LParen, Token::Space).message(),
        "Expected a '('"
    );
    assert_eq!(
        ParseError::UnexpectedToken(Expectation::RParen, Token::Space).message(),
        "Expected a ')'"
    );
    assert_eq!(
        ParseError::UnexpectedToken(Expectation::Space, Token::RParen).message(),
        "Expected a ' '"
    );
    assert_eq!(
        ParseError::UnexpectedToken(Expectation::Atom, Token::LParen).message(),
        "Expected a Char"
    );
    assert_eq!(
        ParseError::UnexpectedToken(Expectation::Expr, Token::RParen).message(),
        "Expected ( or a Char"
    );
    assert_eq!(ParseError::EndOfInput.message(), "Incomplete input");
    assert_eq!(ParseError::TrailingInput.message(), "Unexpected extra tokens");
}
