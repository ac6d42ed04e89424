//! The lexer: raw text to a flat sequence of tokens.
//!
//! Lexing is total and never fails: every character maps to exactly one token
//! and no character is dropped, merged, or validated against the grammar.
//! Grammar violations surface later, in the parser.

use vstd::prelude::*;
use crate::error::{Expectation, ParseError};

verus! {

/// One lexical token: a marker, a separator, or a single-character atom.
#[derive(Clone, Copy, Debug, PartialEq, Eq)]
pub enum Token {
    /// The open-marker `(`.
    LParen,
    /// A single-character atom (any character other than `(`, `)`, space).
    Char(char),
    /// The separator: exactly one space character.
    Space,
    /// The close-marker `)`.
    RParen,
}

impl Token {
    /// Succeeds exactly on the open-marker.
    pub fn expect_lparen(&self) -> (r: Result<(), ParseError>)
        ensures
            r == (match *self {
                Token::LParen => Ok::<(), ParseError>(()),
                _ => Err(ParseError::UnexpectedToken(Expectation::LParen, *self)),
            }),
    {
        if let Token::LParen = self {
            Ok(())
        } else {
            Err(ParseError::UnexpectedToken(Expectation::LParen, *self))
        }
    }

    /// Succeeds exactly on the close-marker.
    pub fn expect_rparen(&self) -> (r: Result<(), ParseError>)
        ensures
            r == (match *self {
                Token::RParen => Ok::<(), ParseError>(()),
                _ => Err(ParseError::UnexpectedToken(Expectation::RParen, *self)),
            }),
    {
        if let Token::RParen = self {
            Ok(())
        } else {
            Err(ParseError::UnexpectedToken(Expectation::RParen, *self))
        }
    }

    /// Succeeds exactly on the separator.
    pub fn expect_space(&self) -> (r: Result<(), ParseError>)
        ensures
            r == (match *self {
                Token::Space => Ok::<(), ParseError>(()),
                _ => Err(ParseError::UnexpectedToken(Expectation::Space, *self)),
            }),
    {
        if let Token::Space = self {
            Ok(())
        } else {
            Err(ParseError::UnexpectedToken(Expectation::Space, *self))
        }
    }
}

/// The fixed character-to-token mapping of the lexer.
pub open spec fn token_of(c: char) -> Token {
    if c == '(' {
        Token::LParen
    } else if c == ')' {
        Token::RParen
    } else if c == ' ' {
        Token::Space
    } else {
        Token::Char(c)
    }
}

/// What the lexer produces: one token per input character, in order.
pub open spec fn spec_lex(s: Seq<char>) -> Seq<Token> {
    s.map_values(|c: char| token_of(c))
}

/// Convert a line of input text into its token sequence.
///
/// Total: every character becomes exactly one token, left to right.
pub fn lex(input: &str) -> (r: Vec<Token>)
    ensures
        r@ == spec_lex(input@),
{
    let n = input.unicode_len();
    let mut tokens: Vec<Token> = Vec::new();
    let mut idx: usize = 0;
    while idx < n
        invariant
            n == input@.len(),
            idx <= n,
            tokens@ == spec_lex(input@.take(idx as int)),
        decreases n - idx,
    {
        let c = input.get_char(idx);
        match c {
            '(' => tokens.push(Token::LParen),
            ')' => tokens.push(Token::RParen),
            ' ' => tokens.push(Token::Space),
            _ => tokens.push(Token::Char(c)),
        }
        idx = idx + 1;
        proof {
            assert(input@.take(idx as int) =~= input@.take(idx - 1).push(input@[idx - 1]));
            assert(tokens@ =~= spec_lex(input@.take(idx as int)));
        }
    }
    proof {
        assert(input@.take(n as int) =~= input@);
    }
    tokens
}

} // verus!
