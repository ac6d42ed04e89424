//! The parser's error taxonomy.
//!
//! Every failure of the parser is one of three conditions: the next token was
//! of the wrong kind, the input ended while a grammar rule still needed a
//! token, or the grammar rule finished with tokens left over.

use vstd::prelude::*;
use crate::lexer::Token;

verus! {

/// What a grammar rule was waiting for when it met the wrong token.
#[derive(Clone, Copy, Debug, PartialEq, Eq)]
pub enum Expectation {
    /// An open-marker `(` was required.
    LParen,
    /// A close-marker `)` was required.
    RParen,
    /// A separator (single space) was required.
    Space,
    /// A single-character atom was required.
    Atom,
    /// The start of an expression (`(` or an atom) was required.
    Expr,
}

/// Why a parse was aborted. Parsing is all-or-nothing: the first structural
/// mismatch produces one of these and no partial tree.
#[derive(Clone, Copy, Debug, PartialEq, Eq)]
pub enum ParseError {
    /// The scanner found `found` where the grammar required `expected`.
    UnexpectedToken(Expectation, Token),
    /// The scanner was asked for a token but none remained.
    EndOfInput,
    /// The grammar rule completed but unconsumed tokens remain.
    TrailingInput,
}

impl ParseError {
    /// A fixed descriptive message for each failure condition.
    pub fn message(&self) -> (m: &'static str)
        ensures
            m@ == (match *self {
                ParseError::UnexpectedToken(Expectation::LParen, _) => "Expected a '('"@,
                ParseError::UnexpectedToken(Expectation::RParen, _) => "Expected a ')'"@,
                ParseError::UnexpectedToken(Expectation::Space, _) => "Expected a ' '"@,
                ParseError::UnexpectedToken(Expectation::Atom, _) => "Expected a Char"@,
                ParseError::UnexpectedToken(Expectation::Expr, _) => "Expected ( or a Char"@,
                ParseError::EndOfInput => "Incomplete input"@,
                ParseError::TrailingInput => "Unexpected extra tokens"@,
            }),
    {
        match self {
            ParseError::UnexpectedToken(Expectation::LParen, _) => "Expected a '('",
            ParseError::UnexpectedToken(Expectation::RParen, _) => "Expected a ')'",
            ParseError::UnexpectedToken(Expectation::Space, _) => "Expected a ' '",
            ParseError::UnexpectedToken(Expectation::Atom, _) => "Expected a Char",
            ParseError::UnexpectedToken(Expectation::Expr, _) => "Expected ( or a Char",
            ParseError::EndOfInput => "Incomplete input",
            ParseError::TrailingInput => "Unexpected extra tokens",
        }
    }
}

} // verus!
