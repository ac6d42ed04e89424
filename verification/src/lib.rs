//! A minimal interpreter front-end for binary-tree expressions.
//!
//! An expression is either a single letter, such as `a`, or a parenthesized
//! pair of two sub-expressions separated by one space, such as `(a b)` or
//! `((a b) c)`. The pipeline is linear: [`lexer::lex`] turns text into
//! tokens, [`parser::Parser::parse`] turns tokens into a tree, and
//! [`node::render`] turns the tree back into indented text for inspection.

pub mod error;
pub mod laws;
pub mod lexer;
pub mod node;
pub mod parser;
