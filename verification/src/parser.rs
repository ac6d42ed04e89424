//! The parser: a token sequence to a tree, or an error.
//!
//! The grammar is LL(1): `expr := pair | atom`, `pair := '(' expr ' ' expr ')'`,
//! `atom := <any single-character token>`. One token of lookahead decides the
//! alternative; the first structural mismatch aborts the whole parse.
//!
//! The meaning of parsing is fixed by the spec functions [`spec_parse_node`],
//! [`spec_parse_pair`], [`spec_parse_char`] and [`spec_parse`], which consume a
//! prefix of the token sequence and return the tree built from it together
//! with the unconsumed rest, or the error the grammar demands. The recursive
//! spec functions carry a fuel argument bounding the nesting depth; nesting is
//! never deeper than the number of tokens, so fuel equal to the sequence
//! length always suffices, and [`lemma_parse_node_fuel_mono`] shows that any
//! fuel at least that large gives the same answer.

use vstd::prelude::*;
use crate::error::{Expectation, ParseError};
use crate::lexer::Token;
use crate::node::{lemma_tokens_of_nonempty, tokens_of, Node};

verus! {

/// Parse one atom from the front of `toks`: the first token must be a
/// single-character atom, which becomes a leaf; anything else is the error
/// the scanner reports.
pub open spec fn spec_parse_char(toks: Seq<Token>) -> Result<(Node, Seq<Token>), ParseError> {
    if toks.len() == 0 {
        Err(ParseError::EndOfInput)
    } else {
        match toks[0] {
            Token::Char(c) => Ok((Node::Char(c), toks.drop_first())),
            t => Err(ParseError::UnexpectedToken(Expectation::Atom, t)),
        }
    }
}

/// Parse one expression from the front of `toks`, with `fuel` bounding the
/// nesting depth. An open-marker routes to the pair rule and an atom to the
/// atom rule; any other lookahead is a syntax error.
pub open spec fn spec_parse_node_fuel(toks: Seq<Token>, fuel: nat) -> Result<
    (Node, Seq<Token>),
    ParseError,
>
    decreases fuel, 1int,
{
    if toks.len() == 0 {
        Err(ParseError::EndOfInput)
    } else {
        match toks[0] {
            Token::LParen => spec_parse_pair_fuel(toks, fuel),
            Token::Char(_) => spec_parse_char(toks),
            t => Err(ParseError::UnexpectedToken(Expectation::Expr, t)),
        }
    }
}

/// Parse one pair from the front of `toks`, with `fuel` bounding the nesting
/// depth: open-marker, expression, separator, expression, close-marker, in
/// that fixed order, failing at the first token that does not match. The
/// fuel-exhausted branch is unreachable whenever `fuel >= toks.len()`, since
/// every nesting level consumes the open-marker first.
pub open spec fn spec_parse_pair_fuel(toks: Seq<Token>, fuel: nat) -> Result<
    (Node, Seq<Token>),
    ParseError,
>
    decreases fuel, 0int,
{
    if toks.len() == 0 {
        Err(ParseError::EndOfInput)
    } else if !(toks[0] is LParen) {
        Err(ParseError::UnexpectedToken(Expectation::LParen, toks[0]))
    } else if fuel == 0 {
        Err(ParseError::EndOfInput)
    } else {
        match spec_parse_node_fuel(toks.drop_first(), (fuel - 1) as nat) {
            Err(e) => Err(e),
            Ok((left, rest1)) => {
                if rest1.len() == 0 {
                    Err(ParseError::EndOfInput)
                } else if !(rest1[0] is Space) {
                    Err(ParseError::UnexpectedToken(Expectation::Space, rest1[0]))
                } else {
                    match spec_parse_node_fuel(rest1.drop_first(), (fuel - 1) as nat) {
                        Err(e) => Err(e),
                        Ok((right, rest2)) => {
                            if rest2.len() == 0 {
                                Err(ParseError::EndOfInput)
                            } else if !(rest2[0] is RParen) {
                                Err(ParseError::UnexpectedToken(Expectation::RParen, rest2[0]))
                            } else {
                                Ok(
                                    (
                                        Node::Pair(Box::new(left), Box::new(right)),
                                        rest2.drop_first(),
                                    ),
                                )
                            }
                        },
                    }
                }
            },
        }
    }
}

/// Parse one expression from the front of `toks`.
pub open spec fn spec_parse_node(toks: Seq<Token>) -> Result<(Node, Seq<Token>), ParseError> {
    spec_parse_node_fuel(toks, toks.len())
}

/// Parse one pair from the front of `toks`.
pub open spec fn spec_parse_pair(toks: Seq<Token>) -> Result<(Node, Seq<Token>), ParseError> {
    spec_parse_pair_fuel(toks, toks.len())
}

/// The top-level parse: one expression covering the whole sequence. After the
/// grammar is satisfied, leftover tokens are an error, not silently ignored;
/// an error inside the expression propagates unchanged.
pub open spec fn spec_parse(toks: Seq<Token>) -> Result<Node, ParseError> {
    match spec_parse_node(toks) {
        Ok((n, rest)) => if rest.len() == 0 {
            Ok(n)
        } else {
            Err(ParseError::TrailingInput)
        },
        Err(e) => Err(e),
    }
}

/// Soundness of the expression rule: whatever the fuel, a successful parse
/// consumed exactly the tokens that denote the returned tree, and the rest is
/// untouched.
pub proof fn lemma_parse_node_fuel_sound(toks: Seq<Token>, fuel: nat)
    ensures
        (match spec_parse_node_fuel(toks, fuel) {
            Ok((n, rest)) => toks == tokens_of(n) + rest,
            Err(_) => true,
        }),
    decreases fuel, 1int,
{
    if toks.len() == 0 {
    } else {
        match toks[0] {
            Token::LParen => {
                lemma_parse_pair_fuel_sound(toks, fuel);
            },
            Token::Char(c) => {
                assert(toks =~= tokens_of(Node::Char(c)) + toks.drop_first());
            },
            _ => {},
        }
    }
}

/// Soundness of the pair rule: whatever the fuel, a successful parse consumed
/// exactly the tokens that denote the returned tree.
pub proof fn lemma_parse_pair_fuel_sound(toks: Seq<Token>, fuel: nat)
    ensures
        (match spec_parse_pair_fuel(toks, fuel) {
            Ok((n, rest)) => toks == tokens_of(n) + rest,
            Err(_) => true,
        }),
    decreases fuel, 0int,
{
    if toks.len() == 0 || !(toks[0] is LParen) || fuel == 0 {
    } else {
        let rest0 = toks.drop_first();
        lemma_parse_node_fuel_sound(rest0, (fuel - 1) as nat);
        match spec_parse_node_fuel(rest0, (fuel - 1) as nat) {
            Err(_) => {},
            Ok((left, rest1)) => {
                if rest1.len() == 0 || !(rest1[0] is Space) {
                } else {
                    let rest1p = rest1.drop_first();
                    lemma_parse_node_fuel_sound(rest1p, (fuel - 1) as nat);
                    match spec_parse_node_fuel(rest1p, (fuel - 1) as nat) {
                        Err(_) => {},
                        Ok((right, rest2)) => {
                            if rest2.len() == 0 || !(rest2[0] is RParen) {
                            } else {
                                let n = Node::Pair(Box::new(left), Box::new(right));
                                assert(toks =~= seq![Token::LParen] + rest0);
                                assert(rest1 =~= seq![Token::Space] + rest1p);
                                assert(rest2 =~= seq![Token::RParen] + rest2.drop_first());
                                assert(toks =~= tokens_of(n) + rest2.drop_first());
                            }
                        },
                    }
                }
            },
        }
    }
}

/// Fuel does not matter for the expression rule once it covers the sequence
/// length: nesting is never deeper than the number of tokens.
pub proof fn lemma_parse_node_fuel_mono(toks: Seq<Token>, f1: nat, f2: nat)
    requires
        f1 >= toks.len(),
        f2 >= toks.len(),
    ensures
        spec_parse_node_fuel(toks, f1) == spec_parse_node_fuel(toks, f2),
    decreases toks.len(), 1int,
{
    if toks.len() == 0 {
    } else {
        match toks[0] {
            Token::LParen => {
                lemma_parse_pair_fuel_mono(toks, f1, f2);
            },
            _ => {},
        }
    }
}

/// Fuel does not matter for the pair rule once it covers the sequence length.
pub proof fn lemma_parse_pair_fuel_mono(toks: Seq<Token>, f1: nat, f2: nat)
    requires
        f1 >= toks.len(),
        f2 >= toks.len(),
    ensures
        spec_parse_pair_fuel(toks, f1) == spec_parse_pair_fuel(toks, f2),
    decreases toks.len(), 0int,
{
    if toks.len() == 0 || !(toks[0] is LParen) {
    } else {
        let rest0 = toks.drop_first();
        lemma_parse_node_fuel_mono(rest0, (f1 - 1) as nat, rest0.len());
        lemma_parse_node_fuel_mono(rest0, (f2 - 1) as nat, rest0.len());
        match spec_parse_node_fuel(rest0, rest0.len()) {
            Err(_) => {},
            Ok((left, rest1)) => {
                lemma_parse_node_fuel_sound(rest0, rest0.len());
                lemma_tokens_of_nonempty(left);
                if rest1.len() == 0 || !(rest1[0] is Space) {
                } else {
                    let rest1p = rest1.drop_first();
                    lemma_parse_node_fuel_mono(rest1p, (f1 - 1) as nat, rest1p.len());
                    lemma_parse_node_fuel_mono(rest1p, (f2 - 1) as nat, rest1p.len());
                }
            },
        }
    }
}

/// A monotone cursor over an immutable token sequence: `peek` inspects the
/// next token without consuming it, `take` consumes and returns it, and both
/// report `EndOfInput` instead of running past the end.
pub struct Scanner {
    tokens: Vec<Token>,
    i: usize,
}

impl Scanner {
    /// The cursor never leaves the token sequence.
    pub closed spec fn wf(&self) -> bool {
        self.i <= self.tokens@.len()
    }

    /// The tokens not yet consumed, in order.
    pub closed spec fn remaining_seq(&self) -> Seq<Token> {
        self.tokens@.skip(self.i as int)
    }

    /// A scanner positioned at the start of the given tokens.
    pub fn new(tokens: Vec<Token>) -> (s: Self)
        ensures
            s.wf(),
            s.remaining_seq() == tokens@,
    {
        let s = Self { tokens, i: 0 };
        proof {
            assert(s.remaining_seq() =~= s.tokens@);
        }
        s
    }

    /// Inspect the next token without consuming it; `EndOfInput` if none
    /// remains.
    pub fn peek(&self) -> (r: Result<Token, ParseError>)
        requires
            self.wf(),
        ensures
            (match r {
                Ok(t) => self.remaining_seq().len() > 0 && t == self.remaining_seq()[0],
                Err(e) => self.remaining_seq().len() == 0 && e == ParseError::EndOfInput,
            }),
    {
        if self.i < self.tokens.len() {
            Ok(self.tokens[self.i])
        } else {
            Err(ParseError::EndOfInput)
        }
    }

    /// Consume and return the next token; `EndOfInput` if none remains.
    pub fn take(&mut self) -> (r: Result<Token, ParseError>)
        requires
            old(self).wf(),
        ensures
            final(self).wf(),
            (match r {
                Ok(t) => old(self).remaining_seq().len() > 0 && t == old(self).remaining_seq()[0]
                    && final(self).remaining_seq() == old(self).remaining_seq().drop_first(),
                Err(e) => old(self).remaining_seq().len() == 0 && e == ParseError::EndOfInput
                    && final(self).remaining_seq() == old(self).remaining_seq(),
            }),
    {
        if self.i < self.tokens.len() {
            let t = self.tokens[self.i];
            self.i = self.i + 1;
            proof {
                assert(self.remaining_seq() =~= old(self).remaining_seq().drop_first());
            }
            Ok(t)
        } else {
            Err(ParseError::EndOfInput)
        }
    }

    /// How many tokens are still unconsumed.
    pub fn remaining(&self) -> (n: usize)
        requires
            self.wf(),
        ensures
            n == self.remaining_seq().len(),
    {
        self.tokens.len() - self.i
    }
}

/// The recursive-descent parser over a scanner.
pub struct Parser {
    scanner: Scanner,
}

impl Parser {
    /// The parser's scanner is well formed.
    pub closed spec fn wf(&self) -> bool {
        self.scanner.wf()
    }

    /// The tokens the parser has not yet consumed.
    pub closed spec fn remaining_seq(&self) -> Seq<Token> {
        self.scanner.remaining_seq()
    }

    /// A parser over the given scanner.
    pub fn new(scanner: Scanner) -> (p: Self)
        ensures
            p.wf() == scanner.wf(),
            p.remaining_seq() == scanner.remaining_seq(),
    {
        Self { scanner }
    }

    /// Parse the whole token sequence as one expression. Returns the tree
    /// exactly when the sequence is the denotation of one expression with
    /// nothing left over; otherwise the error of [`spec_parse`].
    pub fn parse(self) -> (r: Result<Node, ParseError>)
        requires
            self.wf(),
        ensures
            r == spec_parse(self.remaining_seq()),
    {
        let mut this = self;
        let res = this.parse_node();
        match res {
            Ok(n) => {
                if this.scanner.remaining() > 0 {
                    Err(ParseError::TrailingInput)
                } else {
                    Ok(n)
                }
            },
            Err(e) => Err(e),
        }
    }

    /// Parse one expression from the front of the remaining tokens, as
    /// [`spec_parse_node`] describes.
    pub fn parse_node(&mut self) -> (r: Result<Node, ParseError>)
        requires
            old(self).wf(),
        ensures
            final(self).wf(),
            (match r {
                Ok(n) => spec_parse_node(old(self).remaining_seq()) == Ok::<
                    (Node, Seq<Token>),
                    ParseError,
                >((n, final(self).remaining_seq())),
                Err(e) => spec_parse_node(old(self).remaining_seq()) == Err::<
                    (Node, Seq<Token>),
                    ParseError,
                >(e),
            }),
        decreases old(self).remaining_seq().len(), 1int,
    {
        let t = match self.scanner.peek() {
            Ok(t) => t,
            Err(e) => {
                return Err(e);
            },
        };
        match t {
            Token::LParen => self.parse_pair(),
            Token::Char(_) => self.parse_char(),
            _ => Err(ParseError::UnexpectedToken(Expectation::Expr, t)),
        }
    }

    /// Parse one atom from the front of the remaining tokens, as
    /// [`spec_parse_char`] describes.
    pub fn parse_char(&mut self) -> (r: Result<Node, ParseError>)
        requires
            old(self).wf(),
        ensures
            final(self).wf(),
            (match r {
                Ok(n) => spec_parse_char(old(self).remaining_seq()) == Ok::<
                    (Node, Seq<Token>),
                    ParseError,
                >((n, final(self).remaining_seq())),
                Err(e) => spec_parse_char(old(self).remaining_seq()) == Err::<
                    (Node, Seq<Token>),
                    ParseError,
                >(e),
            }),
    {
        match self.scanner.take() {
            Err(e) => Err(e),
            Ok(Token::Char(c)) => Ok(Node::Char(c)),
            Ok(t) => Err(ParseError::UnexpectedToken(Expectation::Atom, t)),
        }
    }

    /// Parse one pair from the front of the remaining tokens, as
    /// [`spec_parse_pair`] describes: open-marker, expression, separator,
    /// expression, close-marker.
    pub fn parse_pair(&mut self) -> (r: Result<Node, ParseError>)
        requires
            old(self).wf(),
        ensures
            final(self).wf(),
            (match r {
                Ok(n) => spec_parse_pair(old(self).remaining_seq()) == Ok::<
                    (Node, Seq<Token>),
                    ParseError,
                >((n, final(self).remaining_seq())),
                Err(e) => spec_parse_pair(old(self).remaining_seq()) == Err::<
                    (Node, Seq<Token>),
                    ParseError,
                >(e),
            }),
        decreases old(self).remaining_seq().len(), 0int,
    {
        let ghost toks: Seq<Token> = self.remaining_seq();
        let t = match self.scanner.take() {
            Ok(t) => t,
            Err(e) => {
                return Err(e);
            },
        };
        if let Err(e) = t.expect_lparen() {
            return Err(e);
        }
        let ghost rest0: Seq<Token> = self.remaining_seq();
        let left = match self.parse_node() {
            Ok(n) => n,
            Err(e) => {
                return Err(e);
            },
        };
        proof {
            lemma_parse_node_fuel_sound(rest0, rest0.len());
            lemma_tokens_of_nonempty(left);
        }
        let t2 = match self.scanner.take() {
            Ok(t) => t,
            Err(e) => {
                return Err(e);
            },
        };
        if let Err(e) = t2.expect_space() {
            return Err(e);
        }
        let ghost rest1p: Seq<Token> = self.remaining_seq();
        proof {
            lemma_parse_node_fuel_mono(rest1p, (toks.len() - 1) as nat, rest1p.len());
        }
        let right = match self.parse_node() {
            Ok(n) => n,
            Err(e) => {
                return Err(e);
            },
        };
        let t3 = match self.scanner.take() {
            Ok(t) => t,
            Err(e) => {
                return Err(e);
            },
        };
        if let Err(e) = t3.expect_rparen() {
            return Err(e);
        }
        Ok(Node::Pair(Box::new(left), Box::new(right)))
    }
}

} // verus!
