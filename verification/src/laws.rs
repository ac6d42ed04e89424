//! General laws of the lex-parse pipeline, proved once and for all inputs.
//!
//! [`lemma_parse_node_complete`] is the completeness counterpart of the
//! soundness lemmas in [`crate::parser`]: together they say that a token
//! sequence parses as an expression exactly when it begins with the
//! denotation of a tree, and that the parser rebuilds that tree.

use vstd::prelude::*;
use crate::error::ParseError;
use crate::lexer::{spec_lex, Token};
use crate::node::{tokens_of, Node};
use crate::parser::{
    lemma_parse_node_fuel_mono, lemma_parse_node_fuel_sound, spec_parse, spec_parse_node,
};

verus! {

/// Completeness of the expression rule: a sequence that begins with the
/// denotation of a tree parses to exactly that tree, leaving exactly the
/// suffix behind, whatever the suffix is.
pub proof fn lemma_parse_node_complete(n: Node, suffix: Seq<Token>)
    ensures
        spec_parse_node(tokens_of(n) + suffix) == Ok::<(Node, Seq<Token>), ParseError>(
            (n, suffix),
        ),
    decreases n,
{
    let toks = tokens_of(n) + suffix;
    match n {
        Node::Char(c) => {
            assert(toks[0] == Token::Char(c));
            assert(toks.drop_first() =~= suffix);
        },
        Node::Pair(l, r) => {
            let tl = tokens_of(*l);
            let tr = tokens_of(*r);
            let suffix_l = seq![Token::Space] + tr + seq![Token::RParen] + suffix;
            let suffix_r = seq![Token::RParen] + suffix;
            lemma_parse_node_complete(*l, suffix_l);
            lemma_parse_node_complete(*r, suffix_r);
            assert(toks[0] == Token::LParen);
            let rest0 = toks.drop_first();
            assert(rest0 =~= tl + suffix_l);
            assert(rest0.len() == toks.len() - 1);
            assert(suffix_l[0] == Token::Space);
            assert(suffix_l.drop_first() =~= tr + suffix_r);
            lemma_parse_node_fuel_mono(
                tr + suffix_r,
                (toks.len() - 1) as nat,
                (tr + suffix_r).len(),
            );
            assert(suffix_r[0] == Token::RParen);
            assert(suffix_r.drop_first() =~= suffix);
        },
    }
}

/// Round trip: the denotation of any tree parses back to that tree, with no
/// trailing input.
pub proof fn lemma_parse_round_trip(n: Node)
    ensures
        spec_parse(tokens_of(n)) == Ok::<Node, ParseError>(n),
{
    lemma_parse_node_complete(n, Seq::<Token>::empty());
    assert(tokens_of(n) + Seq::<Token>::empty() =~= tokens_of(n));
}

/// For every single character other than `(`, `)` and space, parsing its
/// lexed text succeeds and yields the leaf holding that character.
pub proof fn lemma_parse_lex_single_atom(c: char)
    requires
        c != '(',
        c != ')',
        c != ' ',
    ensures
        spec_parse(spec_lex(seq![c])) == Ok::<Node, ParseError>(Node::Char(c)),
{
    assert(spec_lex(seq![c]) =~= tokens_of(Node::Char(c)));
    lemma_parse_round_trip(Node::Char(c));
}

/// For all texts `l` and `r` that parse as valid expressions, the text
/// `"(" + l + " " + r + ")"` parses to the pair whose left and right children
/// are the parses of `l` and `r` taken independently.
pub proof fn lemma_parse_lex_pair(l: Seq<char>, r: Seq<char>, nl: Node, nr: Node)
    requires
        spec_parse(spec_lex(l)) == Ok::<Node, ParseError>(nl),
        spec_parse(spec_lex(r)) == Ok::<Node, ParseError>(nr),
    ensures
        spec_parse(spec_lex(seq!['('] + l + seq![' '] + r + seq![')'])) == Ok::<Node, ParseError>(
            Node::Pair(Box::new(nl), Box::new(nr)),
        ),
{
    lemma_parse_node_fuel_sound(spec_lex(l), spec_lex(l).len());
    assert(spec_lex(l) =~= tokens_of(nl));
    lemma_parse_node_fuel_sound(spec_lex(r), spec_lex(r).len());
    assert(spec_lex(r) =~= tokens_of(nr));
    let full = seq!['('] + l + seq![' '] + r + seq![')'];
    let p = Node::Pair(Box::new(nl), Box::new(nr));
    assert(spec_lex(full) =~= tokens_of(p));
    lemma_parse_round_trip(p);
}

} // verus!
