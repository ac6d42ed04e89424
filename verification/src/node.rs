//! The tree data model and the printer.
//!
//! A tree node is either a leaf holding one atomic character or a pair of two
//! child nodes. Trees are finite and acyclic by construction: every pair is
//! built from two already-complete children. The printer renders a tree as
//! deterministic, indented, multi-line text for human inspection; that text
//! uses a different surface syntax than the grammar, so no round trip through
//! the lexer is claimed.

use vstd::prelude::*;
use vstd::string::StringExecFns;
use crate::lexer::Token;

verus! {

/// A binary-tree expression: a single character, or an ordered pair of two
/// sub-trees (left, right), each owned exclusively by the pair.
#[derive(Debug, PartialEq)]
pub enum Node {
    /// A pair of two child nodes, left and right.
    Pair(Box<Node>, Box<Node>),
    /// A leaf holding exactly one atomic character.
    Char(char),
}

/// The token sequence that denotes a tree: a leaf is its atom token, and a
/// pair is `(`, the left child's tokens, a space, the right child's tokens,
/// `)`. This is the exact sequence the parser consumes to build the tree.
pub open spec fn tokens_of(n: Node) -> Seq<Token>
    decreases n,
{
    match n {
        Node::Char(c) => seq![Token::Char(c)],
        Node::Pair(l, r) => seq![Token::LParen] + tokens_of(*l) + seq![Token::Space]
            + tokens_of(*r) + seq![Token::RParen],
    }
}

/// A tree always denotes at least one token.
pub proof fn lemma_tokens_of_nonempty(n: Node)
    ensures
        tokens_of(n).len() >= 1,
{
    match n {
        Node::Char(_) => {},
        Node::Pair(_, _) => {},
    }
}

/// Nesting depth of a tree: 0 for a leaf, one more than the deeper child for
/// a pair. Bounds the indentation the printer reaches.
pub open spec fn height(n: Node) -> nat
    decreases n,
{
    match n {
        Node::Char(_) => 0,
        Node::Pair(l, r) => 1 + if height(*l) >= height(*r) {
            height(*l)
        } else {
            height(*r)
        },
    }
}

/// A run of `level` space characters.
pub open spec fn indent_seq(level: nat) -> Seq<char> {
    Seq::new(level, |i: int| ' ')
}

/// The text the printer produces for a tree at a given indent level: a pair
/// renders as `Pair(`, its two children indented two columns deeper, and a
/// closing `)` at the original indent; a leaf renders as `Char('<c>')`. Every
/// line ends with a newline.
pub open spec fn spec_render(n: Node, level: nat) -> Seq<char>
    decreases n,
{
    match n {
        Node::Char(c) => indent_seq(level) + "Char('"@ + seq![c] + "')\n"@,
        Node::Pair(l, r) => indent_seq(level) + "Pair(\n"@ + spec_render(*l, level + 2)
            + spec_render(*r, level + 2) + indent_seq(level) + ")\n"@,
    }
}

/// Relies on `String::push` of std, which appends the given character to the
/// end of the string.
pub assume_specification[ String::push ](s: &mut String, c: char)
    ensures
        final(s)@ == old(s)@.push(c),
;

/// Append `level` space characters to `out`.
fn push_indent(out: &mut String, level: usize)
    ensures
        final(out)@ == old(out)@ + indent_seq(level as nat),
{
    let ghost start: Seq<char> = out@;
    let mut j: usize = 0;
    while j < level
        invariant
            j <= level,
            out@ == start + indent_seq(j as nat),
        decreases level - j,
    {
        out.push(' ');
        j = j + 1;
        proof {
            assert(out@ =~= start + indent_seq(j as nat));
        }
    }
}

impl Node {
    /// Append the rendering of this tree at the given indent level to `out`.
    ///
    /// The bound on `level` only keeps the indent arithmetic within `usize`;
    /// any tree that fits in memory satisfies it at level 0.
    pub fn pretty_print(&self, out: &mut String, level: usize)
        requires
            level + 2 * height(*self) <= usize::MAX,
        ensures
            final(out)@ == old(out)@ + spec_render(*self, level as nat),
        decreases *self,
    {
        let ghost start: Seq<char> = out@;
        match self {
            Node::Pair(l, r) => {
                push_indent(out, level);
                out.append("Pair(\n");
                l.pretty_print(out, level + 2);
                r.pretty_print(out, level + 2);
                push_indent(out, level);
                out.append(")\n");
                proof {
                    assert(out@ =~= start + spec_render(*self, level as nat));
                }
            }
            Node::Char(c) => {
                push_indent(out, level);
                out.append("Char('");
                out.push(*c);
                out.append("')\n");
                proof {
                    assert(out@ =~= start + spec_render(*self, level as nat));
                }
            }
        }
    }
}

/// Render a tree as indented text, starting at indent level 0.
///
/// The bound on the tree's height only keeps the printer's indent arithmetic
/// within `usize`; any tree that fits in memory satisfies it.
pub fn render(n: &Node) -> (r: String)
    requires
        2 * height(*n) <= usize::MAX,
    ensures
        r@ == spec_render(*n, 0),
{
    let mut out = String::new();
    n.pretty_print(&mut out, 0);
    out
}

} // verus!
