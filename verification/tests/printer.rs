use sexpr::lexer::lex;
use sexpr::node::{render, Node};
use sexpr::parser::{Parser, Scanner};

fn leaf(c: char) -> Node {
    Node::Char(c)
}

fn pair(l: Node, r: Node) -> Node {
    Node::Pair(Box::new(l), Box::new(r))
}

#[test]
fn render_leaf() {
    assert_eq!(render(&leaf('a')), "Char('a')\n");
}

#[test]
fn render_pair_indents_children_by_two() {
    assert_eq!(
        render(&pair(leaf('a'), leaf('b'))),
        "Pair(\n  Char('a')\n  Char('b')\n)\n"
    );
}

#[test]
fn render_nested_pair_indents_two_levels() {
    assert_eq!(
        render(&pair(pair(leaf('a'), leaf('b')), leaf('c'))),
        "Pair(\n  Pair(\n    Char('a')\n    Char('b')\n  )\n  Char('c')\n)\n"
    );
}

#[test]
fn pretty_print_appends_at_given_level() {
    let mut out = String::from("seen:\n");
    leaf('x').pretty_print(&mut out, 4);
    assert_eq!(out, "seen:\n    Char('x')\n");
}

#[test]
fn parse_then_render_pair() {
    let tree = Parser::new(Scanner::new(lex("(a b)"))).parse().unwrap();
    assert_eq!(render(&tree), "Pair(\n  Char('a')\n  Char('b')\n)\n");
}

#[test]
fn parse_then_render_nested() {
    let tree = Parser::new(Scanner::new(lex("((a b) c)"))).parse().unwrap();
    assert_eq!(
        render(&tree),
        "Pair(\n  Pair(\n    Char('a')\n    Char('b')\n  )\n  Char('c')\n)\n"
    );
}
