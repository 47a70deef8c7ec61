//! The renderer: walks the syntax tree and emits the host's nested
//! call-style predicate syntax, `not(...)`, `any(...)`, `all(...)`, with
//! identifiers and equality tests re-emitted verbatim. After the rendered
//! expression, the preserved remainder of the input is appended unchanged.
//! Rendering cannot fail: the tree is structurally valid by construction.

use crate::expr::{lemma_nodes_view, node_view, nodes_view, Expr, GNode, Node};
use crate::token::{clone_ident, clone_lit, clone_punct, lemma_toks_view, lemma_toks_view_concat,
    tok_view, toks_view, Delim, GGroup, GIdent, GPunct, GToken, GroupTok, IdentTok, PunctTok, Span,
    Token};
use vstd::prelude::*;

verus! {

/// The comma token that separates rendered operands.
pub open spec fn comma_tok() -> GToken {
    GToken::Punct(GPunct { ch: ',', joint: false, span: Span::Call })
}

/// An identifier token the renderer makes up, anchored at the call site.
pub open spec fn call_ident(name: Seq<char>) -> GToken {
    GToken::Ident(GIdent { name, span: Span::Call })
}

/// A parenthesized group token the renderer makes up.
pub open spec fn paren_group(toks: Seq<GToken>) -> GToken {
    GToken::Group(GGroup { delim: Delim::Paren, open: Span::Call, close: Span::Call, toks })
}

/// The tokens a node renders to: identifiers and equality tests verbatim,
/// `not(...)` around a negated operand, `any(...)` across a disjunction's
/// operands, `all(...)` across a conjunction's.
pub open spec fn render_node_toks(n: GNode) -> Seq<GToken>
    decreases n,
{
    match n {
        GNode::Ident(id) => seq![GToken::Ident(id)],
        GNode::Equal(k, p, v) => seq![GToken::Ident(k), GToken::Punct(p), GToken::Lit(v)],
        GNode::Not(b) => seq![call_ident("not"@), paren_group(render_node_toks(*b))],
        GNode::Or(cs) => seq![call_ident("any"@), paren_group(render_list_toks(cs))],
        GNode::And(cs) => seq![call_ident("all"@), paren_group(render_list_toks(cs))],
    }
}

/// Rendered operands with one separating comma between each pair, none
/// leading or trailing.
pub open spec fn render_list_toks(cs: Seq<GNode>) -> Seq<GToken>
    decreases cs,
{
    if cs.len() == 0 {
        Seq::empty()
    } else if cs.len() == 1 {
        render_node_toks(cs[0])
    } else {
        render_node_toks(cs[0]) + seq![comma_tok()] + render_list_toks(
            cs.subrange(1, cs.len() as int),
        )
    }
}

/// Appending an operand appends a comma and its rendering.
pub proof fn lemma_render_list_push(cs: Seq<GNode>, n: GNode)
    requires
        cs.len() >= 1,
    ensures
        render_list_toks(cs.push(n)) == render_list_toks(cs) + seq![comma_tok()]
            + render_node_toks(n),
    decreases cs,
{
    let snoc = cs.push(n);
    if cs.len() == 1 {
        assert(snoc.subrange(1, snoc.len() as int) =~= seq![n]);
        assert(render_list_toks(seq![n]) == render_node_toks(n));
        assert(render_list_toks(snoc) =~= render_list_toks(cs) + seq![comma_tok()]
            + render_node_toks(n));
    } else {
        let tail = cs.subrange(1, cs.len() as int);
        assert(snoc.subrange(1, snoc.len() as int) =~= tail.push(n));
        lemma_render_list_push(tail, n);
        assert(snoc[0] == cs[0]);
        assert(render_list_toks(snoc) =~= render_list_toks(cs) + seq![comma_tok()]
            + render_node_toks(n));
    }
}

/// Renders one call-style operand list: `head ( item , item , ... )`.
fn render_call(head: &str, items: &Vec<Node>) -> (out: Vec<Token>)
    ensures
        toks_view(out@) == seq![
            call_ident(head@),
            paren_group(render_list_toks(nodes_view(items@))),
        ],
    decreases items@,
{
    let mut inner: Vec<Token> = Vec::new();
    let mut k: usize = 0;
    while k < items.len()
        invariant
            0 <= k <= items@.len(),
            toks_view(inner@) == render_list_toks(nodes_view(items@.subrange(0, k as int))),
        decreases items@.len() - k,
    {
        let ghost old_inner = inner@;
        if k > 0 {
            inner.push(Token::Punct(PunctTok { ch: ',', joint: false, span: Span::Call }));
        }
        let mut r = render_node(&items[k]);
        let ghost r0 = r@;
        inner.append(&mut r);
        proof {
            lemma_toks_view(inner@);
            lemma_toks_view(old_inner);
            lemma_toks_view(r0);
            lemma_nodes_view(items@.subrange(0, k as int));
            lemma_nodes_view(items@.subrange(0, k + 1));
            if k == 0 {
                assert(nodes_view(items@.subrange(0, 1)) =~= seq![node_view(items@[0])]);
                assert(inner@ =~= r0);
                assert(toks_view(inner@) =~= render_list_toks(
                    nodes_view(items@.subrange(0, k + 1)),
                ));
            } else {
                let done = nodes_view(items@.subrange(0, k as int));
                assert(nodes_view(items@.subrange(0, k + 1)) =~= done.push(
                    node_view(items@[k as int]),
                ));
                lemma_render_list_push(done, node_view(items@[k as int]));
                assert(inner@ =~= old_inner + seq![
                    Token::Punct(PunctTok { ch: ',', joint: false, span: Span::Call }),
                ] + r0);
                assert(toks_view(inner@) =~= render_list_toks(
                    nodes_view(items@.subrange(0, k + 1)),
                ));
            }
        }
        k += 1;
    }
    let mut out: Vec<Token> = Vec::new();
    out.push(Token::Ident(IdentTok { name: head.to_owned(), span: Span::Call }));
    out.push(
        Token::Group(
            GroupTok { delim: Delim::Paren, open: Span::Call, close: Span::Call, toks: inner },
        ),
    );
    proof {
        lemma_toks_view(out@);
        assert(items@.subrange(0, items@.len() as int) =~= items@);
        assert(toks_view(out@) =~= seq![
            call_ident(head@),
            paren_group(render_list_toks(nodes_view(items@))),
        ]);
    }
    out
}

/// Renders one node.
fn render_node(n: &Node) -> (out: Vec<Token>)
    ensures
        toks_view(out@) == render_node_toks(node_view(*n)),
    decreases *n,
{
    match n {
        Node::Ident(id) => {
            let out = vec![Token::Ident(clone_ident(id))];
            proof {
                lemma_toks_view(out@);
                assert(toks_view(out@) =~= render_node_toks(node_view(*n)));
            }
            out
        },
        Node::Equal(k, p, v) => {
            let out = vec![
                Token::Ident(clone_ident(k)),
                Token::Punct(clone_punct(p)),
                Token::Lit(clone_lit(v)),
            ];
            proof {
                lemma_toks_view(out@);
                assert(toks_view(out@) =~= render_node_toks(node_view(*n)));
            }
            out
        },
        Node::Not(b) => {
            let body = render_node(&**b);
            let mut out: Vec<Token> = Vec::new();
            out.push(Token::Ident(IdentTok { name: "not".to_owned(), span: Span::Call }));
            out.push(
                Token::Group(
                    GroupTok {
                        delim: Delim::Paren,
                        open: Span::Call,
                        close: Span::Call,
                        toks: body,
                    },
                ),
            );
            proof {
                lemma_toks_view(out@);
                assert(toks_view(out@) =~= render_node_toks(node_view(*n)));
            }
            out
        },
        Node::Or(items) => {
            let out = render_call("any", items);
            proof {
                reveal_strlit("any");
                assert(toks_view(out@) =~= render_node_toks(node_view(*n)));
            }
            out
        },
        Node::And(items) => {
            let out = render_call("all", items);
            proof {
                reveal_strlit("all");
                assert(toks_view(out@) =~= render_node_toks(node_view(*n)));
            }
            out
        },
    }
}

/// Renders a parsed expression: the rendered tree, then the preserved
/// remainder verbatim.
fn render_expr(expr: Expr) -> (out: Vec<Token>)
    ensures
        toks_view(out@) == render_node_toks(expr.node@) + toks_view(expr.rest@),
{
    let Expr { node, rest } = expr;
    let mut out = render_node(&node);
    let ghost out0 = out@;
    let mut rest = rest;
    let ghost rest0 = rest@;
    out.append(&mut rest);
    proof {
        assert(out@ =~= out0 + rest0);
        lemma_toks_view_concat(out0, rest0);
    }
    out
}

/// The rewritten-annotation tokens: `# [ head ( <rendered> <remainder> ) ]`
/// followed by the annotated item's tokens, untouched.
pub open spec fn render_toks(
    head: Seq<char>,
    node: GNode,
    rest: Seq<GToken>,
    input: Seq<GToken>,
) -> Seq<GToken> {
    seq![
        GToken::Punct(GPunct { ch: '#', joint: false, span: Span::Call }),
        GToken::Group(
            GGroup {
                delim: Delim::Bracket,
                open: Span::Call,
                close: Span::Call,
                toks: seq![call_ident(head), paren_group(render_node_toks(node) + rest)],
            },
        ),
    ] + input
}

/// Builds the whole rewritten annotation around a parsed expression and
/// splices the annotated item's tokens after it.
pub fn render(head: &str, expr: Expr, input: Vec<Token>) -> (out: Vec<Token>)
    ensures
        toks_view(out@) == render_toks(head@, expr.node@, toks_view(expr.rest@), toks_view(input@)),
{
    let ghost node0 = expr.node@;
    let ghost rest0 = toks_view(expr.rest@);
    let body = render_expr(expr);
    let mut attr_inner: Vec<Token> = Vec::new();
    attr_inner.push(Token::Ident(IdentTok { name: head.to_owned(), span: Span::Call }));
    attr_inner.push(
        Token::Group(
            GroupTok { delim: Delim::Paren, open: Span::Call, close: Span::Call, toks: body },
        ),
    );
    let mut out: Vec<Token> = Vec::new();
    out.push(Token::Punct(PunctTok { ch: '#', joint: false, span: Span::Call }));
    out.push(
        Token::Group(
            GroupTok {
                delim: Delim::Bracket,
                open: Span::Call,
                close: Span::Call,
                toks: attr_inner,
            },
        ),
    );
    let ghost head2 = out@;
    let mut input = input;
    let ghost input0 = input@;
    out.append(&mut input);
    proof {
        lemma_toks_view(attr_inner@);
        assert(toks_view(attr_inner@) =~= seq![
            call_ident(head@),
            paren_group(render_node_toks(node0) + rest0),
        ]);
        assert(out@ =~= head2 + input0);
        lemma_toks_view_concat(head2, input0);
        lemma_toks_view(head2);
        assert(toks_view(head2) =~= seq![
            GToken::Punct(GPunct { ch: '#', joint: false, span: Span::Call }),
            GToken::Group(
                GGroup {
                    delim: Delim::Bracket,
                    open: Span::Call,
                    close: Span::Call,
                    toks: seq![call_ident(head@), paren_group(render_node_toks(node0) + rest0)],
                },
            ),
        ]);
        assert(toks_view(out@) =~= render_toks(head@, node0, rest0, toks_view(input0)));
    }
    out
}

} // verus!
