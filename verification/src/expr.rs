//! The expression parser: recursive descent over the token model.
//!
//! Grammar, lowest precedence first:
//! `disjunction := conjunction ('||' conjunction)*`;
//! `conjunction := atom ('&&' atom)*`;
//! `atom := '!' atom | '(' disjunction ')' | identifier ['=' literal]`.
//!
//! A two-character operator counts only when its first punctuation token
//! is spacing-adjacent to a matching second one. A disjunction at the top
//! level stops cleanly at end of input or at a comma; the comma and what
//! follows it are handed back untouched as the remainder. Every failure is
//! an [`Error`] anchored at the offending token; nothing panics.
//!
//! An explicitly flagged grammar extension (`ext`, entered through
//! [`parse_extended`]) additionally allows an equality test written as
//! `identifier literal` without the `=` sign, and accepts a group with
//! the invisible delimiter as a substituted sub-expression fragment: as a
//! grouping atom, and around the literal of an equality test.
//!
//! The spec functions `sp_atom`, `sp_conjunction`, `sp_disjunction` and
//! `sp_parse` are the mathematical statement of the grammar; each
//! executable function is proved to return exactly what they say.

use crate::error::{Error, GError};
use crate::token::{clone_ident, clone_lit, clone_punct, lemma_toks_view, tok_view, toks_view,
    Delim, GIdent, GPunct, GToken, IdentTok, LitTok, PunctTok, Span, Token};
use vstd::prelude::*;

verus! {

broadcast use lemma_toks_view;

/// One node of the abstract syntax tree. A list under `Or` or `And` is in
/// source order and, as parsed, always holds at least two operands: a
/// single operand is never wrapped.
#[derive(Debug, PartialEq)]
pub enum Node {
    Ident(IdentTok),
    Equal(IdentTok, PunctTok, LitTok),
    Not(Box<Node>),
    Or(Vec<Node>),
    And(Vec<Node>),
}

/// The mathematical model of a syntax tree node.
pub enum GNode {
    Ident(GIdent),
    Equal(crate::token::GIdent, crate::token::GPunct, crate::token::GLit),
    Not(Box<GNode>),
    Or(Seq<GNode>),
    And(Seq<GNode>),
}

/// The model of one node.
pub open spec fn node_view(n: Node) -> GNode
    decreases n,
{
    match n {
        Node::Ident(t) => GNode::Ident(t@),
        Node::Equal(k, p, v) => GNode::Equal(k@, p@, v@),
        Node::Not(b) => GNode::Not(Box::new(node_view(*b))),
        Node::Or(v) => GNode::Or(nodes_view(v@)),
        Node::And(v) => GNode::And(nodes_view(v@)),
    }
}

/// The model of a node sequence, one for one.
pub open spec fn nodes_view(ns: Seq<Node>) -> Seq<GNode>
    decreases ns,
{
    if ns.len() == 0 {
        Seq::empty()
    } else {
        seq![node_view(ns[0])] + nodes_view(ns.subrange(1, ns.len() as int))
    }
}

impl View for Node {
    type V = GNode;

    open spec fn view(&self) -> GNode {
        node_view(*self)
    }
}

/// A node sequence's model is the model of its nodes, one for one.
pub broadcast proof fn lemma_nodes_view(ns: Seq<Node>)
    ensures
        (#[trigger] nodes_view(ns)).len() == ns.len(),
        forall|i: int| 0 <= i < ns.len() ==> nodes_view(ns)[i] == node_view(ns[i]),
    decreases ns,
{
    if ns.len() > 0 {
        lemma_nodes_view(ns.subrange(1, ns.len() as int));
    }
}

/// A parsed expression: the syntax tree of the boolean expression, and
/// the unconsumed remainder of the input (the top-level comma and all
/// tokens after it, to be re-emitted verbatim).
#[derive(Debug, PartialEq)]
pub struct Expr {
    pub node: Node,
    pub rest: Vec<Token>,
}

/// Where a diagnostic for a token is anchored: a group at its opening
/// delimiter, any other token at itself.
pub open spec fn g_anchor(t: GToken) -> Span {
    match t {
        GToken::Ident(x) => x.span,
        GToken::Punct(x) => x.span,
        GToken::Lit(x) => x.span,
        GToken::Group(g) => g.open,
    }
}

/// The outcome of a sub-parse: a node and the index one past the last
/// token it consumed, or an anchored error.
pub type GParse = Result<(GNode, nat), GError>;

/// Never reached: a successful sub-parse always ends inside the input and
/// past the token it started on. The branch that yields this value only
/// settles the termination measure.
pub open spec fn parse_stuck() -> GParse {
    Err(GError { span: Span::Call, msg: Seq::empty() })
}

/// As [`parse_stuck`], for the operand-list helpers.
pub open spec fn parse_stuck_list() -> Result<(Seq<GNode>, nat), GError> {
    Err(GError { span: Span::Call, msg: Seq::empty() })
}

/// The `=` punctuation the extension grammar makes up for an equality
/// test written without one, anchored at the identifier.
pub open spec fn eq_punct_at(span: Span) -> GPunct {
    GPunct { ch: '=', joint: false, span }
}

/// Parses `atom := '!' atom | '(' disjunction ')' | identifier ['=' literal]`
/// at index `i`. `ctx` carries the closing location of the enclosing group,
/// if any, to anchor errors at end of input. Under the extension grammar
/// (`ext`) a group with the invisible delimiter also groups; one that
/// wraps a lone identifier continues as that identifier's atom.
pub open spec fn sp_atom(ts: Seq<GToken>, i: nat, ctx: Option<Span>, ext: bool) -> GParse
    decreases ts, ts.len() - i, 0int,
{
    if i >= ts.len() {
        match ctx {
            Some(close) => Err(GError { span: close, msg: "expected an identifier"@ }),
            None => Err(GError { span: Span::Call, msg: "unexpected end of input"@ }),
        }
    } else {
        match ts[i as int] {
            GToken::Ident(id) => sp_atom_after_ident(ts, (i + 1) as nat, id, ctx, ext),
            GToken::Punct(p) => {
                if p.ch == '!' {
                    match sp_atom(ts, (i + 1) as nat, ctx, ext) {
                        Ok((n, j)) => Ok((GNode::Not(Box::new(n)), j)),
                        Err(e) => Err(e),
                    }
                } else {
                    Err(GError { span: p.span, msg: "unexpected token, expected an identifier"@ })
                }
            },
            GToken::Lit(l) => Err(
                GError { span: l.span, msg: "unexpected token, expected an identifier"@ },
            ),
            GToken::Group(g) => {
                if g.delim == Delim::Paren || (ext && g.delim == Delim::Bare) {
                    match sp_disjunction(g.toks, 0, Some(g.close), ext) {
                        Ok((n, j)) => {
                            if j < g.toks.len() {
                                Err(
                                    GError {
                                        span: g_anchor(g.toks[j as int]),
                                        msg: "unexpected token"@,
                                    },
                                )
                            } else if ext && g.delim == Delim::Bare {
                                match n {
                                    GNode::Ident(id) => sp_atom_after_ident(
                                        ts,
                                        (i + 1) as nat,
                                        id,
                                        ctx,
                                        ext,
                                    ),
                                    nn => Ok((nn, (i + 1) as nat)),
                                }
                            } else {
                                Ok((n, (i + 1) as nat))
                            }
                        },
                        Err(e) => Err(e),
                    }
                } else {
                    Err(GError { span: g.open, msg: "unexpected token, expected an identifier"@ })
                }
            },
        }
    }
}

/// After an identifier at index `i - 1`: a `=` followed by one literal
/// token makes an equality test; anything else, or nothing, leaves the
/// bare identifier. Under the extension grammar a literal, or a group
/// holding the literal, directly after the identifier also makes an
/// equality test, with a made-up `=`.
pub open spec fn sp_atom_after_ident(
    ts: Seq<GToken>,
    i: nat,
    id: GIdent,
    ctx: Option<Span>,
    ext: bool,
) -> GParse {
    if i >= ts.len() {
        Ok((GNode::Ident(id), i))
    } else {
        match ts[i as int] {
            GToken::Punct(p) => {
                if p.ch == '=' {
                    sp_read_value(ts, (i + 1) as nat, id, p, ctx, ext)
                } else {
                    Ok((GNode::Ident(id), i))
                }
            },
            GToken::Lit(_) => {
                if ext {
                    sp_read_value(ts, i, id, eq_punct_at(id.span), ctx, ext)
                } else {
                    Ok((GNode::Ident(id), i))
                }
            },
            GToken::Group(_) => {
                if ext {
                    sp_read_value(ts, i, id, eq_punct_at(id.span), ctx, ext)
                } else {
                    Ok((GNode::Ident(id), i))
                }
            },
            _ => Ok((GNode::Ident(id), i)),
        }
    }
}

/// The literal of an equality test, at index `j`: one literal token, or,
/// under the extension grammar, a group with the invisible delimiter
/// holding exactly one literal token.
pub open spec fn sp_read_value(
    ts: Seq<GToken>,
    j: nat,
    id: GIdent,
    punct: GPunct,
    ctx: Option<Span>,
    ext: bool,
) -> GParse {
    if j >= ts.len() {
        match ctx {
            Some(close) => Err(GError { span: close, msg: "expected a string literal"@ }),
            None => Err(GError { span: Span::Call, msg: "unexpected end of input"@ }),
        }
    } else {
        match ts[j as int] {
            GToken::Lit(l) => Ok((GNode::Equal(id, punct, l), (j + 1) as nat)),
            GToken::Group(g) => {
                if ext && g.delim == Delim::Bare {
                    if g.toks.len() == 0 {
                        Err(
                            GError {
                                span: g.open,
                                msg: "unexpected token, expected a string literal"@,
                            },
                        )
                    } else {
                        match g.toks[0] {
                            GToken::Lit(l) => {
                                if g.toks.len() > 1 {
                                    Err(
                                        GError {
                                            span: g_anchor(g.toks[1]),
                                            msg: "unexpected token"@,
                                        },
                                    )
                                } else {
                                    Ok((GNode::Equal(id, punct, l), (j + 1) as nat))
                                }
                            },
                            t => Err(
                                GError {
                                    span: g_anchor(t),
                                    msg: "unexpected token, expected a string literal"@,
                                },
                            ),
                        }
                    }
                } else {
                    Err(GError { span: g.open, msg: "unexpected token, expected a string literal"@ })
                }
            },
            t => Err(
                GError { span: g_anchor(t), msg: "unexpected token, expected a string literal"@ },
            ),
        }
    }
}

/// Parses `conjunction := atom ('&&' atom)*` at index `i`.
pub open spec fn sp_conjunction(ts: Seq<GToken>, i: nat, ctx: Option<Span>, ext: bool) -> GParse
    decreases ts, ts.len() - i, 1int,
{
    match sp_atom(ts, i, ctx, ext) {
        Err(e) => Err(e),
        Ok((first, j)) => {
            if i < j && j <= ts.len() {
                match sp_conjunction_rest(ts, j, ctx, ext) {
                    Err(e) => Err(e),
                    Ok((more, k)) => {
                        if more.len() == 0 {
                            Ok((first, k))
                        } else {
                            Ok((GNode::And(seq![first] + more), k))
                        }
                    },
                }
            } else {
                parse_stuck()
            }
        },
    }
}

/// The `('&&' atom)*` tail of a conjunction: the atoms after the first,
/// and the index where the conjunction stops. A `&` whose token is not
/// spacing-adjacent to a second `&` is an error anchored at it; any token
/// other than `&` stops the conjunction.
pub open spec fn sp_conjunction_rest(
    ts: Seq<GToken>,
    i: nat,
    ctx: Option<Span>,
    ext: bool,
) -> Result<(Seq<GNode>, nat), GError>
    decreases ts, ts.len() - i, 0int,
{
    if i >= ts.len() {
        Ok((Seq::empty(), i))
    } else {
        match ts[i as int] {
            GToken::Punct(p) => {
                if p.ch == '&' {
                    let op_ok = p.joint && i + 1 < ts.len() && match ts[i as int + 1] {
                        GToken::Punct(q) => q.ch == '&',
                        _ => false,
                    };
                    if op_ok {
                        match sp_atom(ts, (i + 2) as nat, ctx, ext) {
                            Err(e) => Err(e),
                            Ok((a, j)) => {
                                if i + 2 < j && j <= ts.len() {
                                    match sp_conjunction_rest(ts, j, ctx, ext) {
                                        Err(e) => Err(e),
                                        Ok((more, k)) => Ok((seq![a] + more, k)),
                                    }
                                } else {
                                    parse_stuck_list()
                                }
                            },
                        }
                    } else {
                        Err(GError { span: p.span, msg: "expected `&&`"@ })
                    }
                } else {
                    Ok((Seq::empty(), i))
                }
            },
            _ => Ok((Seq::empty(), i)),
        }
    }
}

/// Parses `disjunction := conjunction ('||' conjunction)*` at index `i`.
pub open spec fn sp_disjunction(ts: Seq<GToken>, i: nat, ctx: Option<Span>, ext: bool) -> GParse
    decreases ts, ts.len() - i, 2int,
{
    match sp_conjunction(ts, i, ctx, ext) {
        Err(e) => Err(e),
        Ok((first, j)) => {
            if i < j && j <= ts.len() {
                match sp_disjunction_rest(ts, j, ctx, ext) {
                    Err(e) => Err(e),
                    Ok((more, k)) => {
                        if more.len() == 0 {
                            Ok((first, k))
                        } else {
                            Ok((GNode::Or(seq![first] + more), k))
                        }
                    },
                }
            } else {
                parse_stuck()
            }
        },
    }
}

/// The `('||' conjunction)*` tail of a disjunction: the conjunctions
/// after the first, and the index where the disjunction stops. End of
/// input and a comma stop it cleanly; a `|` not forming `||` is an error
/// anchored at it; any other token is an unexpected-token error.
pub open spec fn sp_disjunction_rest(
    ts: Seq<GToken>,
    i: nat,
    ctx: Option<Span>,
    ext: bool,
) -> Result<(Seq<GNode>, nat), GError>
    decreases ts, ts.len() - i, 0int,
{
    if i >= ts.len() {
        Ok((Seq::empty(), i))
    } else {
        match ts[i as int] {
            GToken::Punct(p) => {
                if p.ch == '|' {
                    let op_ok = p.joint && i + 1 < ts.len() && match ts[i as int + 1] {
                        GToken::Punct(q) => q.ch == '|',
                        _ => false,
                    };
                    if op_ok {
                        match sp_conjunction(ts, (i + 2) as nat, ctx, ext) {
                            Err(e) => Err(e),
                            Ok((c, j)) => {
                                if i + 2 < j && j <= ts.len() {
                                    match sp_disjunction_rest(ts, j, ctx, ext) {
                                        Err(e) => Err(e),
                                        Ok((more, k)) => Ok((seq![c] + more, k)),
                                    }
                                } else {
                                    parse_stuck_list()
                                }
                            },
                        }
                    } else {
                        Err(GError { span: p.span, msg: "expected `||`"@ })
                    }
                } else if p.ch == ',' {
                    Ok((Seq::empty(), i))
                } else {
                    Err(GError { span: p.span, msg: "unexpected token"@ })
                }
            },
            t => Err(GError { span: g_anchor(t), msg: "unexpected token"@ }),
        }
    }
}

/// What parsing a whole argument list yields: the syntax tree of the
/// leading boolean expression and the untouched remainder, or the error.
pub open spec fn sp_parse(ts: Seq<GToken>, ext: bool) -> Result<(GNode, Seq<GToken>), GError> {
    match sp_disjunction(ts, 0, None, ext) {
        Err(e) => Err(e),
        Ok((n, j)) => {
            if j <= ts.len() {
                Ok((n, ts.subrange(j as int, ts.len() as int)))
            } else {
                // Never reached: a parse ends inside the input.
                Ok((n, Seq::empty()))
            }
        },
    }
}

/// The executable outcome agrees with the stated one.
pub open spec fn parse_matches(r: Result<(Node, usize), Error>, g: GParse) -> bool {
    match (r, g) {
        (Ok(p), Ok(q)) => p.0@ == q.0 && p.1 as nat == q.1,
        (Err(e), Err(ge)) => e@ == ge,
        _ => false,
    }
}

/// The executable parse result agrees with the stated one.
pub open spec fn expr_matches(
    r: Result<Expr, Error>,
    g: Result<(GNode, Seq<GToken>), GError>,
) -> bool {
    match (r, g) {
        (Ok(e), Ok(q)) => e.node@ == q.0 && toks_view(e.rest@) == q.1,
        (Err(e), Err(ge)) => e@ == ge,
        _ => false,
    }
}

/// An anchored unexpected-token error: a group is reported at its opening
/// delimiter, any other token at itself.
fn unexpected_token(t: &Token, msg: &str) -> (e: Error)
    ensures
        e@ == (GError { span: g_anchor(tok_view(*t)), msg: msg@ }),
{
    let span = match t {
        Token::Ident(x) => x.span,
        Token::Punct(x) => x.span,
        Token::Lit(x) => x.span,
        Token::Group(g) => g.open,
    };
    Error::new(span, msg)
}

fn read_value(
    ident: IdentTok,
    punct: PunctTok,
    ts: &Vec<Token>,
    j: usize,
    ctx: Option<Span>,
    ext: bool,
) -> (r: Result<(Node, usize), Error>)
    requires
        j <= ts@.len(),
    ensures
        parse_matches(r, sp_read_value(toks_view(ts@), j as nat, ident@, punct@, ctx, ext)),
        r matches Ok(p) ==> j < p.1 <= ts@.len(),
{
    if j >= ts.len() {
        return match ctx {
            Some(close) => Err(Error::new(close, "expected a string literal")),
            None => Err(Error::new(Span::Call, "unexpected end of input")),
        };
    }
    match &ts[j] {
        Token::Lit(l) => Ok((Node::Equal(ident, punct, clone_lit(l)), j + 1)),
        Token::Group(g) => {
            proof {
                lemma_toks_view(g.toks@);
            }
            if ext && matches!(g.delim, Delim::Bare) {
                if g.toks.len() == 0 {
                    Err(Error::new(g.open, "unexpected token, expected a string literal"))
                } else {
                    match &g.toks[0] {
                        Token::Lit(l) => {
                            if g.toks.len() > 1 {
                                Err(unexpected_token(&g.toks[1], "unexpected token"))
                            } else {
                                Ok((Node::Equal(ident, punct, clone_lit(l)), j + 1))
                            }
                        },
                        other => Err(
                            unexpected_token(other, "unexpected token, expected a string literal"),
                        ),
                    }
                }
            } else {
                Err(Error::new(g.open, "unexpected token, expected a string literal"))
            }
        },
        other => Err(unexpected_token(other, "unexpected token, expected a string literal")),
    }
}

fn parse_atom_after_ident(
    ident: IdentTok,
    ts: &Vec<Token>,
    i: usize,
    ctx: Option<Span>,
    ext: bool,
) -> (r: Result<(Node, usize), Error>)
    requires
        i <= ts@.len(),
    ensures
        parse_matches(r, sp_atom_after_ident(toks_view(ts@), i as nat, ident@, ctx, ext)),
        r matches Ok(p) ==> i <= p.1 <= ts@.len(),
{
    if i >= ts.len() {
        return Ok((Node::Ident(ident), i));
    }
    match &ts[i] {
        Token::Punct(p) => {
            if p.ch == '=' {
                let punct = clone_punct(p);
                read_value(ident, punct, ts, i + 1, ctx, ext)
            } else {
                Ok((Node::Ident(ident), i))
            }
        },
        Token::Lit(_) => {
            if ext {
                let punct = PunctTok { ch: '=', joint: false, span: ident.span };
                read_value(ident, punct, ts, i, ctx, ext)
            } else {
                Ok((Node::Ident(ident), i))
            }
        },
        Token::Group(_) => {
            if ext {
                let punct = PunctTok { ch: '=', joint: false, span: ident.span };
                read_value(ident, punct, ts, i, ctx, ext)
            } else {
                Ok((Node::Ident(ident), i))
            }
        },
        _ => Ok((Node::Ident(ident), i)),
    }
}

fn parse_atom(ts: &Vec<Token>, i: usize, ctx: Option<Span>, ext: bool) -> (r: Result<
    (Node, usize),
    Error,
>)
    requires
        i <= ts@.len(),
    ensures
        parse_matches(r, sp_atom(toks_view(ts@), i as nat, ctx, ext)),
        r matches Ok(p) ==> i < p.1 <= ts@.len(),
    decreases ts@, ts@.len() - i, 0int,
{
    if i >= ts.len() {
        return match ctx {
            Some(close) => Err(Error::new(close, "expected an identifier")),
            None => Err(Error::new(Span::Call, "unexpected end of input")),
        };
    }
    match &ts[i] {
        Token::Ident(id) => parse_atom_after_ident(clone_ident(id), ts, i + 1, ctx, ext),
        Token::Punct(p) => {
            if p.ch == '!' {
                match parse_atom(ts, i + 1, ctx, ext) {
                    Ok((n, j)) => Ok((Node::Not(Box::new(n)), j)),
                    Err(e) => Err(e),
                }
            } else {
                Err(Error::new(p.span, "unexpected token, expected an identifier"))
            }
        },
        Token::Lit(l) => Err(Error::new(l.span, "unexpected token, expected an identifier")),
        Token::Group(g) => {
            let bare = matches!(g.delim, Delim::Bare);
            if matches!(g.delim, Delim::Paren) || (ext && bare) {
                match parse_disjunction(&g.toks, 0, Some(g.close), ext) {
                    Ok((n, j)) => {
                        if j < g.toks.len() {
                            Err(unexpected_token(&g.toks[j], "unexpected token"))
                        } else if ext && bare {
                            match n {
                                Node::Ident(id) => parse_atom_after_ident(id, ts, i + 1, ctx, ext),
                                nn => Ok((nn, i + 1)),
                            }
                        } else {
                            Ok((n, i + 1))
                        }
                    },
                    Err(e) => Err(e),
                }
            } else {
                Err(Error::new(g.open, "unexpected token, expected an identifier"))
            }
        },
    }
}

fn parse_conjunction(ts: &Vec<Token>, i: usize, ctx: Option<Span>, ext: bool) -> (r: Result<
    (Node, usize),
    Error,
>)
    requires
        i <= ts@.len(),
    ensures
        parse_matches(r, sp_conjunction(toks_view(ts@), i as nat, ctx, ext)),
        r matches Ok(p) ==> i < p.1 <= ts@.len(),
    decreases ts@, ts@.len() - i, 1int,
{
    broadcast use lemma_nodes_view;

    let (first, j) = match parse_atom(ts, i, ctx, ext) {
        Ok(p) => p,
        Err(e) => {
            return Err(e);
        },
    };
    let ghost target = sp_conjunction(toks_view(ts@), i as nat, ctx, ext);
    let mut vec: Vec<Node> = Vec::new();
    vec.push(first);
    let mut cur = j;
    proof {
        assert(nodes_view(vec@) =~= seq![node_view(vec@[0])]);
    }
    loop
        invariant
            i < cur <= ts@.len(),
            vec@.len() >= 1,
            target == sp_conjunction(toks_view(ts@), i as nat, ctx, ext),
            (match sp_conjunction_rest(toks_view(ts@), cur as nat, ctx, ext) {
                Ok(q) => target == wrap_and(nodes_view(vec@) + q.0, q.1),
                Err(e) => target == Err::<(GNode, nat), GError>(e),
            }),
        ensures
            i < cur <= ts@.len(),
            vec@.len() >= 1,
            sp_conjunction_rest(toks_view(ts@), cur as nat, ctx, ext) == Ok::<
                (Seq<GNode>, nat),
                GError,
            >((Seq::<GNode>::empty(), cur as nat)),
        decreases ts@.len() - cur,
    {
        if cur >= ts.len() {
            break;
        }
        let is_amp = match &ts[cur] {
            Token::Punct(p) => p.ch == '&',
            _ => false,
        };
        if !is_amp {
            break;
        }
        let (op_span, op_joint) = match &ts[cur] {
            Token::Punct(p) => (p.span, p.joint),
            _ => (Span::Call, false),
        };
        let mut op_ok = false;
        if op_joint && cur + 1 < ts.len() {
            match &ts[cur + 1] {
                Token::Punct(q) => {
                    op_ok = q.ch == '&';
                },
                _ => {},
            }
        }
        if !op_ok {
            return Err(Error::new(op_span, "expected `&&`"));
        }
        let (a, j2) = match parse_atom(ts, cur + 2, ctx, ext) {
            Ok(p) => p,
            Err(e) => {
                return Err(e);
            },
        };
        let ghost old_vec = vec@;
        vec.push(a);
        proof {
            lemma_nodes_view(vec@);
            lemma_nodes_view(old_vec);
            assert(vec@ == old_vec.push(a));
            assert(nodes_view(vec@) =~= nodes_view(old_vec) + seq![node_view(a)]);
            assert(forall|more: Seq<GNode>|
                (nodes_view(old_vec) + (seq![node_view(a)] + more)) =~= (nodes_view(vec@) + more));
        }
        cur = j2;
    }
    let node = if vec.len() == 1 {
        let n = vec.pop().unwrap();
        proof {
            assert(nodes_view(vec@.push(n)) + Seq::<GNode>::empty() =~= seq![node_view(n)]);
        }
        n
    } else {
        proof {
            assert(nodes_view(vec@) + Seq::<GNode>::empty() =~= nodes_view(vec@));
        }
        Node::And(vec)
    };
    Ok((node, cur))
}

/// A conjunction's node: a single operand stands bare, several are
/// wrapped in `And`.
pub open spec fn wrap_and(ns: Seq<GNode>, k: nat) -> GParse {
    if ns.len() == 1 {
        Ok((ns[0], k))
    } else {
        Ok((GNode::And(ns), k))
    }
}

/// A disjunction's node: a single operand stands bare, several are
/// wrapped in `Or`.
pub open spec fn wrap_or(ns: Seq<GNode>, k: nat) -> GParse {
    if ns.len() == 1 {
        Ok((ns[0], k))
    } else {
        Ok((GNode::Or(ns), k))
    }
}

fn parse_disjunction(ts: &Vec<Token>, i: usize, ctx: Option<Span>, ext: bool) -> (r: Result<
    (Node, usize),
    Error,
>)
    requires
        i <= ts@.len(),
    ensures
        parse_matches(r, sp_disjunction(toks_view(ts@), i as nat, ctx, ext)),
        r matches Ok(p) ==> i < p.1 <= ts@.len(),
    decreases ts@, ts@.len() - i, 2int,
{
    broadcast use lemma_nodes_view;

    let (first, j) = match parse_conjunction(ts, i, ctx, ext) {
        Ok(p) => p,
        Err(e) => {
            return Err(e);
        },
    };
    let ghost target = sp_disjunction(toks_view(ts@), i as nat, ctx, ext);
    let mut vec: Vec<Node> = Vec::new();
    vec.push(first);
    let mut cur = j;
    proof {
        assert(nodes_view(vec@) =~= seq![node_view(vec@[0])]);
    }
    loop
        invariant
            i < cur <= ts@.len(),
            vec@.len() >= 1,
            target == sp_disjunction(toks_view(ts@), i as nat, ctx, ext),
            (match sp_disjunction_rest(toks_view(ts@), cur as nat, ctx, ext) {
                Ok(q) => target == wrap_or(nodes_view(vec@) + q.0, q.1),
                Err(e) => target == Err::<(GNode, nat), GError>(e),
            }),
        ensures
            i < cur <= ts@.len(),
            vec@.len() >= 1,
            sp_disjunction_rest(toks_view(ts@), cur as nat, ctx, ext) == Ok::<
                (Seq<GNode>, nat),
                GError,
            >((Seq::<GNode>::empty(), cur as nat)),
        decreases ts@.len() - cur,
    {
        if cur >= ts.len() {
            break;
        }
        let (stop, is_bar) = match &ts[cur] {
            Token::Punct(p) => (p.ch == ',', p.ch == '|'),
            _ => (false, false),
        };
        if stop {
            break;
        }
        if !is_bar {
            return Err(unexpected_token(&ts[cur], "unexpected token"));
        }
        let (op_span, op_joint) = match &ts[cur] {
            Token::Punct(p) => (p.span, p.joint),
            _ => (Span::Call, false),
        };
        let mut op_ok = false;
        if op_joint && cur + 1 < ts.len() {
            match &ts[cur + 1] {
                Token::Punct(q) => {
                    op_ok = q.ch == '|';
                },
                _ => {},
            }
        }
        if !op_ok {
            return Err(Error::new(op_span, "expected `||`"));
        }
        let (c, j2) = match parse_conjunction(ts, cur + 2, ctx, ext) {
            Ok(p) => p,
            Err(e) => {
                return Err(e);
            },
        };
        let ghost old_vec = vec@;
        vec.push(c);
        proof {
            lemma_nodes_view(vec@);
            lemma_nodes_view(old_vec);
            assert(vec@ == old_vec.push(c));
            assert(nodes_view(vec@) =~= nodes_view(old_vec) + seq![node_view(c)]);
            assert(forall|more: Seq<GNode>|
                (nodes_view(old_vec) + (seq![node_view(c)] + more)) =~= (nodes_view(vec@) + more));
        }
        cur = j2;
    }
    let node = if vec.len() == 1 {
        let n = vec.pop().unwrap();
        proof {
            assert(nodes_view(vec@.push(n)) + Seq::<GNode>::empty() =~= seq![node_view(n)]);
        }
        n
    } else {
        proof {
            assert(nodes_view(vec@) + Seq::<GNode>::empty() =~= nodes_view(vec@));
        }
        Node::Or(vec)
    };
    Ok((node, cur))
}

fn parse_mode(args: Vec<Token>, ext: bool) -> (r: Result<Expr, Error>)
    ensures
        expr_matches(r, sp_parse(toks_view(args@), ext)),
{
    let ghost orig = args@;
    let mut args = args;
    match parse_disjunction(&args, 0, None, ext) {
        Err(e) => Err(e),
        Ok((node, j)) => {
            let rest = args.split_off(j);
            proof {
                assert(toks_view(rest@) =~= toks_view(orig).subrange(
                    j as int,
                    toks_view(orig).len() as int,
                ));
            }
            Ok(Expr { node, rest })
        },
    }
}

/// Parses the argument tokens of an annotation: the boolean expression,
/// and the untouched remainder after its terminating top-level comma, if
/// one is there.
pub fn parse(args: Vec<Token>) -> (r: Result<Expr, Error>)
    ensures
        expr_matches(r, sp_parse(toks_view(args@), false)),
{
    parse_mode(args, false)
}

/// As [`parse`], with the extension grammar switched on: equality tests
/// may be written without the `=` sign, and groups with the invisible
/// delimiter stand for substituted sub-expression fragments.
pub fn parse_extended(args: Vec<Token>) -> (r: Result<Expr, Error>)
    ensures
        expr_matches(r, sp_parse(toks_view(args@), true)),
{
    parse_mode(args, true)
}

} // verus!
