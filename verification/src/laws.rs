//! Laws of the parser and renderer, stated and proved over the
//! mathematical models.

use crate::expr::{sp_atom, sp_conjunction, sp_conjunction_rest, sp_disjunction,
    sp_disjunction_rest, sp_parse, GNode};
use crate::render::{comma_tok, render_list_toks, render_node_toks};
use crate::token::{Delim, GToken, Span};
use vstd::prelude::*;

verus! {

/// The shape of every parsed tree: an equality test keeps its `=`
/// punctuation, and a disjunction or conjunction holds at least two
/// operands — a single operand is never wrapped.
pub open spec fn parsed_form(n: GNode) -> bool
    decreases n,
{
    match n {
        GNode::Ident(_) => true,
        GNode::Equal(_, p, _) => p.ch == '=',
        GNode::Not(b) => parsed_form(*b),
        GNode::Or(cs) => cs.len() >= 2 && forall|i: int|
            0 <= i < cs.len() ==> parsed_form(#[trigger] cs[i]),
        GNode::And(cs) => cs.len() >= 2 && forall|i: int|
            0 <= i < cs.len() ==> parsed_form(#[trigger] cs[i]),
    }
}

proof fn lemma_atom_form(ts: Seq<GToken>, i: nat, ctx: Option<Span>, ext: bool)
    ensures
        sp_atom(ts, i, ctx, ext) matches Ok(p) ==> parsed_form(p.0),
    decreases ts, ts.len() - i, 0int,
{
    if i >= ts.len() {
    } else {
        match ts[i as int] {
            GToken::Ident(_) => {},
            GToken::Punct(p) => {
                if p.ch == '!' {
                    lemma_atom_form(ts, (i + 1) as nat, ctx, ext);
                }
            },
            GToken::Lit(_) => {},
            GToken::Group(g) => {
                lemma_disjunction_form(g.toks, 0, Some(g.close), ext);
            },
        }
    }
}

proof fn lemma_conjunction_form(ts: Seq<GToken>, i: nat, ctx: Option<Span>, ext: bool)
    ensures
        sp_conjunction(ts, i, ctx, ext) matches Ok(p) ==> parsed_form(p.0),
    decreases ts, ts.len() - i, 1int,
{
    lemma_atom_form(ts, i, ctx, ext);
    if let Ok((first, j)) = sp_atom(ts, i, ctx, ext) {
        if i < j && j <= ts.len() {
            lemma_conjunction_rest_form(ts, j, ctx, ext);
            if let Ok((more, _k)) = sp_conjunction_rest(ts, j, ctx, ext) {
                if more.len() > 0 {
                    let all = seq![first] + more;
                    assert(forall|x: int| 0 <= x < all.len() ==> parsed_form(#[trigger] all[x]));
                }
            }
        }
    }
}

proof fn lemma_conjunction_rest_form(ts: Seq<GToken>, i: nat, ctx: Option<Span>, ext: bool)
    ensures
        sp_conjunction_rest(ts, i, ctx, ext) matches Ok(q) ==> forall|x: int|
            0 <= x < q.0.len() ==> parsed_form(#[trigger] q.0[x]),
    decreases ts, ts.len() - i, 0int,
{
    if i >= ts.len() {
    } else {
        match ts[i as int] {
            GToken::Punct(p) => {
                let op_ok = p.joint && i + 1 < ts.len() && match ts[i as int + 1] {
                    GToken::Punct(q) => q.ch == '&',
                    _ => false,
                };
                if p.ch == '&' && op_ok {
                    lemma_atom_form(ts, (i + 2) as nat, ctx, ext);
                    if let Ok((a, j)) = sp_atom(ts, (i + 2) as nat, ctx, ext) {
                        if i + 2 < j && j <= ts.len() {
                            lemma_conjunction_rest_form(ts, j, ctx, ext);
                        }
                    }
                }
            },
            _ => {},
        }
    }
}

proof fn lemma_disjunction_form(ts: Seq<GToken>, i: nat, ctx: Option<Span>, ext: bool)
    ensures
        sp_disjunction(ts, i, ctx, ext) matches Ok(p) ==> parsed_form(p.0),
    decreases ts, ts.len() - i, 2int,
{
    lemma_conjunction_form(ts, i, ctx, ext);
    if let Ok((first, j)) = sp_conjunction(ts, i, ctx, ext) {
        if i < j && j <= ts.len() {
            lemma_disjunction_rest_form(ts, j, ctx, ext);
            if let Ok((more, _k)) = sp_disjunction_rest(ts, j, ctx, ext) {
                if more.len() > 0 {
                    let all = seq![first] + more;
                    assert(forall|x: int| 0 <= x < all.len() ==> parsed_form(#[trigger] all[x]));
                }
            }
        }
    }
}

proof fn lemma_disjunction_rest_form(ts: Seq<GToken>, i: nat, ctx: Option<Span>, ext: bool)
    ensures
        sp_disjunction_rest(ts, i, ctx, ext) matches Ok(q) ==> forall|x: int|
            0 <= x < q.0.len() ==> parsed_form(#[trigger] q.0[x]),
    decreases ts, ts.len() - i, 0int,
{
    if i >= ts.len() {
    } else {
        match ts[i as int] {
            GToken::Punct(p) => {
                let op_ok = p.joint && i + 1 < ts.len() && match ts[i as int + 1] {
                    GToken::Punct(q) => q.ch == '|',
                    _ => false,
                };
                if p.ch == '|' && op_ok {
                    lemma_conjunction_form(ts, (i + 2) as nat, ctx, ext);
                    if let Ok((c, j)) = sp_conjunction(ts, (i + 2) as nat, ctx, ext) {
                        if i + 2 < j && j <= ts.len() {
                            lemma_disjunction_rest_form(ts, j, ctx, ext);
                        }
                    }
                }
            },
            _ => {},
        }
    }
}

/// Single-operand collapse: whatever tokens are parsed, the tree of a
/// successful parse is in parsed form — in particular no disjunction or
/// conjunction of one operand is ever created, so a single condition
/// renders as itself, never inside a wrapping `any(...)` or `all(...)`.
pub proof fn lemma_parse_form(ts: Seq<GToken>, ext: bool)
    ensures
        sp_parse(ts, ext) matches Ok(p) ==> parsed_form(p.0),
{
    lemma_disjunction_form(ts, 0, None, ext);
}

/// What the host's predicate evaluator makes of a parsed tree, given the
/// truth the host assigns to each bare named condition (`ids`) and to
/// each equality test, keyed by identifier name and literal source text
/// (`eqs`).
pub open spec fn eval_node(
    n: GNode,
    ids: Map<Seq<char>, bool>,
    eqs: Map<(Seq<char>, Seq<char>), bool>,
) -> bool
    decreases n,
{
    match n {
        GNode::Ident(id) => ids[id.name],
        GNode::Equal(k, _p, v) => eqs[(k.name, v.repr)],
        GNode::Not(b) => !eval_node(*b, ids, eqs),
        GNode::Or(cs) => exists|i: int|
            0 <= i < cs.len() && eval_node(#[trigger] cs[i], ids, eqs),
        GNode::And(cs) => forall|i: int|
            0 <= i < cs.len() ==> eval_node(#[trigger] cs[i], ids, eqs),
    }
}

/// Some operand of the list holds.
pub open spec fn any_of(bs: Seq<bool>) -> bool {
    exists|i: int| 0 <= i < bs.len() && bs[i]
}

/// Every operand of the list holds.
pub open spec fn all_of(bs: Seq<bool>) -> bool {
    forall|i: int| 0 <= i < bs.len() ==> bs[i]
}

/// How many tokens the leading operand of a call-style operand list
/// takes: a call form `name ( ... )` takes two, an equality test three,
/// a bare identifier one.
pub open spec fn operand_len(ts: Seq<GToken>) -> nat {
    if ts.len() >= 2 && ts[1] is Group {
        2
    } else if ts.len() >= 3 && (ts[1] matches GToken::Punct(p) && p.ch == '=') && ts[2] is Lit {
        3
    } else {
        1
    }
}

/// The host's reading of one operand of the call-style predicate syntax:
/// a bare identifier, an equality test, or a `not` / `any` / `all` call
/// on a parenthesized operand list. Anything else reads as nothing.
pub open spec fn eval_pred(
    ts: Seq<GToken>,
    ids: Map<Seq<char>, bool>,
    eqs: Map<(Seq<char>, Seq<char>), bool>,
) -> Option<bool>
    decreases ts, 0int,
{
    if ts.len() == 1 {
        match ts[0] {
            GToken::Ident(id) => Some(ids[id.name]),
            _ => None,
        }
    } else if ts.len() == 3 {
        match (ts[0], ts[1], ts[2]) {
            (GToken::Ident(k), GToken::Punct(p), GToken::Lit(v)) => {
                if p.ch == '=' {
                    Some(eqs[(k.name, v.repr)])
                } else {
                    None
                }
            },
            _ => None,
        }
    } else if ts.len() == 2 {
        match (ts[0], ts[1]) {
            (GToken::Ident(f), GToken::Group(g)) => {
                if g.delim == Delim::Paren {
                    if f.name == "not"@ {
                        match eval_pred(g.toks, ids, eqs) {
                            Some(b) => Some(!b),
                            None => None,
                        }
                    } else if f.name == "any"@ {
                        match eval_args(g.toks, ids, eqs) {
                            Some(bs) => Some(any_of(bs)),
                            None => None,
                        }
                    } else if f.name == "all"@ {
                        match eval_args(g.toks, ids, eqs) {
                            Some(bs) => Some(all_of(bs)),
                            None => None,
                        }
                    } else {
                        None
                    }
                } else {
                    None
                }
            },
            _ => None,
        }
    } else {
        None
    }
}

/// The host's reading of a comma-separated operand list: the truth of
/// each operand in order, or nothing if the list is malformed.
pub open spec fn eval_args(
    ts: Seq<GToken>,
    ids: Map<Seq<char>, bool>,
    eqs: Map<(Seq<char>, Seq<char>), bool>,
) -> Option<Seq<bool>>
    decreases ts, 1int,
    via eval_args_decreases
{
    if ts.len() == 0 {
        Some(Seq::empty())
    } else {
        let k = operand_len(ts) as int;
        match eval_pred(ts.subrange(0, k), ids, eqs) {
            None => None,
            Some(b) => {
                if k == ts.len() {
                    Some(seq![b])
                } else {
                    match ts[k] {
                        GToken::Punct(p) => {
                            if p.ch == ',' {
                                match eval_args(ts.subrange(k + 1, ts.len() as int), ids, eqs) {
                                    None => None,
                                    Some(rest) => Some(seq![b] + rest),
                                }
                            } else {
                                None
                            }
                        },
                        _ => None,
                    }
                }
            },
        }
    }
}

#[via_fn]
proof fn eval_args_decreases(
    ts: Seq<GToken>,
    ids: Map<Seq<char>, bool>,
    eqs: Map<(Seq<char>, Seq<char>), bool>,
) {
    if ts.len() > 0 {
        let k = operand_len(ts) as int;
        if k == ts.len() {
            assert(ts.subrange(0, k) =~= ts);
        }
    }
}

proof fn lemma_operand_shape(n: GNode)
    requires
        parsed_form(n),
    ensures
        ({
            let r = render_node_toks(n);
            &&& 1 <= r.len() <= 3
            &&& (r.len() == 2 ==> r[1] is Group)
            &&& (r.len() == 3 ==> (r[1] matches GToken::Punct(p) && p.ch == '=') && r[2] is Lit)
        }),
{
}

proof fn lemma_render_eval(
    n: GNode,
    ids: Map<Seq<char>, bool>,
    eqs: Map<(Seq<char>, Seq<char>), bool>,
)
    requires
        parsed_form(n),
    ensures
        eval_pred(render_node_toks(n), ids, eqs) == Some(eval_node(n, ids, eqs)),
    decreases n, 1int,
{
    let r = render_node_toks(n);
    match n {
        GNode::Ident(_) => {},
        GNode::Equal(_, _, _) => {},
        GNode::Not(b) => {
            lemma_render_eval(*b, ids, eqs);
        },
        GNode::Or(cs) => {
            proof_strlit_heads();
            lemma_eval_args_render(cs, ids, eqs);
            let bs = Seq::new(cs.len(), |i: int| eval_node(cs[i], ids, eqs));
            assert(any_of(bs) ==> eval_node(n, ids, eqs)) by {
                if any_of(bs) {
                    let w = choose|i: int| 0 <= i < bs.len() && bs[i];
                    assert(eval_node(cs[w], ids, eqs));
                }
            }
            assert(eval_node(n, ids, eqs) ==> any_of(bs)) by {
                if eval_node(n, ids, eqs) {
                    let w = choose|i: int|
                        0 <= i < cs.len() && eval_node(#[trigger] cs[i], ids, eqs);
                    assert(bs[w]);
                }
            }
        },
        GNode::And(cs) => {
            proof_strlit_heads();
            lemma_eval_args_render(cs, ids, eqs);
            let bs = Seq::new(cs.len(), |i: int| eval_node(cs[i], ids, eqs));
            if all_of(bs) {
                assert forall|i: int| 0 <= i < cs.len() implies eval_node(
                    #[trigger] cs[i],
                    ids,
                    eqs,
                ) by {
                    assert(bs[i]);
                }
            }
            if eval_node(n, ids, eqs) {
                assert forall|i: int| 0 <= i < bs.len() implies #[trigger] bs[i] by {
                    assert(eval_node(cs[i], ids, eqs));
                }
            }
        },
    }
}

/// The three call heads the renderer writes are pairwise distinct names.
proof fn proof_strlit_heads()
    ensures
        "not"@ != "any"@,
        "not"@ != "all"@,
        "any"@ != "all"@,
{
    reveal_strlit("not");
    reveal_strlit("any");
    reveal_strlit("all");
    assert("not"@[0] == 'n' && "any"@[0] == 'a' && "all"@[1] == 'l' && "any"@[1] == 'n');
}

proof fn lemma_eval_args_render(
    cs: Seq<GNode>,
    ids: Map<Seq<char>, bool>,
    eqs: Map<(Seq<char>, Seq<char>), bool>,
)
    requires
        forall|i: int| 0 <= i < cs.len() ==> parsed_form(#[trigger] cs[i]),
    ensures
        eval_args(render_list_toks(cs), ids, eqs) == Some(
            Seq::new(cs.len(), |i: int| eval_node(cs[i], ids, eqs)),
        ),
    decreases cs, 0int,
{
    let goal = Seq::new(cs.len(), |i: int| eval_node(cs[i], ids, eqs));
    if cs.len() == 0 {
        assert(goal =~= Seq::<bool>::empty());
    } else {
        lemma_render_eval(cs[0], ids, eqs);
        lemma_operand_shape(cs[0]);
        let r0 = render_node_toks(cs[0]);
        let ts = render_list_toks(cs);
        if cs.len() == 1 {
            assert(ts == r0);
            assert(operand_len(ts) == r0.len());
            assert(ts.subrange(0, r0.len() as int) =~= r0);
            assert(goal =~= seq![eval_node(cs[0], ids, eqs)]);
        } else {
            let tail = cs.subrange(1, cs.len() as int);
            assert(ts == r0 + seq![comma_tok()] + render_list_toks(tail));
            assert(ts.len() == r0.len() + 1 + render_list_toks(tail).len());
            assert(forall|i: int| 0 <= i < r0.len() ==> ts[i] == r0[i]);
            assert(ts[r0.len() as int] == comma_tok());
            assert(operand_len(ts) == r0.len());
            assert(ts.subrange(0, r0.len() as int) =~= r0);
            assert(forall|i: int| 0 <= i < tail.len() ==> parsed_form(#[trigger] tail[i]));
            lemma_eval_args_render(tail, ids, eqs);
            assert(ts.subrange(r0.len() as int + 1, ts.len() as int) =~= render_list_toks(tail));
            let tail_goal = Seq::new(tail.len(), |i: int| eval_node(tail[i], ids, eqs));
            assert(goal =~= seq![eval_node(cs[0], ids, eqs)] + tail_goal);
        }
    }
}

/// Round-trip equivalence: when the tokens parse, the rendered
/// call-style predicate reads back, under the host's evaluation of
/// `not` / `any` / `all` nesting, to exactly the meaning of the parsed
/// boolean expression, whatever truth the host assigns to each bare
/// condition and each equality test.
pub proof fn lemma_round_trip(
    ts: Seq<GToken>,
    ext: bool,
    ids: Map<Seq<char>, bool>,
    eqs: Map<(Seq<char>, Seq<char>), bool>,
)
    ensures
        sp_parse(ts, ext) matches Ok(p) ==> eval_pred(render_node_toks(p.0), ids, eqs) == Some(
            eval_node(p.0, ids, eqs),
        ),
{
    lemma_parse_form(ts, ext);
    if let Ok(p) = sp_parse(ts, ext) {
        lemma_render_eval(p.0, ids, eqs);
    }
}


} // verus!
