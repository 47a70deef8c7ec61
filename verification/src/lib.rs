//! Boolean-expression surface syntax for conditional-compilation predicates.
//!
//! The library parses a token sequence holding ordinary boolean syntax
//! (`!`, `&&`, `||`, parentheses, bare identifiers, `key = "value"` tests)
//! into an abstract syntax tree, and renders that tree in the nested
//! call-style predicate form (`any(...)`, `all(...)`, `not(...)`) that a
//! host's conditional-inclusion machinery evaluates. The entry points wrap
//! the rendered predicate as a new attribute annotation spliced before the
//! annotated item's tokens; a parse failure becomes an anchored
//! compile-time error directive instead, with the item preserved after it.

pub mod error;
pub mod expr;
pub mod laws;
pub mod render;
pub mod token;

use crate::error::error_directive_toks;
use crate::expr::{parse, sp_parse};
use crate::render::{render, render_toks};
use crate::token::{lemma_toks_view_concat, toks_view, GToken, Token};
use vstd::prelude::*;

verus! {

/// The whole output of one rewriting invocation: on a successful parse,
/// the rewritten annotation headed by `head` with the remainder preserved
/// inside it, then the annotated item's tokens; on a failure, the
/// anchored error directive, then the annotated item's tokens. The item
/// is preserved either way.
pub open spec fn rewritten(head: Seq<char>, args: Seq<GToken>, input: Seq<GToken>) -> Seq<GToken> {
    match sp_parse(args, false) {
        Ok(p) => render_toks(head, p.0, p.1, input),
        Err(e) => error_directive_toks(e) + input,
    }
}

fn rewrite(head: &str, args: Vec<Token>, input: Vec<Token>) -> (out: Vec<Token>)
    ensures
        toks_view(out@) == rewritten(head@, toks_view(args@), toks_view(input@)),
{
    match parse(args) {
        Ok(expr) => render(head, expr, input),
        Err(e) => {
            let mut out = e.error_tokens();
            let ghost out0 = out@;
            let mut input = input;
            let ghost input0 = input@;
            out.append(&mut input);
            proof {
                assert(out@ =~= out0 + input0);
                lemma_toks_view_concat(out0, input0);
            }
            out
        },
    }
}

/// Rewrites the arguments of a plain conditional-inclusion annotation:
/// the boolean expression becomes the host's `cfg`-headed nested
/// predicate annotation, spliced before the annotated item's tokens.
pub fn efg(args: Vec<Token>, input: Vec<Token>) -> (out: Vec<Token>)
    ensures
        toks_view(out@) == rewritten("cfg"@, toks_view(args@), toks_view(input@)),
{
    rewrite("cfg", args, input)
}

/// As [`efg`], for the conditional variant that pairs the predicate with
/// a separately supplied payload: the rewritten annotation is headed by
/// `cfg_attr`, and the payload rides along as the preserved remainder.
pub fn efg_attr(args: Vec<Token>, input: Vec<Token>) -> (out: Vec<Token>)
    ensures
        toks_view(out@) == rewritten("cfg_attr"@, toks_view(args@), toks_view(input@)),
{
    rewrite("cfg_attr", args, input)
}

} // verus!
