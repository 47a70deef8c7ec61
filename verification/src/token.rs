//! The token model: the plain-data shape of the host's syntax tokens.
//!
//! Each token is an identifier, a punctuation character with a spacing
//! hint, a literal held as its exact source text, or a delimited group of
//! further tokens. Source locations are carried as plain `Span` values so
//! that diagnostics and re-emitted tokens keep their anchors.

use vstd::prelude::*;

verus! {

/// A source location: the host's call-site location, or a numbered
/// location belonging to a token of the input.
#[derive(Clone, Copy, PartialEq, Eq, Structural, Debug)]
pub enum Span {
    Call,
    At(u32),
}

/// The delimiter of a group token. `Bare` is the invisible delimiter a
/// host uses around substituted token fragments.
#[derive(Clone, Copy, PartialEq, Eq, Structural, Debug)]
pub enum Delim {
    Paren,
    Bracket,
    Brace,
    Bare,
}

/// An identifier token.
#[derive(Debug, PartialEq)]
pub struct IdentTok {
    pub name: String,
    pub span: Span,
}

/// A punctuation token. `joint` is the spacing hint: true when the next
/// token of the stream follows with no intervening whitespace, which is
/// what lets `&&` be told apart from `& &`.
#[derive(Debug, PartialEq)]
pub struct PunctTok {
    pub ch: char,
    pub joint: bool,
    pub span: Span,
}

/// A literal token, held as its exact source text so it can be re-emitted
/// verbatim with its quoting and escaping unchanged.
#[derive(Debug, PartialEq)]
pub struct LitTok {
    pub repr: String,
    pub span: Span,
}

/// A delimited group token, with the locations of its opening and closing
/// delimiters.
#[derive(Debug, PartialEq)]
pub struct GroupTok {
    pub delim: Delim,
    pub open: Span,
    pub close: Span,
    pub toks: Vec<Token>,
}

/// One syntax token.
#[derive(Debug, PartialEq)]
pub enum Token {
    Ident(IdentTok),
    Punct(PunctTok),
    Lit(LitTok),
    Group(GroupTok),
}

/// The mathematical model of an identifier token.
pub struct GIdent {
    pub name: Seq<char>,
    pub span: Span,
}

/// The mathematical model of a punctuation token.
pub struct GPunct {
    pub ch: char,
    pub joint: bool,
    pub span: Span,
}

/// The mathematical model of a literal token.
pub struct GLit {
    pub repr: Seq<char>,
    pub span: Span,
}

/// The mathematical model of a group token.
pub struct GGroup {
    pub delim: Delim,
    pub open: Span,
    pub close: Span,
    pub toks: Seq<GToken>,
}

/// The mathematical model of one token.
pub enum GToken {
    Ident(GIdent),
    Punct(GPunct),
    Lit(GLit),
    Group(GGroup),
}

impl View for IdentTok {
    type V = GIdent;

    open spec fn view(&self) -> GIdent {
        GIdent { name: self.name@, span: self.span }
    }
}

impl View for PunctTok {
    type V = GPunct;

    open spec fn view(&self) -> GPunct {
        GPunct { ch: self.ch, joint: self.joint, span: self.span }
    }
}

impl View for LitTok {
    type V = GLit;

    open spec fn view(&self) -> GLit {
        GLit { repr: self.repr@, span: self.span }
    }
}

/// The model of one token.
pub open spec fn tok_view(t: Token) -> GToken
    decreases t,
{
    match t {
        Token::Ident(i) => GToken::Ident(i@),
        Token::Punct(p) => GToken::Punct(p@),
        Token::Lit(l) => GToken::Lit(l@),
        Token::Group(g) => GToken::Group(
            GGroup { delim: g.delim, open: g.open, close: g.close, toks: toks_view(g.toks@) },
        ),
    }
}

/// The model of a whole token sequence.
pub open spec fn toks_view(ts: Seq<Token>) -> Seq<GToken>
    decreases ts,
{
    if ts.len() == 0 {
        Seq::empty()
    } else {
        seq![tok_view(ts[0])] + toks_view(ts.subrange(1, ts.len() as int))
    }
}

impl View for Token {
    type V = GToken;

    open spec fn view(&self) -> GToken {
        tok_view(*self)
    }
}

/// A token sequence's model is the model of its tokens, one for one.
pub broadcast proof fn lemma_toks_view(ts: Seq<Token>)
    ensures
        (#[trigger] toks_view(ts)).len() == ts.len(),
        forall|i: int| 0 <= i < ts.len() ==> toks_view(ts)[i] == tok_view(ts[i]),
    decreases ts,
{
    if ts.len() > 0 {
        lemma_toks_view(ts.subrange(1, ts.len() as int));
    }
}

/// The model of a concatenation is the concatenation of the models.
pub broadcast proof fn lemma_toks_view_concat(a: Seq<Token>, b: Seq<Token>)
    ensures
        #[trigger] toks_view(a + b) == toks_view(a) + toks_view(b),
    decreases a,
{
    broadcast use lemma_toks_view;

    lemma_toks_view(a);
    lemma_toks_view(b);
    lemma_toks_view(a + b);
    assert(toks_view(a + b) =~= toks_view(a) + toks_view(b));
}

/// Copies an identifier token.
pub fn clone_ident(t: &IdentTok) -> (r: IdentTok)
    ensures
        r@ == t@,
{
    IdentTok { name: t.name.clone(), span: t.span }
}

/// Copies a punctuation token.
pub fn clone_punct(t: &PunctTok) -> (r: PunctTok)
    ensures
        r@ == t@,
{
    PunctTok { ch: t.ch, joint: t.joint, span: t.span }
}

/// Copies a literal token.
pub fn clone_lit(t: &LitTok) -> (r: LitTok)
    ensures
        r@ == t@,
{
    LitTok { repr: t.repr.clone(), span: t.span }
}

} // verus!
