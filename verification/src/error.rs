//! Diagnostics: a location-anchored parse error, and its conversion into
//! the host's error-reporting syntax: a call-style error directive that
//! carries the message as a string literal.

use crate::token::{Delim, GGroup, GIdent, GLit, GPunct, GToken, GroupTok, IdentTok, LitTok,
    PunctTok, Span, Token, lemma_toks_view, toks_view};
use vstd::prelude::*;

verus! {

/// One user-facing parse error, anchored to a source location.
#[derive(Debug, PartialEq)]
pub struct Error {
    pub span: Span,
    pub msg: String,
}

/// The mathematical model of an error.
pub struct GError {
    pub span: Span,
    pub msg: Seq<char>,
}

impl View for Error {
    type V = GError;

    open spec fn view(&self) -> GError {
        GError { span: self.span, msg: self.msg@ }
    }
}

/// How one character of a message reads inside a double-quoted string
/// literal: `"` and `\` take a leading backslash, all others stand as
/// they are.
pub open spec fn escape_char(c: char) -> Seq<char> {
    if c == '"' || c == '\\' {
        seq!['\\', c]
    } else {
        seq![c]
    }
}

/// A message with each character escaped for a string literal.
pub open spec fn escaped(s: Seq<char>) -> Seq<char>
    decreases s,
{
    if s.len() == 0 {
        Seq::empty()
    } else {
        escaped(s.drop_last()) + escape_char(s.last())
    }
}

/// The source text of the string literal holding a message: the escaped
/// message between double quotes.
pub open spec fn quoted(s: Seq<char>) -> Seq<char> {
    seq!['"'] + escaped(s) + seq!['"']
}

/// Builds the source text of a double-quoted string literal whose value
/// is `msg`.
pub fn quote_str(msg: &str) -> (r: String)
    ensures
        r@ == quoted(msg@),
{
    proof {
        reveal_strlit("\"");
        reveal_strlit("\\\"");
        reveal_strlit("\\\\");
    }
    let n = msg.unicode_len();
    let mut out: String = "\"".to_owned();
    let mut i: usize = 0;
    while i < n
        invariant
            n == msg@.len(),
            0 <= i <= n,
            out@ == seq!['"'] + escaped(msg@.subrange(0, i as int)),
        decreases n - i,
    {
        proof {
            reveal_strlit("\"");
            reveal_strlit("\\\"");
            reveal_strlit("\\\\");
            assert(msg@.subrange(0, i + 1).drop_last() =~= msg@.subrange(0, i as int));
            assert(msg@.subrange(0, i + 1).last() == msg@[i as int]);
        }
        let c = msg.get_char(i);
        if c == '"' {
            out.append("\\\"");
        } else if c == '\\' {
            out.append("\\\\");
        } else {
            out.append(msg.substring_char(i, i + 1));
            proof {
                assert(msg@.subrange(i as int, i + 1) =~= escape_char(msg@[i as int]));
            }
        }
        i += 1;
    }
    proof {
        reveal_strlit("\"");
        assert(msg@.subrange(0, n as int) =~= msg@);
    }
    out.append("\"");
    out
}

/// The name of the host's error-reporting macro.
pub open spec fn error_macro_name() -> Seq<char> {
    "compile_"@ + "error"@
}

/// The tokens of the error directive an error converts into.
pub open spec fn error_directive_toks(e: GError) -> Seq<GToken> {
    seq![
        GToken::Ident(GIdent { name: error_macro_name(), span: e.span }),
        GToken::Punct(GPunct { ch: '!', joint: false, span: e.span }),
        GToken::Group(
            GGroup {
                delim: Delim::Brace,
                open: e.span,
                close: e.span,
                toks: seq![GToken::Lit(GLit { repr: quoted(e.msg), span: e.span })],
            },
        ),
    ]
}

impl Error {
    /// A new error with the given anchor and message.
    pub fn new(span: Span, msg: &str) -> (e: Error)
        ensures
            e@ == (GError { span, msg: msg@ }),
    {
        Error { span, msg: msg.to_owned() }
    }

    /// The error as the host's own error-reporting syntax: a call-style
    /// error directive carrying the message as a string literal, anchored
    /// at the recorded location.
    pub fn error_tokens(self) -> (out: Vec<Token>)
        ensures
            toks_view(out@) == error_directive_toks(self@),
    {
        let repr = quote_str(self.msg.as_str());
        let body = vec![Token::Lit(LitTok { repr, span: self.span })];
        let mut macro_name: String = "compile_".to_owned();
        macro_name.append("error");
        let out = vec![
            Token::Ident(IdentTok { name: macro_name, span: self.span }),
            Token::Punct(PunctTok { ch: '!', joint: false, span: self.span }),
            Token::Group(
                GroupTok { delim: Delim::Brace, open: self.span, close: self.span, toks: body },
            ),
        ];
        proof {
            broadcast use lemma_toks_view;

            assert(toks_view(body@) =~= seq![
                GToken::Lit(GLit { repr: quoted(self@.msg), span: self.span }),
            ]);
            assert(toks_view(out@) =~~= error_directive_toks(self@));
        }
        out
    }
}

} // verus!
