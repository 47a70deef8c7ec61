use efg::error::Error;
use efg::expr::{parse, parse_extended, Node};
use efg::token::{Delim, GroupTok, IdentTok, LitTok, PunctTok, Span, Token};

fn id(name: &str, sp: u32) -> Token {
    Token::Ident(IdentTok { name: name.to_string(), span: Span::At(sp) })
}

fn punct(ch: char, joint: bool, sp: u32) -> Token {
    Token::Punct(PunctTok { ch, joint, span: Span::At(sp) })
}

fn lit(repr: &str, sp: u32) -> Token {
    Token::Lit(LitTok { repr: repr.to_string(), span: Span::At(sp) })
}

fn group(delim: Delim, open: u32, close: u32, toks: Vec<Token>) -> Token {
    Token::Group(GroupTok { delim, open: Span::At(open), close: Span::At(close), toks })
}

/// The name of the host's error-reporting macro.
fn error_macro() -> String {
    format!("compile_{}", "error")
}

/// An identifier the renderer makes up, anchored at the call site.
fn cid(name: &str) -> Token {
    Token::Ident(IdentTok { name: name.to_string(), span: Span::Call })
}

/// A punctuation token the renderer makes up.
fn cpunct(ch: char) -> Token {
    Token::Punct(PunctTok { ch, joint: false, span: Span::Call })
}

/// A parenthesized group the renderer makes up.
fn cgroup(toks: Vec<Token>) -> Token {
    Token::Group(GroupTok { delim: Delim::Paren, open: Span::Call, close: Span::Call, toks })
}

/// The expected output of a successful rewrite: `# [ head ( inner ) ]`
/// followed by the item's tokens.
fn wrap(head: &str, inner: Vec<Token>, input: Vec<Token>) -> Vec<Token> {
    let mut out = vec![
        cpunct('#'),
        Token::Group(GroupTok {
            delim: Delim::Bracket,
            open: Span::Call,
            close: Span::Call,
            toks: vec![cid(head), cgroup(inner)],
        }),
    ];
    out.extend(input);
    out
}

fn item() -> Vec<Token> {
    vec![id("item", 90), punct(';', false, 91)]
}

#[test]
fn round_trip_and_or() {
    // a && b || c  =>  cfg(any(all(a, b), c))
    let args = vec![
        id("a", 1),
        punct('&', true, 2),
        punct('&', false, 3),
        id("b", 4),
        punct('|', true, 5),
        punct('|', false, 6),
        id("c", 7),
    ];
    let out = efg::efg(args, item());
    let inner = vec![
        cid("any"),
        cgroup(vec![
            cid("all"),
            cgroup(vec![id("a", 1), cpunct(','), id("b", 4)]),
            cpunct(','),
            id("c", 7),
        ]),
    ];
    assert_eq!(out, wrap("cfg", inner, item()));
}

#[test]
fn round_trip_not_parens() {
    // !(a && b)  =>  cfg(not(all(a, b)))
    let args = vec![
        punct('!', false, 1),
        group(
            Delim::Paren,
            2,
            7,
            vec![id("a", 3), punct('&', true, 4), punct('&', false, 5), id("b", 6)],
        ),
    ];
    let out = efg::efg(args, item());
    let inner = vec![
        cid("not"),
        cgroup(vec![cid("all"), cgroup(vec![id("a", 3), cpunct(','), id("b", 6)])]),
    ];
    assert_eq!(out, wrap("cfg", inner, item()));
}

#[test]
fn single_operand_collapse() {
    // a  =>  cfg(a): no wrapping any(...) or all(...)
    let out = efg::efg(vec![id("a", 1)], item());
    assert_eq!(out, wrap("cfg", vec![id("a", 1)], item()));
}

#[test]
fn single_operand_collapse_parens() {
    // (a)  =>  cfg(a)
    let args = vec![group(Delim::Paren, 1, 3, vec![id("a", 2)])];
    let out = efg::efg(args, item());
    assert_eq!(out, wrap("cfg", vec![id("a", 2)], item()));
}

#[test]
fn negation_nesting() {
    // !!a  =>  cfg(not(not(a))), distinct from cfg(a)
    let args = vec![punct('!', true, 1), punct('!', false, 2), id("a", 3)];
    let out = efg::efg(args, item());
    let inner = vec![cid("not"), cgroup(vec![cid("not"), cgroup(vec![id("a", 3)])])];
    assert_ne!(out, wrap("cfg", vec![id("a", 3)], item()));
    assert_eq!(out, wrap("cfg", inner, item()));
}

#[test]
fn equality_atom_verbatim() {
    // feature = "alpha"  =>  cfg(feature = "alpha"), tokens verbatim
    let args = vec![id("feature", 1), punct('=', false, 2), lit("\"alpha\"", 3)];
    let out = efg::efg(args, item());
    let inner = vec![id("feature", 1), punct('=', false, 2), lit("\"alpha\"", 3)];
    assert_eq!(out, wrap("cfg", inner, item()));
}

#[test]
fn malformed_single_amp() {
    // a & b: a lone & between two atoms fails, anchored at the &
    let args = vec![id("a", 1), punct('&', false, 2), id("b", 3)];
    let e = parse(args).unwrap_err();
    assert_eq!(e.span, Span::At(2));
    assert_eq!(e.msg, "expected `&&`");
}

#[test]
fn malformed_amp_spaced_pair() {
    // a & & b: the first & is not joint, so it is rejected too
    let args = vec![id("a", 1), punct('&', false, 2), punct('&', false, 3), id("b", 4)];
    let e = parse(args).unwrap_err();
    assert_eq!(e.span, Span::At(2));
    assert_eq!(e.msg, "expected `&&`");
}

#[test]
fn malformed_single_bar() {
    // a | b fails the same way, anchored at the |
    let args = vec![id("a", 1), punct('|', false, 2), id("b", 3)];
    let e = parse(args).unwrap_err();
    assert_eq!(e.span, Span::At(2));
    assert_eq!(e.msg, "expected `||`");
}

#[test]
fn trailing_remainder_preserved() {
    // a || b, extra, tokens  =>  cfg(any(a, b), extra, tokens)
    let args = vec![
        id("a", 1),
        punct('|', true, 2),
        punct('|', false, 3),
        id("b", 4),
        punct(',', false, 5),
        id("extra", 6),
        punct(',', false, 7),
        id("tokens", 8),
    ];
    let out = efg::efg(args, item());
    let inner = vec![
        cid("any"),
        cgroup(vec![id("a", 1), cpunct(','), id("b", 4)]),
        punct(',', false, 5),
        id("extra", 6),
        punct(',', false, 7),
        id("tokens", 8),
    ];
    assert_eq!(out, wrap("cfg", inner, item()));
}

#[test]
fn group_anchored_at_open() {
    // ![a]: a group where an identifier is required anchors the error at
    // the group's opening delimiter, not its contents
    let args = vec![punct('!', false, 1), group(Delim::Bracket, 2, 4, vec![id("a", 3)])];
    let e = parse(args).unwrap_err();
    assert_eq!(e.span, Span::At(2));
    assert_eq!(e.msg, "unexpected token, expected an identifier");
}

#[test]
fn failure_isolation() {
    // One malformed invocation emits an error directive plus the item;
    // an independent valid invocation is unaffected.
    let bad_args = vec![id("a", 1), punct('&', false, 2), id("b", 3)];
    let bad_out = efg::efg(bad_args, item());
    assert_eq!(bad_out[0], Token::Ident(IdentTok { name: error_macro(), span: Span::At(2) }));
    assert_eq!(bad_out[1], Token::Punct(PunctTok {
        ch: '!',
        joint: false,
        span: Span::At(2),
    }));
    assert_eq!(bad_out[2], Token::Group(GroupTok {
        delim: Delim::Brace,
        open: Span::At(2),
        close: Span::At(2),
        toks: vec![lit("\"expected `&&`\"", 2)],
    }));
    assert_eq!(&bad_out[3..], &item()[..]);

    let good_out = efg::efg(vec![id("a", 1)], item());
    assert_eq!(good_out, wrap("cfg", vec![id("a", 1)], item()));
}

#[test]
fn empty_input_error() {
    let e = parse(vec![]).unwrap_err();
    assert_eq!(e.span, Span::Call);
    assert_eq!(e.msg, "unexpected end of input");
}

#[test]
fn empty_group_error_at_close() {
    // (): inside a group, the missing atom is anchored at the closing
    // delimiter
    let e = parse(vec![group(Delim::Paren, 1, 2, vec![])]).unwrap_err();
    assert_eq!(e.span, Span::At(2));
    assert_eq!(e.msg, "expected an identifier");
}

#[test]
fn equals_without_literal_at_end() {
    // a =  at the top level
    let e = parse(vec![id("a", 1), punct('=', false, 2)]).unwrap_err();
    assert_eq!(e.span, Span::Call);
    assert_eq!(e.msg, "unexpected end of input");
}

#[test]
fn equals_without_literal_in_group() {
    // (a =): anchored at the group's closing delimiter
    let args = vec![group(Delim::Paren, 1, 4, vec![id("a", 2), punct('=', false, 3)])];
    let e = parse(args).unwrap_err();
    assert_eq!(e.span, Span::At(4));
    assert_eq!(e.msg, "expected a string literal");
}

#[test]
fn equals_with_non_literal() {
    // a = b: the token after = must be a literal
    let e = parse(vec![id("a", 1), punct('=', false, 2), id("b", 3)]).unwrap_err();
    assert_eq!(e.span, Span::At(3));
    assert_eq!(e.msg, "unexpected token, expected a string literal");
}

#[test]
fn adjacent_atoms_error() {
    // a b: an identifier where an operator or the end is expected
    let e = parse(vec![id("a", 1), id("b", 2)]).unwrap_err();
    assert_eq!(e.span, Span::At(2));
    assert_eq!(e.msg, "unexpected token");
}

#[test]
fn leftover_in_group_error() {
    // (a, b): a comma stops the inner expression, and the leftover fails
    // the fully-consumed check, anchored at the comma
    let args = vec![group(
        Delim::Paren,
        1,
        6,
        vec![id("a", 2), punct(',', false, 3), id("b", 4)],
    )];
    let e = parse(args).unwrap_err();
    assert_eq!(e.span, Span::At(3));
    assert_eq!(e.msg, "unexpected token");
}

#[test]
fn parse_tree_shape() {
    // a && b parses to And([a, b]) with nothing left over
    let args = vec![id("a", 1), punct('&', true, 2), punct('&', false, 3), id("b", 4)];
    let expr = parse(args).unwrap();
    assert_eq!(
        expr.node,
        Node::And(vec![
            Node::Ident(IdentTok { name: "a".to_string(), span: Span::At(1) }),
            Node::Ident(IdentTok { name: "b".to_string(), span: Span::At(4) }),
        ])
    );
    assert_eq!(expr.rest, Vec::<Token>::new());
}

#[test]
fn parse_stops_at_comma() {
    // a, rest: the comma and everything after it is the remainder
    let args = vec![id("a", 1), punct(',', false, 2), id("rest", 3)];
    let expr = parse(args).unwrap();
    assert_eq!(expr.node, Node::Ident(IdentTok { name: "a".to_string(), span: Span::At(1) }));
    assert_eq!(expr.rest, vec![punct(',', false, 2), id("rest", 3)]);
}

#[test]
fn efg_attr_head_and_payload() {
    // a, derive: the cfg_attr form carries the payload as the remainder
    let args = vec![id("a", 1), punct(',', false, 2), id("derive", 3)];
    let out = efg::efg_attr(args, item());
    let inner = vec![id("a", 1), punct(',', false, 2), id("derive", 3)];
    assert_eq!(out, wrap("cfg_attr", inner, item()));
}

#[test]
fn error_tokens_escape_quotes() {
    let e = Error { span: Span::At(7), msg: "say \"hi\" \\ done".to_string() };
    let out = e.error_tokens();
    assert_eq!(out, vec![
        Token::Ident(IdentTok { name: error_macro(), span: Span::At(7) }),
        Token::Punct(PunctTok { ch: '!', joint: false, span: Span::At(7) }),
        Token::Group(GroupTok {
            delim: Delim::Brace,
            open: Span::At(7),
            close: Span::At(7),
            toks: vec![lit("\"say \\\"hi\\\" \\\\ done\"", 7)],
        }),
    ]);
}

#[test]
fn joint_bar_without_second_bar() {
    // a |! b: a joint | must be followed by a second |
    let args = vec![id("a", 1), punct('|', true, 2), punct('!', false, 3), id("b", 4)];
    let e = parse(args).unwrap_err();
    assert_eq!(e.span, Span::At(2));
    assert_eq!(e.msg, "expected `||`");
}

#[test]
fn bare_delim_group_is_rejected() {
    // A group with the invisible delimiter is not grouping syntax in the
    // default grammar; it is an unexpected token anchored at its opening
    let args = vec![group(Delim::Bare, 1, 3, vec![id("a", 2)])];
    let e = parse(args).unwrap_err();
    assert_eq!(e.span, Span::At(1));
    assert_eq!(e.msg, "unexpected token, expected an identifier");
}

#[test]
fn literal_in_atom_position() {
    // "x" && a: a literal cannot open an atom
    let args = vec![lit("\"x\"", 1), punct('&', true, 2), punct('&', false, 3), id("a", 4)];
    let e = parse(args).unwrap_err();
    assert_eq!(e.span, Span::At(1));
    assert_eq!(e.msg, "unexpected token, expected an identifier");
}

#[test]
fn negation_binds_tighter_than_and() {
    // !a && b  =>  cfg(all(not(a), b))
    let args = vec![
        punct('!', true, 1),
        id("a", 2),
        punct('&', true, 3),
        punct('&', false, 4),
        id("b", 5),
    ];
    let out = efg::efg(args, item());
    let inner = vec![
        cid("all"),
        cgroup(vec![cid("not"), cgroup(vec![id("a", 2)]), cpunct(','), id("b", 5)]),
    ];
    assert_eq!(out, wrap("cfg", inner, item()));
}

#[test]
fn error_new_records_anchor_and_message() {
    let e = Error::new(Span::At(3), "some words");
    assert_eq!(e.span, Span::At(3));
    assert_eq!(e.msg, "some words");
}

#[test]
fn truth_words_are_ordinary_conditions() {
    // true is a bare named condition like any other; its truth is the
    // host's business
    let out = efg::efg(vec![id("true", 1)], item());
    assert_eq!(out, wrap("cfg", vec![id("true", 1)], item()));
}

#[test]
fn extension_bare_literal_equality() {
    // feature "alpha" under the extension grammar: an equality test with
    // a made-up = anchored at the identifier
    let args = vec![id("feature", 1), lit("\"alpha\"", 2)];
    let expr = parse_extended(args).unwrap();
    assert_eq!(
        expr.node,
        Node::Equal(
            IdentTok { name: "feature".to_string(), span: Span::At(1) },
            PunctTok { ch: '=', joint: false, span: Span::At(1) },
            LitTok { repr: "\"alpha\"".to_string(), span: Span::At(2) },
        )
    );
}

#[test]
fn default_grammar_rejects_bare_literal() {
    // Without the extension, the literal after the identifier is an
    // unexpected token
    let args = vec![id("feature", 1), lit("\"alpha\"", 2)];
    let e = parse(args).unwrap_err();
    assert_eq!(e.span, Span::At(2));
    assert_eq!(e.msg, "unexpected token");
}

#[test]
fn extension_bare_group_substitution() {
    // An invisible-delimiter group stands for a substituted fragment
    let args = vec![group(
        Delim::Bare,
        1,
        6,
        vec![id("a", 2), punct('&', true, 3), punct('&', false, 4), id("b", 5)],
    )];
    let expr = parse_extended(args).unwrap();
    assert_eq!(
        expr.node,
        Node::And(vec![
            Node::Ident(IdentTok { name: "a".to_string(), span: Span::At(2) }),
            Node::Ident(IdentTok { name: "b".to_string(), span: Span::At(5) }),
        ])
    );
}

#[test]
fn extension_bare_group_ident_continues() {
    // A substituted lone identifier continues as an ordinary atom, so an
    // equality test can follow it
    let args = vec![
        group(Delim::Bare, 1, 3, vec![id("key", 2)]),
        punct('=', false, 4),
        lit("\"v\"", 5),
    ];
    let expr = parse_extended(args).unwrap();
    assert_eq!(
        expr.node,
        Node::Equal(
            IdentTok { name: "key".to_string(), span: Span::At(2) },
            PunctTok { ch: '=', joint: false, span: Span::At(4) },
            LitTok { repr: "\"v\"".to_string(), span: Span::At(5) },
        )
    );
}

#[test]
fn extension_bare_group_literal_value() {
    // a = <fragment holding one literal>
    let args = vec![
        id("a", 1),
        punct('=', false, 2),
        group(Delim::Bare, 3, 5, vec![lit("\"v\"", 4)]),
    ];
    let expr = parse_extended(args).unwrap();
    assert_eq!(
        expr.node,
        Node::Equal(
            IdentTok { name: "a".to_string(), span: Span::At(1) },
            PunctTok { ch: '=', joint: false, span: Span::At(2) },
            LitTok { repr: "\"v\"".to_string(), span: Span::At(4) },
        )
    );
}

#[test]
fn extension_empty_fragment_value_fails() {
    // a = <empty fragment>: anchored at the fragment's opening
    let args = vec![id("a", 1), punct('=', false, 2), group(Delim::Bare, 3, 4, vec![])];
    let e = parse_extended(args).unwrap_err();
    assert_eq!(e.span, Span::At(3));
    assert_eq!(e.msg, "unexpected token, expected a string literal");
}

#[test]
fn extension_overfull_fragment_value_fails() {
    // a = <fragment holding a literal and more>: anchored at the extra
    let args = vec![
        id("a", 1),
        punct('=', false, 2),
        group(Delim::Bare, 3, 6, vec![lit("\"v\"", 4), id("x", 5)]),
    ];
    let e = parse_extended(args).unwrap_err();
    assert_eq!(e.span, Span::At(5));
    assert_eq!(e.msg, "unexpected token");
}
