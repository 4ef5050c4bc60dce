//! The shape of a `#` directive: `#name{body}` (one item), or
//! `#cmd(args){body}` with `cmd` one of `fill`, `delegate`, `blanket`, or
//! any other name (the open extension: a top-level call of the user's
//! macro).
use crate::diag::Diag;
use crate::text::cat3;
use crate::token::{copy_tok, copy_toks, group_tok_view, tvs, Delim, Spacing, Tok, TokV};
use vstd::prelude::*;

verus! {

broadcast use group_tok_view;

/// The directive forms.
#[derive(Clone, Copy, PartialEq, Eq, Structural, Debug)]
pub enum DirectiveKind {
    /// `#name{body}`: the item `name` implemented with `body`.
    Single,
    /// `#fill(args){body}`.
    Fill,
    /// `#delegate(args){target}`.
    Delegate,
    /// `#blanket(args){wrappers}`.
    Blanket,
    /// `#name(args){body}` for any other name.
    Open,
}

pub open spec fn kind_of(name: Seq<char>) -> DirectiveKind {
    if name == "fill"@ {
        DirectiveKind::Fill
    } else if name == "delegate"@ {
        DirectiveKind::Delegate
    } else if name == "blanket"@ {
        DirectiveKind::Blanket
    } else {
        DirectiveKind::Open
    }
}

pub open spec fn body_missing_msg(name: Seq<char>) -> Seq<char> {
    "`#"@ + name + "` must be followed by `(args)` or `[args]` + `{body}` (or directly `{body}`)"@
}

pub open spec fn args_missing_msg(name: Seq<char>) -> Seq<char> {
    "`#"@ + name + "` must be followed by `(args)` / `[args]` or a code block `{body}`"@
}

/// The directive named `name` whose `#` is at `i`: its form and how many
/// tokens it spans.
pub open spec fn directive_spec(s: Seq<TokV>, i: int, name: Seq<char>) -> Result<
    (DirectiveKind, int),
    Seq<char>,
> {
    if 0 <= i && i + 2 < s.len() && s[i + 2] is Group {
        match s[i + 2] {
            TokV::Group(Delim::Brace, _) => Ok((DirectiveKind::Single, 3)),
            _ => if i + 3 < s.len() && (s[i + 3] matches TokV::Group(Delim::Brace, _)) {
                Ok((kind_of(name), 4))
            } else {
                Err(body_missing_msg(name))
            },
        }
    } else {
        Err(args_missing_msg(name))
    }
}

/// Reads the directive `#name...` whose `#` is at `i` (`name` is the
/// identifier after it): the form, and the tokens it spans (the group
/// after the name is at `i + 2`, a body after arguments at `i + 3`).
pub fn parse_directive(tokens: &[Tok], i: usize, name: &str) -> (r: Result<(DirectiveKind, usize), Diag>)
    ensures
        match r {
            Ok((k, n)) => directive_spec(tvs(tokens@), i as int, name@) == Ok::<
                (DirectiveKind, int),
                Seq<char>,
            >((k, n as int)),
            Err(d) => directive_spec(tvs(tokens@), i as int, name@) == Err::<
                (DirectiveKind, int),
                Seq<char>,
            >(d@),
        },
{
    let n = tokens.len();
    if i < n && 2 < n - i {
        match &tokens[i + 2] {
            Tok::Group(Delim::Brace, _) => {
                return Ok((DirectiveKind::Single, 3));
            },
            Tok::Group(_, _) => {
                if 3 < n - i {
                    match &tokens[i + 3] {
                        Tok::Group(Delim::Brace, _) => {
                            return Ok((directive_kind(name), 4));
                        },
                        _ => {},
                    }
                }
                return Err(
                    Diag {
                        message: cat3(
                            "`#",
                            name,
                            "` must be followed by `(args)` or `[args]` + `{body}` (or directly `{body}`)",
                        ),
                    },
                );
            },
            _ => {},
        }
    }
    Err(
        Diag {
            message: cat3(
                "`#",
                name,
                "` must be followed by `(args)` / `[args]` or a code block `{body}`",
            ),
        },
    )
}

/// The form a directive name selects after arguments.
pub fn directive_kind(name: &str) -> (k: DirectiveKind)
    ensures
        k == kind_of(name@),
{
    let s = String::from_str(name);
    if crate::token::text_is(&s, "fill") {
        DirectiveKind::Fill
    } else if crate::token::text_is(&s, "delegate") {
        DirectiveKind::Delegate
    } else if crate::token::text_is(&s, "blanket") {
        DirectiveKind::Blanket
    } else {
        DirectiveKind::Open
    }
}

/// The open extension's expansion: a brace group holding `!` and the call
/// `name ! { (args) {body} trait ... }` of the user's macro, which the
/// code generator emits at top level.
pub open spec fn open_call_spec(
    name: Seq<char>,
    args: TokV,
    body: TokV,
    trait_tokens: Seq<TokV>,
) -> TokV {
    TokV::Group(
        Delim::Brace,
        seq![
            TokV::Punct('!', Spacing::Alone),
            TokV::Ident(name),
            TokV::Punct('!', Spacing::Alone),
            TokV::Group(Delim::Brace, seq![args, body] + trait_tokens),
        ],
    )
}

/// Builds the open extension's top-level call (see [`open_call_spec`]).
pub fn open_extension(name: &str, args: &Tok, body: &Tok, trait_tokens: &[Tok]) -> (t: Tok)
    ensures
        t@ == open_call_spec(name@, args@, body@, tvs(trait_tokens@)),
{
    let a = copy_tok(args);
    let b = copy_tok(body);
    let mut inner = vec![a, b];
    let ghost i0 = inner@;
    let mut rest = copy_toks(trait_tokens);
    let ghost rv = rest@;
    inner.append(&mut rest);
    proof {
        crate::token::lemma_tvs_concat(i0, rv);
        assert(tvs(i0) =~= seq![args@, body@]);
    }
    let call = vec![
        Tok::Punct('!', Spacing::Alone),
        Tok::Ident(String::from_str(name)),
        Tok::Punct('!', Spacing::Alone),
        Tok::Group(Delim::Brace, inner),
    ];
    let t = Tok::Group(Delim::Brace, call);
    assert(tvs(call@) =~= seq![
        TokV::Punct('!', Spacing::Alone),
        TokV::Ident(name@),
        TokV::Punct('!', Spacing::Alone),
        TokV::Group(Delim::Brace, seq![args@, body@] + tvs(trait_tokens@)),
    ]);
    t
}

} // verus!
