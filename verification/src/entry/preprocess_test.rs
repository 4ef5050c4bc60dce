//! `batch_preprocess_test!`, the reference consumer of the open-extension
//! protocol: its input is `{spec}(names){body} trait ...` (a full impl for
//! the spec) or `(names){body} trait ...` (associated items for the
//! enclosing impl). This module pairs the input and takes it apart.
use crate::angle::{angle_collect, collect_spec};
use crate::diag::{diag, Diag};
use crate::token::{copy_range, copy_toks, group_tok_view, tvs, Delim, Tok, TokV};
use vstd::prelude::*;

verus! {

broadcast use group_tok_view;

/// The parts of the input.
#[derive(Debug)]
pub struct TestInput {
    /// The content of the leading `{spec}` group (top-level form).
    pub spec: Option<Vec<Tok>>,
    /// The content of the `(names)` group.
    pub names: Vec<Tok>,
    /// The content of the `{body}` group.
    pub body: Vec<Tok>,
    /// The tokens of the trait definition.
    pub trait_tokens: Vec<Tok>,
}

pub struct TestInputV {
    pub spec: Option<Seq<TokV>>,
    pub names: Seq<TokV>,
    pub body: Seq<TokV>,
    pub trait_tokens: Seq<TokV>,
}

pub open spec fn test_input_view(t: TestInput) -> TestInputV {
    TestInputV {
        spec: match t.spec {
            Some(v) => Some(tvs(v@)),
            None => None,
        },
        names: tvs(t.names@),
        body: tvs(t.body@),
        trait_tokens: tvs(t.trait_tokens@),
    }
}

pub open spec fn shape_msg() -> Seq<char> {
    "batch-impl: batch_preprocess_test expects `(method name list){body} trait ...`"@
}

/// The parts of paired tokens `s`.
pub open spec fn parts_spec(s: Seq<TokV>) -> Result<TestInputV, Seq<char>> {
    let spec = if s.len() >= 2 && (s[0] matches TokV::Group(Delim::Brace, _)) && (s[1] matches TokV::Group(
        Delim::Paren,
        _,
    )) {
        match s[0] {
            TokV::Group(_, g) => Some(g),
            _ => None,
        }
    } else {
        None
    };
    let idx: int = if spec is Some {
        1
    } else {
        0
    };
    if !(idx < s.len() && (s[idx] matches TokV::Group(Delim::Paren, _))) {
        Err(shape_msg())
    } else if !(idx + 1 < s.len() && (s[idx + 1] matches TokV::Group(Delim::Brace, _))) {
        Err(shape_msg())
    } else {
        match (s[idx], s[idx + 1]) {
            (TokV::Group(_, names), TokV::Group(_, body)) => Ok(
                TestInputV { spec, names, body, trait_tokens: s.subrange(idx + 2, s.len() as int) },
            ),
            _ => Err(shape_msg()),
        }
    }
}

/// Pairs `<...>` in the input, then takes it apart (see [`parts_spec`]).
pub fn preprocess_test_parts(input: &[Tok]) -> (r: Result<TestInput, Diag>)
    ensures
        match collect_spec(tvs(input@), 0) {
            Err(e) => r matches Err(d) && d@ == e,
            Ok(s) => match r {
                Ok(t) => parts_spec(s) == Ok::<TestInputV, Seq<char>>(test_input_view(t)),
                Err(d) => parts_spec(s) == Err::<TestInputV, Seq<char>>(d@),
            },
        },
{
    let tokens = match angle_collect(input) {
        Ok(v) => v,
        Err(d) => {
            return Err(d);
        },
    };
    let ghost s = tvs(tokens@);
    let n = tokens.len();
    let spec: Option<Vec<Tok>> = if n >= 2 {
        match (&tokens[0], &tokens[1]) {
            (Tok::Group(Delim::Brace, g), Tok::Group(Delim::Paren, _)) => Some(copy_toks(g.as_slice())),
            _ => None,
        }
    } else {
        None
    };
    let idx: usize = if spec.is_some() {
        1
    } else {
        0
    };
    if idx >= n {
        return Err(diag("batch-impl: batch_preprocess_test expects `(method name list){body} trait ...`"));
    }
    let names = match &tokens[idx] {
        Tok::Group(Delim::Paren, g) => copy_toks(g.as_slice()),
        _ => {
            return Err(diag("batch-impl: batch_preprocess_test expects `(method name list){body} trait ...`"));
        },
    };
    if idx + 1 >= n {
        return Err(diag("batch-impl: batch_preprocess_test expects `(method name list){body} trait ...`"));
    }
    let body = match &tokens[idx + 1] {
        Tok::Group(Delim::Brace, g) => copy_toks(g.as_slice()),
        _ => {
            return Err(diag("batch-impl: batch_preprocess_test expects `(method name list){body} trait ...`"));
        },
    };
    let trait_tokens = copy_range(tokens.as_slice(), idx + 2, n);
    Ok(TestInput { spec, names, body, trait_tokens })
}

} // verus!
