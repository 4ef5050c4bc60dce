//! Diagnostics: every pass reports an input error as a [`Diag`] whose
//! message the entry layer turns into a `compile_error!`.
use vstd::prelude::*;

use crate::text::cat3;
use crate::token::{Tok, TokV, tvs};

verus! {

/// An input error with its message.
#[derive(Debug)]
pub struct Diag {
    pub message: String,
}

impl View for Diag {
    type V = Seq<char>;

    open spec fn view(&self) -> Seq<char> {
        self.message@
    }
}

/// The view of a pass result: the output tokens, or the error message.
pub open spec fn res_view(r: Result<Vec<Tok>, Diag>) -> Result<Seq<TokV>, Seq<char>> {
    match r {
        Ok(v) => Ok(tvs(v@)),
        Err(d) => Err(d@),
    }
}

/// `x` followed by the output of `r` (errors pass through).
pub open spec fn seq_then(x: Seq<TokV>, r: Result<Seq<TokV>, Seq<char>>) -> Result<
    Seq<TokV>,
    Seq<char>,
> {
    match r {
        Ok(v) => Ok(x + v),
        Err(e) => Err(e),
    }
}

pub proof fn lemma_seq_then_assoc(a: Seq<TokV>, b: Seq<TokV>, r: Result<Seq<TokV>, Seq<char>>)
    ensures
        seq_then(a, seq_then(b, r)) == seq_then(a + b, r),
{
    if let Ok(v) = r {
        assert(a + (b + v) =~= (a + b) + v);
    }
}

/// The nesting-limit message (`suffix` names the context, e.g. " in a
/// constant value").
pub open spec fn depth_msg(suffix: Seq<char>) -> Seq<char> {
    "batch-impl: nesting depth exceeds 128 levels"@ + suffix
        + " (perhaps an accidental extra bracket)"@
}

pub fn depth_err(suffix: &str) -> (d: Diag)
    ensures
        d@ == depth_msg(suffix@),
{
    Diag {
        message: cat3(
            "batch-impl: nesting depth exceeds 128 levels",
            suffix,
            " (perhaps an accidental extra bracket)",
        ),
    }
}

/// A diagnostic with a fixed message.
pub fn diag(msg: &str) -> (d: Diag)
    ensures
        d@ == msg@,
{
    Diag { message: String::from_str(msg) }
}

} // verus!
