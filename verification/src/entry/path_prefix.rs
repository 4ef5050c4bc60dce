//! The `# Path::To::Trait :` prefix of `#[batch_impl_only(...)]`: an
//! external trait path written before the DSL.
use crate::diag::Diag;
use crate::text::cat5;
use crate::token::{
    copy_range, group_tok_view, is_joint_punct_at, is_punct_at, joint_punct_at, punct_at, tvs,
    Tok, TokV,
};
use vstd::prelude::*;

verus! {

broadcast use group_tok_view;

/// A `::` at `i`: a joint `:` and a `:`.
pub open spec fn colon2_at(s: Seq<TokV>, i: int) -> bool {
    joint_punct_at(s, i, ':') && punct_at(s, i + 1, ':')
}

/// A single `:` at `i` (not the start of a `::`).
pub open spec fn colon1_at(s: Seq<TokV>, i: int) -> bool {
    punct_at(s, i, ':') && !colon2_at(s, i)
}

/// The path scan from `i`: `expect_sep` when a `::` (or the closing `:`)
/// is due, `saw` once a `::` was read, `last` the identifier read last
/// after a `::`. Gives the position of the closing `:` and `last`.
pub open spec fn prefix_from(
    s: Seq<TokV>,
    i: int,
    expect_sep: bool,
    saw: bool,
    last: Option<Seq<char>>,
) -> Option<(int, Option<Seq<char>>)>
    decreases s.len() + 2 - i,
{
    if i < 0 || i > s.len() {
        None
    } else if expect_sep && colon2_at(s, i) {
        prefix_from(s, i + 2, false, true, last)
    } else if saw && expect_sep && colon1_at(s, i) {
        Some((i, last))
    } else if !expect_sep {
        if i < s.len() {
            match s[i] {
                TokV::Ident(w) => prefix_from(s, i + 1, true, saw, Some(w)),
                _ => None,
            }
        } else {
            None
        }
    } else {
        None
    }
}

/// `# Ident (:: Ident)+ :` at the start: the path (without `#` and `:`),
/// its last identifier, and the remaining tokens.
pub open spec fn path_prefix_spec(s: Seq<TokV>) -> Option<
    (Seq<TokV>, Option<Seq<char>>, Seq<TokV>),
> {
    if s.len() < 5 || !punct_at(s, 0, '#') || !(s[1] is Ident) {
        None
    } else {
        match prefix_from(s, 2, true, false, None) {
            Some((i, last)) => if 2 <= i < s.len() {
                Some((s.subrange(1, i), last, s.subrange(i + 1, s.len() as int)))
            } else {
                None
            },
            None => None,
        }
    }
}

pub open spec fn prefix_view(r: Option<(Vec<Tok>, Option<String>, Vec<Tok>)>) -> Option<
    (Seq<TokV>, Option<Seq<char>>, Seq<TokV>),
> {
    match r {
        None => None,
        Some((p, l, rest)) => Some(
            (
                tvs(p@),
                match l {
                    Some(x) => Some(x@),
                    None => None,
                },
                tvs(rest@),
            ),
        ),
    }
}

proof fn lemma_prefix_from_bounds(
    s: Seq<TokV>,
    i: int,
    expect_sep: bool,
    saw: bool,
    last: Option<Seq<char>>,
)
    requires
        0 <= i,
    ensures
        prefix_from(s, i, expect_sep, saw, last) matches Some((j, _)) ==> i <= j < s.len(),
    decreases s.len() + 2 - i,
{
    if i <= s.len() {
        if expect_sep && colon2_at(s, i) {
            lemma_prefix_from_bounds(s, i + 2, false, true, last);
        } else if !expect_sep && i < s.len() {
            if let TokV::Ident(w) = s[i] {
                lemma_prefix_from_bounds(s, i + 1, true, saw, Some(w));
            }
        }
    }
}

/// Detects a `# Path :` prefix with at least one `::` (`#Display: ...` is
/// no prefix: a one-segment trait name needs none).
pub fn try_parse_path_prefix(tokens: &[Tok]) -> (r: Option<(Vec<Tok>, Option<String>, Vec<Tok>)>)
    ensures
        prefix_view(r) == path_prefix_spec(tvs(tokens@)),
{
    let ghost s = tvs(tokens@);
    let n = tokens.len();
    if n < 5 {
        return None;
    }
    if !is_punct_at(tokens, 0, '#') {
        return None;
    }
    match &tokens[1] {
        Tok::Ident(_) => {},
        _ => {
            return None;
        },
    }
    let mut i: usize = 2;
    let mut expect_sep = true;
    let mut saw = false;
    let mut last: Option<String> = None;
    proof {
        lemma_prefix_from_bounds(s, 2, true, false, None);
    }
    while i <= n
        invariant
            2 <= i <= n + 2,
            n == tokens@.len(),
            s == tvs(tokens@),
            path_prefix_spec(s) == match prefix_from(
                s,
                i as int,
                expect_sep,
                saw,
                match last {
                    Some(x) => Some(x@),
                    None => None,
                },
            ) {
                Some((j, l)) => if 2 <= j < s.len() {
                    Some((s.subrange(1, j), l, s.subrange(j + 1, s.len() as int)))
                } else {
                    None
                },
                None => None,
            },
        decreases n + 2 - i,
    {
        let c2 = i < n && is_joint_punct_at(tokens, i, ':') && i + 1 < n && is_punct_at(
            tokens,
            i + 1,
            ':',
        );
        let c1 = is_punct_at(tokens, i, ':') && !c2;
        if expect_sep && c2 {
            i = i + 2;
            expect_sep = false;
            saw = true;
        } else if saw && expect_sep && c1 {
            let path = copy_range(tokens, 1, i);
            let rest = copy_range(tokens, i + 1, n);
            return Some((path, last, rest));
        } else if !expect_sep {
            if i < n {
                match &tokens[i] {
                    Tok::Ident(w) => {
                        last = Some(w.clone());
                        i = i + 1;
                        expect_sep = true;
                    },
                    _ => {
                        return None;
                    },
                }
            } else {
                return None;
            }
        } else {
            return None;
        }
    }
    None
}

pub open spec fn prefix_mismatch_msg(last: Seq<char>, trait_name: Seq<char>) -> Seq<char> {
    "batch-impl: path prefix `#..."@ + last
        + "` has a trailing ident that differs from the trait name `"@ + trait_name
        + "`; the two must be identical"@
}

pub open spec fn prefix_no_ident_msg() -> Seq<char> {
    "batch-impl: expected at least one ident after the path prefix `#` as the trait path"@
}

/// The trait path and the DSL tokens of an attribute: `#[batch_impl_only]`
/// (`include_trait` false) may open with a `# Path :` prefix naming an
/// external trait, whose last identifier must be the annotated trait's
/// name; otherwise the path is the trait's own name and the whole
/// attribute is DSL.
pub open spec fn attr_path_spec(attr: Seq<TokV>, trait_name: Seq<char>, include_trait: bool) -> Result<
    (Seq<TokV>, Seq<TokV>),
    Seq<char>,
> {
    let prefix = if include_trait {
        None
    } else {
        path_prefix_spec(attr)
    };
    match prefix {
        Some((path, last, rest)) => match last {
            Some(id) => if id == trait_name {
                Ok((path, rest))
            } else {
                Err(prefix_mismatch_msg(id, trait_name))
            },
            None => Err(prefix_no_ident_msg()),
        },
        None => Ok((seq![TokV::Ident(trait_name)], attr)),
    }
}

pub fn attr_trait_path(attr: &[Tok], trait_name: &String, include_trait: bool) -> (r: Result<
    (Vec<Tok>, Vec<Tok>),
    Diag,
>)
    ensures
        match r {
            Ok((p, rest)) => attr_path_spec(tvs(attr@), trait_name@, include_trait)
                == Ok::<(Seq<TokV>, Seq<TokV>), Seq<char>>((tvs(p@), tvs(rest@))),
            Err(d) => attr_path_spec(tvs(attr@), trait_name@, include_trait)
                == Err::<(Seq<TokV>, Seq<TokV>), Seq<char>>(d@),
        },
{
    let prefix = if include_trait {
        None
    } else {
        try_parse_path_prefix(attr)
    };
    match prefix {
        Some((path, last, rest)) => match last {
            Some(id) => {
                if id == *trait_name {
                    Ok((path, rest))
                } else {
                    Err(
                        Diag {
                            message: cat5(
                                "batch-impl: path prefix `#...",
                                id.as_str(),
                                "` has a trailing ident that differs from the trait name `",
                                trait_name.as_str(),
                                "`; the two must be identical",
                            ),
                        },
                    )
                }
            },
            None => Err(
                crate::diag::diag(
                    "batch-impl: expected at least one ident after the path prefix `#` as the trait path",
                ),
            ),
        },
        None => {
            let p = vec![Tok::Ident(trait_name.clone())];
            let rest = crate::token::copy_toks(attr);
            assert(tvs(p@) =~= seq![TokV::Ident(trait_name@)]);
            Ok((p, rest))
        },
    }
}

} // verus!

verus! {

proof fn lemma_prefix_ends_at_colon(
    s: Seq<TokV>,
    i: int,
    expect_sep: bool,
    saw: bool,
    last: Option<Seq<char>>,
)
    requires
        0 <= i,
    ensures
        prefix_from(s, i, expect_sep, saw, last) matches Some((j, _)) ==> colon1_at(s, j),
    decreases s.len() + 2 - i,
{
    if i <= s.len() {
        if expect_sep && colon2_at(s, i) {
            lemma_prefix_ends_at_colon(s, i + 2, false, true, last);
        } else if !expect_sep && i < s.len() {
            if let TokV::Ident(w) = s[i] {
                lemma_prefix_ends_at_colon(s, i + 1, true, saw, Some(w));
            }
        }
    }
}

/// A detected prefix takes the input apart without loss: the input is the
/// `#`, the path, the closing `:`, and the rest, in this order.
pub proof fn law_prefix_splits_input(s: Seq<TokV>)
    requires
        path_prefix_spec(s) is Some,
    ensures
        ({
            let (path, _, rest) = path_prefix_spec(s)->Some_0;
            &&& punct_at(s, 0, '#')
            &&& colon1_at(s, path.len() + 1int)
            &&& s == seq![s[0]] + path + seq![s[path.len() + 1int]] + rest
        }),
{
    lemma_prefix_ends_at_colon(s, 2, true, false, None);
    let (i, _) = prefix_from(s, 2, true, false, None)->Some_0;
    let (path, _, rest) = path_prefix_spec(s)->Some_0;
    assert(path.len() + 1 == i);
    assert(seq![s[0]] + path + seq![s[i]] + rest =~= s);
}

} // verus!
