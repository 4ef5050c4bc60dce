//! The argument list of `#delegate`: item names as for every directive,
//! plus renames `size = len` (the trait method `size` delegates to the
//! target's `len`).
use crate::diag::{diag, Diag};
use crate::entry::impl_spec::{chunks_from, chunks_view, split_at_depth0};
use crate::text::cat5;
use crate::token::{copy_tok, copy_toks, group_tok_view, lemma_tvs_concat, lemma_tvs_push, punct_v, tv, tvs, Tok, TokV};
use vstd::prelude::*;

verus! {

broadcast use group_tok_view;

pub open spec fn rename_left_msg() -> Seq<char> {
    "batch-impl: #delegate rename `X = Y` needs identifiers on both sides (e.g. `#delegate(size = len)`)"@
}

pub open spec fn rename_right_msg() -> Seq<char> {
    "batch-impl: #delegate rename `X = Y` needs a single identifier on the right (e.g. `#delegate(size = len)`)"@
}

pub open spec fn renamed_twice_msg(name: Seq<char>) -> Seq<char> {
    "batch-impl: #delegate method `"@ + name + "` is renamed twice (`"@ + name
        + "=...` appears more than once); a method can delegate to only one target"@
}

/// The first `=` of a chunk.
pub open spec fn first_eq(c: Seq<TokV>) -> Option<int> {
    if exists|k: int| 0 <= k < c.len() && punct_v(c[k], '=') {
        Some(choose|k: int| 0 <= k < c.len() && punct_v(c[k], '=') && forall|j: int| 0 <= j < k ==> !punct_v(c[j], '='))
    } else {
        None
    }
}

/// A chunk read as a rename: `None` when it has no `=`; otherwise the
/// identifiers around the first `=` (the right one must end the chunk).
pub open spec fn rename_chunk(c: Seq<TokV>) -> Option<Result<(Seq<char>, Seq<char>), Seq<char>>> {
    match first_eq(c) {
        None => None,
        Some(eq) => if eq >= 1 && c[eq - 1] is Ident {
            if eq + 2 == c.len() && c[eq + 1] is Ident {
                Some(Ok((c[eq - 1]->Ident_0, c[eq + 1]->Ident_0)))
            } else {
                Some(Err(rename_right_msg()))
            }
        } else {
            Some(Err(rename_left_msg()))
        },
    }
}

/// Whether `name` already has a rename.
pub open spec fn renamed(rn: Seq<(Seq<char>, Seq<char>)>, name: Seq<char>) -> bool {
    exists|k: int| 0 <= k < rn.len() && rn[k].0 == name
}

/// The first `n` chunks read: the name tokens for the name list (a rename
/// contributes its left identifier; the separating commas are not kept)
/// and the renames, in order.
pub open spec fn delegate_upto(chunks: Seq<Seq<TokV>>, n: int) -> Result<
    (Seq<TokV>, Seq<(Seq<char>, Seq<char>)>),
    Seq<char>,
>
    decreases n,
{
    if n <= 0 {
        Ok((Seq::empty(), Seq::empty()))
    } else {
        match delegate_upto(chunks, n - 1) {
            Err(m) => Err(m),
            Ok((toks, rn)) => match rename_chunk(chunks[n - 1]) {
                None => Ok((toks + chunks[n - 1], rn)),
                Some(Err(m)) => Err(m),
                Some(Ok((from, to))) => if renamed(rn, from) {
                    Err(renamed_twice_msg(from))
                } else {
                    Ok((toks.push(TokV::Ident(from)), rn.push((from, to))))
                },
            },
        }
    }
}

/// The `#delegate` arguments split at top-level commas and read.
pub open spec fn delegate_args_spec(s: Seq<TokV>) -> Result<
    (Seq<TokV>, Seq<(Seq<char>, Seq<char>)>),
    Seq<char>,
> {
    let chunks = chunks_from(s, ',', 0);
    delegate_upto(chunks, chunks.len() as int)
}

proof fn lemma_delegate_err_stays(chunks: Seq<Seq<TokV>>, k: int, j: int)
    requires
        0 <= k <= j,
        delegate_upto(chunks, k) is Err,
    ensures
        delegate_upto(chunks, j) == delegate_upto(chunks, k),
    decreases j - k,
{
    if j > k {
        lemma_delegate_err_stays(chunks, k, j - 1);
    }
}

pub open spec fn pairs_view(v: Seq<(String, String)>) -> Seq<(Seq<char>, Seq<char>)> {
    Seq::new(v.len(), |k: int| (v[k].0@, v[k].1@))
}

proof fn lemma_first_eq(c: Seq<TokV>, k: int)
    requires
        0 <= k < c.len(),
        punct_v(c[k], '='),
        forall|j: int| 0 <= j < k ==> !punct_v(c[j], '='),
    ensures
        first_eq(c) == Some(k),
{
    let e = choose|e: int| 0 <= e < c.len() && punct_v(c[e], '=') && forall|j: int| 0 <= j < e ==> !punct_v(c[j], '=');
    assert(0 <= e < c.len() && punct_v(c[e], '='));
    if e < k {
        assert(!punct_v(c[e], '='));
    } else if e > k {
        assert(!punct_v(c[k], '='));
    }
}

fn find_eq(c: &[Tok]) -> (r: Option<usize>)
    ensures
        match r {
            Some(k) => first_eq(tvs(c@)) == Some(k as int) && k < c@.len(),
            None => first_eq(tvs(c@)) is None,
        },
{
    let ghost s = tvs(c@);
    let mut k: usize = 0;
    while k < c.len()
        invariant
            k <= c@.len(),
            s == tvs(c@),
            forall|j: int| 0 <= j < k ==> !punct_v(s[j], '='),
        decreases c@.len() - k,
    {
        if crate::token::is_punct(&c[k], '=') {
            proof {
                lemma_first_eq(s, k as int);
            }
            return Some(k);
        }
        k += 1;
    }
    None
}

fn has_rename(rn: &Vec<(String, String)>, name: &String) -> (b: bool)
    ensures
        b == renamed(pairs_view(rn@), name@),
{
    let mut k: usize = 0;
    while k < rn.len()
        invariant
            k <= rn@.len(),
            forall|j: int| 0 <= j < k ==> pairs_view(rn@)[j].0 != name@,
        decreases rn@.len() - k,
    {
        if rn[k].0 == *name {
            assert(pairs_view(rn@)[k as int].0 == name@);
            return true;
        }
        k += 1;
    }
    false
}

/// Reads the `#delegate` arguments: the tokens the name list parses, and
/// the renames `(trait method, target method)`.
pub fn delegate_args(args: &[Tok]) -> (r: Result<(Vec<Tok>, Vec<(String, String)>), Diag>)
    ensures
        match r {
            Ok((t, rn)) => delegate_args_spec(tvs(args@)) == Ok::<
                (Seq<TokV>, Seq<(Seq<char>, Seq<char>)>),
                Seq<char>,
            >((tvs(t@), pairs_view(rn@))),
            Err(d) => delegate_args_spec(tvs(args@)) == Err::<
                (Seq<TokV>, Seq<(Seq<char>, Seq<char>)>),
                Seq<char>,
            >(d@),
        },
{
    let chunks = split_at_depth0(args, ',');
    let ghost cv = chunks_view(chunks@);
    let mut toks: Vec<Tok> = Vec::new();
    let mut rn: Vec<(String, String)> = Vec::new();
    let mut n: usize = 0;
    assert(tvs(toks@) =~= Seq::<TokV>::empty());
    assert(pairs_view(rn@) =~= Seq::<(Seq<char>, Seq<char>)>::empty());
    while n < chunks.len()
        invariant
            n <= chunks@.len(),
            cv == chunks_view(chunks@),
            cv == chunks_from(tvs(args@), ',', 0),
            delegate_upto(cv, n as int) == Ok::<(Seq<TokV>, Seq<(Seq<char>, Seq<char>)>), Seq<char>>(
                (tvs(toks@), pairs_view(rn@)),
            ),
        decreases chunks@.len() - n,
    {
        let c = chunks[n].as_slice();
        let ghost cs = tvs(c@);
        assert(cs == cv[n as int]);
        match find_eq(c) {
            None => {
                let ghost t0 = toks@;
                let mut more = copy_toks(c);
                let ghost mv = more@;
                toks.append(&mut more);
                proof {
                    lemma_tvs_concat(t0, mv);
                }
            },
            Some(eq) => {
                let from = if eq >= 1 {
                    match &c[eq - 1] {
                        Tok::Ident(f) => Some(f.clone()),
                        _ => None,
                    }
                } else {
                    None
                };
                let from = match from {
                    Some(f) => f,
                    None => {
                        proof {
                            lemma_delegate_err_stays(cv, n + 1, cv.len() as int);
                        }
                        return Err(diag(
                            "batch-impl: #delegate rename `X = Y` needs identifiers on both sides (e.g. `#delegate(size = len)`)",
                        ));
                    },
                };
                let to = if c.len() >= 2 && eq == c.len() - 2 {
                    match &c[eq + 1] {
                        Tok::Ident(t) => Some(t.clone()),
                        _ => None,
                    }
                } else {
                    None
                };
                let to = match to {
                    Some(t) => t,
                    None => {
                        proof {
                            lemma_delegate_err_stays(cv, n + 1, cv.len() as int);
                        }
                        return Err(diag(
                            "batch-impl: #delegate rename `X = Y` needs a single identifier on the right (e.g. `#delegate(size = len)`)",
                        ));
                    },
                };
                if has_rename(&rn, &from) {
                    proof {
                        lemma_delegate_err_stays(cv, n + 1, cv.len() as int);
                    }
                    return Err(
                        Diag {
                            message: cat5(
                                "batch-impl: #delegate method `",
                                from.as_str(),
                                "` is renamed twice (`",
                                from.as_str(),
                                "=...` appears more than once); a method can delegate to only one target",
                            ),
                        },
                    );
                }
                let ghost t0 = toks@;
                let ghost r0 = rn@;
                let id = Tok::Ident(from.clone());
                toks.push(id);
                rn.push((from, to));
                proof {
                    lemma_tvs_push(t0, id);
                    assert(pairs_view(rn@) =~= pairs_view(r0).push((rn@[r0.len() as int].0@, rn@[r0.len() as int].1@)));
                }
            },
        }
        n += 1;
    }
    Ok((toks, rn))
}

} // verus!
