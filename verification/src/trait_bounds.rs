//! The trait's generic parameters with their merged bounds: the source of
//! bound inheritance for impl parameters written without a bound.
//!
//! A where predicate whose left side is a bare parameter name
//! (`where T: Clone`) merges into that parameter's bound (inline bound,
//! `+`, the predicate's bounds); every other predicate (`T::Item: Clone`,
//! `Vec<T>: ...`, lifetime predicates) is kept as written, with the
//! parameters it refers to.
use crate::text::strs_view;
use crate::token::{copy_toks, lemma_tvs_concat, lemma_tvs_push, tvs, Spacing, Tok, TokV};
use vstd::prelude::*;

verus! {

/// A trait parameter: its name (`'a` for a lifetime), its bound, and the
/// parameters the bound refers to.
#[derive(Debug)]
pub struct TraitParam {
    pub name: String,
    pub bound: Option<Vec<Tok>>,
    pub refs: Vec<String>,
}

/// One where predicate of the trait as the syntax tree gives it.
#[derive(Debug)]
pub struct WherePred {
    /// The predicate's tokens.
    pub tokens: Vec<Tok>,
    /// The parameter name on the left, when the left side is a bare name.
    pub bounded_param: Option<String>,
    /// The predicate's bounds (right of `:`), for a type predicate.
    pub bounds: Vec<Tok>,
    /// The parameters the bounds refer to.
    pub bound_refs: Vec<String>,
    /// The parameters the whole predicate refers to.
    pub refs: Vec<String>,
}

/// The parameters with merged bounds, and the predicates kept as written.
#[derive(Debug)]
pub struct TraitBounds {
    pub params: Vec<TraitParam>,
    pub extra_predicates: Vec<(Vec<Tok>, Vec<String>)>,
}

pub struct ParamV {
    pub name: Seq<char>,
    pub bound: Option<Seq<TokV>>,
    pub refs: Seq<Seq<char>>,
}

pub struct PredV {
    pub tokens: Seq<TokV>,
    pub bounded_param: Option<Seq<char>>,
    pub bounds: Seq<TokV>,
    pub bound_refs: Seq<Seq<char>>,
    pub refs: Seq<Seq<char>>,
}

pub open spec fn param_view(p: TraitParam) -> ParamV {
    ParamV {
        name: p.name@,
        bound: match p.bound {
            Some(b) => Some(tvs(b@)),
            None => None,
        },
        refs: strs_view(p.refs@),
    }
}

pub open spec fn params_view(v: Seq<TraitParam>) -> Seq<ParamV> {
    Seq::new(v.len(), |i: int| param_view(v[i]))
}

pub open spec fn pred_view(p: WherePred) -> PredV {
    PredV {
        tokens: tvs(p.tokens@),
        bounded_param: match p.bounded_param {
            Some(n) => Some(n@),
            None => None,
        },
        bounds: tvs(p.bounds@),
        bound_refs: strs_view(p.bound_refs@),
        refs: strs_view(p.refs@),
    }
}

pub open spec fn preds_view(v: Seq<WherePred>) -> Seq<PredV> {
    Seq::new(v.len(), |i: int| pred_view(v[i]))
}

pub open spec fn extras_view(v: Seq<(Vec<Tok>, Vec<String>)>) -> Seq<(Seq<TokV>, Seq<Seq<char>>)> {
    Seq::new(v.len(), |i: int| (tvs(v[i].0@), strs_view(v[i].1@)))
}

/// The first parameter named `name`.
pub open spec fn param_position(ps: Seq<ParamV>, name: Seq<char>) -> Option<int> {
    if exists|i: int| 0 <= i < ps.len() && ps[i].name == name {
        Some(
            choose|i: int|
                0 <= i < ps.len() && ps[i].name == name && forall|j: int|
                    0 <= j < i ==> ps[j].name != name,
        )
    } else {
        None
    }
}

/// `inline + extra`, or `extra` alone.
pub open spec fn merged_bound(inline: Option<Seq<TokV>>, extra: Seq<TokV>) -> Seq<TokV> {
    match inline {
        Some(b) => b + seq![TokV::Punct('+', Spacing::Alone)] + extra,
        None => extra,
    }
}

/// The state after the first `n` predicates.
pub open spec fn merge_upto(ps: Seq<ParamV>, preds: Seq<PredV>, n: int) -> (
    Seq<ParamV>,
    Seq<(Seq<TokV>, Seq<Seq<char>>)>,
)
    decreases n,
{
    if n <= 0 {
        (ps, Seq::empty())
    } else {
        let (cur, extra) = merge_upto(ps, preds, n - 1);
        let pred = preds[n - 1];
        match pred.bounded_param {
            Some(name) => match param_position(cur, name) {
                Some(p) => (
                    cur.update(
                        p,
                        ParamV {
                            name: cur[p].name,
                            bound: Some(merged_bound(cur[p].bound, pred.bounds)),
                            refs: cur[p].refs + pred.bound_refs,
                        },
                    ),
                    extra,
                ),
                None => (cur, extra.push((pred.tokens, pred.refs))),
            },
            None => (cur, extra.push((pred.tokens, pred.refs))),
        }
    }
}

proof fn lemma_param_position(ps: Seq<ParamV>, name: Seq<char>, i: int)
    requires
        0 <= i < ps.len(),
        ps[i].name == name,
        forall|j: int| 0 <= j < i ==> ps[j].name != name,
    ensures
        param_position(ps, name) == Some(i),
{
    let k = choose|k: int|
        0 <= k < ps.len() && ps[k].name == name && forall|j: int| 0 <= j < k ==> ps[j].name != name;
    assert(0 <= k < ps.len() && ps[k].name == name);
    if k < i {
        assert(ps[k].name != name);
    } else if k > i {
        assert(ps[i].name != name);
    }
}

fn append_strings(dst: &mut Vec<String>, src: &Vec<String>)
    ensures
        strs_view(final(dst)@) == strs_view(old(dst)@) + strs_view(src@),
{
    let ghost d0 = strs_view(dst@);
    let mut j: usize = 0;
    while j < src.len()
        invariant
            j <= src@.len(),
            strs_view(dst@) == d0 + strs_view(src@).subrange(0, j as int),
        decreases src@.len() - j,
    {
        let ghost before = dst@;
        dst.push(src[j].clone());
        assert(strs_view(dst@) =~= strs_view(before).push(src@[j as int]@));
        assert(strs_view(src@).subrange(0, j + 1) =~= strs_view(src@).subrange(0, j as int).push(
            src@[j as int]@,
        ));
        j += 1;
    }
    assert(strs_view(src@).subrange(0, src@.len() as int) =~= strs_view(src@));
}

fn clone_strings(src: &Vec<String>) -> (r: Vec<String>)
    ensures
        strs_view(r@) == strs_view(src@),
{
    let mut r: Vec<String> = Vec::new();
    append_strings(&mut r, src);
    assert(strs_view(r@) =~= strs_view(src@));
    r
}

/// Merges the bare-parameter where predicates into the parameters' bounds
/// and keeps the others, in order.
pub fn extract_trait_bounds(params: Vec<TraitParam>, preds: &Vec<WherePred>) -> (r: TraitBounds)
    ensures
        (params_view(r.params@), extras_view(r.extra_predicates@)) == merge_upto(
            params_view(params@),
            preds_view(preds@),
            preds@.len() as int,
        ),
{
    let ghost pv = preds_view(preds@);
    let ghost p0 = params_view(params@);
    let mut params = params;
    let mut extra: Vec<(Vec<Tok>, Vec<String>)> = Vec::new();
    let mut k: usize = 0;
    assert(extras_view(extra@) =~= Seq::<(Seq<TokV>, Seq<Seq<char>>)>::empty());
    while k < preds.len()
        invariant
            k <= preds@.len(),
            pv == preds_view(preds@),
            (params_view(params@), extras_view(extra@)) == merge_upto(p0, pv, k as int),
        decreases preds@.len() - k,
    {
        let pred = &preds[k];
        let ghost cur = params_view(params@);
        let mut pos: Option<usize> = None;
        if let Some(name) = &pred.bounded_param {
            let mut i: usize = 0;
            while i < params.len() && pos.is_none()
                invariant
                    i <= params@.len(),
                    cur == params_view(params@),
                    pos matches Some(q) ==> q < params@.len() && cur[q as int].name == name@
                        && forall|j: int| 0 <= j < q ==> cur[j].name != name@,
                    pos is None ==> forall|j: int| 0 <= j < i ==> cur[j].name != name@,
                decreases params@.len() - i,
            {
                if params[i].name == *name {
                    pos = Some(i);
                }
                i += 1;
            }
            proof {
                match pos {
                    Some(q) => {
                        lemma_param_position(cur, name@, q as int);
                    },
                    None => {
                        assert(!(exists|i: int| 0 <= i < cur.len() && cur[i].name == name@));
                    },
                }
            }
        }
        match pos {
            Some(p) => {
                let extra_b = copy_toks(pred.bounds.as_slice());
                let new_bound = match &params[p].bound {
                    Some(inline) => {
                        let mut b = copy_toks(inline.as_slice());
                        let ghost b0 = b@;
                        let plus = Tok::Punct('+', Spacing::Alone);
                        b.push(plus);
                        let ghost b1 = b@;
                        let mut e = extra_b;
                        let ghost ev = e@;
                        b.append(&mut e);
                        proof {
                            lemma_tvs_push(b0, plus);
                            lemma_tvs_concat(b1, ev);
                        }
                        b
                    },
                    None => extra_b,
                };
                let mut refs = clone_strings(&params[p].refs);
                append_strings(&mut refs, &pred.bound_refs);
                let name = params[p].name.clone();
                let np = TraitParam { name, bound: Some(new_bound), refs };
                let ghost npv = param_view(np);
                params.set(p, np);
                proof {
                    assert(params_view(params@) =~= cur.update(p as int, npv));
                }
            },
            None => {
                let t = copy_toks(pred.tokens.as_slice());
                let r = clone_strings(&pred.refs);
                let ghost e0 = extras_view(extra@);
                extra.push((t, r));
                proof {
                    assert(extras_view(extra@) =~= e0.push((pv[k as int].tokens, pv[k as int].refs)));
                }
            },
        }
        k += 1;
    }
    TraitBounds { params, extra_predicates: extra }
}

} // verus!

verus! {

proof fn lemma_position_found(ps: Seq<ParamV>, name: Seq<char>)
    ensures
        param_position(ps, name) matches Some(p) ==> 0 <= p < ps.len() && ps[p].name == name,
{
    if exists|i: int| 0 <= i < ps.len() && ps[i].name == name {
        let i0 = choose|i: int| 0 <= i < ps.len() && ps[i].name == name;
        lemma_first_position(ps, name, i0);
    }
}

proof fn lemma_first_position(ps: Seq<ParamV>, name: Seq<char>, i0: int)
    requires
        0 <= i0 < ps.len(),
        ps[i0].name == name,
    ensures
        exists|i: int|
            0 <= i < ps.len() && ps[i].name == name && forall|j: int| 0 <= j < i ==> ps[j].name != name,
    decreases i0,
{
    if exists|j: int| 0 <= j < i0 && ps[j].name == name {
        let j0 = choose|j: int| 0 <= j < i0 && ps[j].name == name;
        lemma_first_position(ps, name, j0);
    } else {
        assert(forall|j: int| 0 <= j < i0 ==> ps[j].name != name);
    }
}

/// Merging predicates never adds, drops, renames or reorders parameters,
/// and each predicate either merges or is kept: the kept predicates number
/// at most the predicates read.
pub proof fn law_merge_keeps_parameters(ps: Seq<ParamV>, preds: Seq<PredV>, n: int)
    requires
        0 <= n <= preds.len(),
    ensures
        merge_upto(ps, preds, n).0.len() == ps.len(),
        forall|i: int| 0 <= i < ps.len() ==> #[trigger] merge_upto(ps, preds, n).0[i].name == ps[i].name,
        merge_upto(ps, preds, n).1.len() <= n,
    decreases n,
{
    if n > 0 {
        law_merge_keeps_parameters(ps, preds, n - 1);
        let (cur, extra) = merge_upto(ps, preds, n - 1);
        let pred = preds[n - 1];
        if let Some(name) = pred.bounded_param {
            lemma_position_found(cur, name);
            if let Some(p) = param_position(cur, name) {
                assert forall|i: int| 0 <= i < ps.len() implies #[trigger] merge_upto(
                    ps,
                    preds,
                    n,
                ).0[i].name == ps[i].name by {
                    assert(cur[i].name == ps[i].name);
                }
            }
        }
    }
}

} // verus!
