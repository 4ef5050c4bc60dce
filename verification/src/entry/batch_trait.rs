//! `batch_trait!`: the input is a sequence of segments
//! `[unsafe] Trait::Path : impl-specs ;`, each expanded on its own. This
//! module does the whole-input preprocessing and the segmentation; `@trait`
//! in a segment stands for that segment's trait path.
use crate::angle::{angle_collect, collect_spec};
use crate::consts::ctx::{ConstCtx, UserConsts};
use crate::consts::table::{
    collect_user_consts, consts_spec, expand_consts, lemma_consts_congruent, user_consts_from,
};
use crate::diag::{diag, lemma_seq_then_assoc, res_view, seq_then, Diag};
use crate::scan::{first_stop, scan_stop, single_colon_at, is_single_colon};
use crate::token::{
    copy_range, copy_tok, copy_toks, group_tok_view, ident_at, ident_v, is_ident_at, is_punct_at,
    lemma_tvs_concat, lemma_tvs_push, punct_at, punct_v, tv, tvs, Tok, TokV,
};
use crate::where_process::{kw_spec, where_process, Keyword};
use vstd::prelude::*;

verus! {

broadcast use group_tok_view;

// ------------------------------------------------------------------
// `@trait` per segment

/// Every `@trait` of `s` (at any depth) replaced by `path`.
pub open spec fn replace_spec(s: Seq<TokV>, path: Seq<TokV>) -> Seq<TokV>
    decreases s,
{
    if s.len() == 0 {
        Seq::empty()
    } else if s.len() > 1 && punct_v(s[0], '@') && ident_v(s[1], "trait"@) {
        path + replace_spec(s.subrange(2, s.len() as int), path)
    } else {
        match s[0] {
            TokV::Group(d, inner) => seq![TokV::Group(d, replace_spec(inner, path))] + replace_spec(
                s.subrange(1, s.len() as int),
                path,
            ),
            _ => seq![s[0]] + replace_spec(s.subrange(1, s.len() as int), path),
        }
    }
}

proof fn lemma_replace_step(s: Seq<TokV>, path: Seq<TokV>, i: int)
    requires
        0 <= i < s.len(),
    ensures
        replace_spec(s.subrange(i, s.len() as int), path) == (if i + 1 < s.len() && punct_v(
            s[i],
            '@',
        ) && ident_v(s[i + 1], "trait"@) {
            path + replace_spec(s.subrange(i + 2, s.len() as int), path)
        } else {
            match s[i] {
                TokV::Group(d, inner) => seq![TokV::Group(d, replace_spec(inner, path))]
                    + replace_spec(s.subrange(i + 1, s.len() as int), path),
                _ => seq![s[i]] + replace_spec(s.subrange(i + 1, s.len() as int), path),
            }
        }),
{
    let r = s.subrange(i, s.len() as int);
    assert(r[0] == s[i]);
    if r.len() > 1 {
        assert(r[1] == s[i + 1]);
        assert(r.subrange(2, r.len() as int) =~= s.subrange(i + 2, s.len() as int));
    }
    assert(r.subrange(1, r.len() as int) =~= s.subrange(i + 1, s.len() as int));
}

/// Replaces each `@trait` (at any depth) by the segment's full trait path.
pub fn replace_segment_trait(tokens: &[Tok], trait_full_path: &[Tok]) -> (r: Result<
    Vec<Tok>,
    Diag,
>)
    ensures
        r matches Ok(v) && tvs(v@) == replace_spec(tvs(tokens@), tvs(trait_full_path@)),
    decreases tokens@,
{
    let ghost s = tvs(tokens@);
    let ghost path = tvs(trait_full_path@);
    let mut out: Vec<Tok> = Vec::new();
    let mut i: usize = 0;
    assert(s.subrange(0, s.len() as int) =~= s);
    while i < tokens.len()
        invariant
            i <= tokens@.len(),
            s == tvs(tokens@),
            path == tvs(trait_full_path@),
            replace_spec(s, path) == tvs(out@) + replace_spec(s.subrange(i as int, s.len() as int), path),
        decreases tokens@.len() - i,
    {
        proof {
            lemma_replace_step(s, path, i as int);
        }
        let ghost prev = out@;
        let at_trait = i + 1 < tokens.len() && is_punct_at(tokens, i, '@') && is_ident_at(
            tokens,
            i + 1,
            "trait",
        );
        if at_trait {
            let p = copy_toks(trait_full_path);
            let mut k: usize = 0;
            while k < p.len()
                invariant
                    k <= p@.len(),
                    tvs(p@) == path,
                    tvs(out@) == tvs(prev) + path.subrange(0, k as int),
                decreases p@.len() - k,
            {
                let ghost before = out@;
                let t = copy_tok(&p[k]);
                out.push(t);
                proof {
                    lemma_tvs_push(before, t);
                    assert(path.subrange(0, k + 1) =~= path.subrange(0, k as int).push(path[k as int]));
                }
                k += 1;
            }
            assert(path.subrange(0, p@.len() as int) =~= path);
            assert(tvs(prev) + (path + replace_spec(s.subrange(i + 2, s.len() as int), path))
                =~= tvs(out@) + replace_spec(s.subrange(i + 2, s.len() as int), path));
            i += 2;
        } else {
            match &tokens[i] {
                Tok::Group(d, inner) => {
                    proof {
                        assert(decreases_to!(tokens@ => tokens@[i as int]));
                    }
                    let x = replace_segment_trait(inner.as_slice(), trait_full_path);
                    let v = match x {
                        Ok(v) => v,
                        Err(e) => {
                            return Err(e);
                        },
                    };
                    let g = Tok::Group(*d, v);
                    out.push(g);
                    proof {
                        lemma_tvs_push(prev, g);
                        assert(tvs(prev) + (seq![tv(g)] + replace_spec(s.subrange(i + 1, s.len() as int), path))
                            =~= tvs(out@) + replace_spec(s.subrange(i + 1, s.len() as int), path));
                    }
                },
                _ => {
                    let t = copy_tok(&tokens[i]);
                    out.push(t);
                    proof {
                        lemma_tvs_push(prev, t);
                        assert(tvs(prev) + (seq![tv(t)] + replace_spec(s.subrange(i + 1, s.len() as int), path))
                            =~= tvs(out@) + replace_spec(s.subrange(i + 1, s.len() as int), path));
                    }
                },
            }
            i += 1;
        }
    }
    assert(s.subrange(i as int, s.len() as int) =~= Seq::<TokV>::empty());
    assert(tvs(out@) + Seq::<TokV>::empty() =~= tvs(out@));
    Ok(out)
}

// ------------------------------------------------------------------
// Segments

/// One segment of `batch_trait!`.
#[derive(Debug)]
pub struct TraitSegment {
    /// `unsafe` prefix: every impl of the segment is an `unsafe impl`.
    pub is_unsafe: bool,
    /// The trait path as written.
    pub trait_full_path: Vec<Tok>,
    /// The last identifier of the path (the trait's name).
    pub trait_last_ident: String,
    /// The impl specs, with `@trait` replaced by the path.
    pub spec: Vec<Tok>,
}

pub struct SegmentV {
    pub is_unsafe: bool,
    pub path: Seq<TokV>,
    pub name: Seq<char>,
    pub spec: Seq<TokV>,
}

pub open spec fn segment_view(g: TraitSegment) -> SegmentV {
    SegmentV {
        is_unsafe: g.is_unsafe,
        path: tvs(g.trait_full_path@),
        name: g.trait_last_ident@,
        spec: tvs(g.spec@),
    }
}

pub open spec fn segments_view(v: Seq<TraitSegment>) -> Seq<SegmentV> {
    Seq::new(v.len(), |i: int| segment_view(v[i]))
}

pub open spec fn no_name_msg() -> Seq<char> {
    "batch_trait! expects a trait name"@
}

pub open spec fn no_ident_msg() -> Seq<char> {
    "batch_trait! expects an ident as the trait name"@
}

pub open spec fn no_colon_msg() -> Seq<char> {
    "batch_trait! expects ':' to separate the trait name and impl-specs"@
}

/// The first position at or after `i` that is not a `;`.
pub open spec fn skip_semis(s: Seq<TokV>, i: int) -> int
    decreases s.len() - i,
{
    if i >= 0 && i < s.len() && punct_v(s[i], ';') {
        skip_semis(s, i + 1)
    } else {
        i
    }
}

/// Where the trait path starting at `i` ends: at the first lone `:`, or at
/// the end; a `:` that is half of a `::` is stepped over with its partner
/// (which may step one past the end).
pub open spec fn path_end(s: Seq<TokV>, i: int) -> int
    decreases s.len() + 2 - i,
{
    if i < 0 || i >= s.len() {
        i
    } else if punct_v(s[i], ':') {
        if single_colon_at(s, i) {
            i
        } else {
            path_end(s, i + 2)
        }
    } else {
        path_end(s, i + 1)
    }
}

/// The text of the last identifier among the first `n` tokens of `p`.
pub open spec fn last_ident_below(p: Seq<TokV>, n: int) -> Option<Seq<char>>
    decreases n,
{
    if n <= 0 {
        None
    } else {
        match p[n - 1] {
            TokV::Ident(w) => Some(w),
            _ => last_ident_below(p, n - 1),
        }
    }
}

/// The segment starting at (or after `;`s from) position `i`: `Ok(None)` at
/// the end of the input, `Ok(Some((segment, where the next one starts)))`,
/// or the error. `None` when the path scan steps past the end of the input
/// (a `:::` closing the input), where the scan cannot take its slice.
#[verifier::opaque]
pub open spec fn segment_at(s: Seq<TokV>, i: int) -> Option<
    Result<Option<(SegmentV, int)>, Seq<char>>,
> {
    let j = skip_semis(s, i);
    if i < 0 || j >= s.len() || j < i {
        Some(Ok(None))
    } else {
        let is_unsafe = ident_at(s, j, "unsafe"@);
        let k = if is_unsafe {
            j + 1
        } else {
            j
        };
        let e = path_end(s, k);
        if e > s.len() || e < k {
            None
        } else {
            let path = s.subrange(k, e);
            if path.len() == 0 {
                Some(Err(no_name_msg()))
            } else {
                match last_ident_below(path, path.len() as int) {
                    None => Some(Err(no_ident_msg())),
                    Some(name) => if !punct_at(s, e, ':') {
                        Some(Err(no_colon_msg()))
                    } else {
                        let rest = s.subrange(e + 1, s.len() as int);
                        let len = match first_stop(rest, seq![';']) {
                            Some(x) => x,
                            None => rest.len() as int,
                        };
                        Some(
                            Ok(
                                Some(
                                    (
                                        SegmentV {
                                            is_unsafe,
                                            path,
                                            name,
                                            spec: replace_spec(rest.subrange(0, len), path),
                                        },
                                        e + 1 + len,
                                    ),
                                ),
                            ),
                        )
                    },
                }
            }
        }
    }
}

/// The segments from position `i` on (`None`: see [`segment_at`]).
pub open spec fn segments_from(s: Seq<TokV>, i: int) -> Option<Result<Seq<SegmentV>, Seq<char>>>
    decreases s.len() + 2 - i,
{
    match segment_at(s, i) {
        None => None,
        Some(Err(m)) => Some(Err(m)),
        Some(Ok(None)) => Some(Ok(Seq::empty())),
        Some(Ok(Some((seg, next)))) => if next <= i || next > s.len() {
            None
        } else {
            match segments_from(s, next) {
                None => None,
                Some(Err(m)) => Some(Err(m)),
                Some(Ok(more)) => Some(Ok(seq![seg] + more)),
            }
        },
    }
}

pub open spec fn segments_result_view(r: Option<Result<Vec<TraitSegment>, Diag>>) -> Option<
    Result<Seq<SegmentV>, Seq<char>>,
> {
    match r {
        None => None,
        Some(Ok(v)) => Some(Ok(segments_view(v@))),
        Some(Err(d)) => Some(Err(d@)),
    }
}

proof fn lemma_skip_semis(s: Seq<TokV>, i: int)
    requires
        0 <= i <= s.len(),
    ensures
        i <= skip_semis(s, i) <= s.len(),
        skip_semis(s, i) < s.len() ==> !punct_v(s[skip_semis(s, i)], ';'),
    decreases s.len() - i,
{
    if i < s.len() && punct_v(s[i], ';') {
        lemma_skip_semis(s, i + 1);
    }
}

proof fn lemma_path_end(s: Seq<TokV>, i: int)
    requires
        0 <= i,
    ensures
        path_end(s, i) >= i,
        path_end(s, i) < s.len() ==> punct_v(s[path_end(s, i)], ':') && single_colon_at(
            s,
            path_end(s, i),
        ),
    decreases s.len() + 2 - i,
{
    if i < s.len() {
        if punct_v(s[i], ':') {
            if !single_colon_at(s, i) {
                lemma_path_end(s, i + 2);
            }
        } else {
            lemma_path_end(s, i + 1);
        }
    }
}

fn last_ident_text(p: &[Tok]) -> (r: Option<String>)
    ensures
        match r {
            Some(w) => last_ident_below(tvs(p@), p@.len() as int) == Some(w@),
            None => last_ident_below(tvs(p@), p@.len() as int) is None,
        },
{
    let ghost s = tvs(p@);
    let mut n: usize = p.len();
    while n > 0
        invariant
            n <= p@.len(),
            s == tvs(p@),
            last_ident_below(s, p@.len() as int) == last_ident_below(s, n as int),
        decreases n,
    {
        match &p[n - 1] {
            Tok::Ident(w) => {
                return Some(w.clone());
            },
            _ => {},
        }
        n -= 1;
    }
    None
}

/// The segment at position `i` (see [`segment_at`]).
#[verifier::spinoff_prover]
#[verifier::rlimit(40)]
fn parse_segment_at(tokens: &[Tok], i: usize) -> (r: Option<Result<Option<(TraitSegment, usize)>, Diag>>)
    requires
        i <= tokens@.len(),
    ensures
        match r {
            None => segment_at(tvs(tokens@), i as int) is None,
            Some(Err(d)) => segment_at(tvs(tokens@), i as int) == Some(
                Err::<Option<(SegmentV, int)>, Seq<char>>(d@),
            ),
            Some(Ok(None)) => segment_at(tvs(tokens@), i as int) == Some(
                Ok::<Option<(SegmentV, int)>, Seq<char>>(None),
            ),
            Some(Ok(Some((seg, next)))) => {
                &&& segment_at(tvs(tokens@), i as int) == Some(
                    Ok::<Option<(SegmentV, int)>, Seq<char>>(Some((segment_view(seg), next as int))),
                )
                &&& i < next <= tokens@.len()
            },
        },
{
    reveal(segment_at);
    let ghost s = tvs(tokens@);
    let n = tokens.len();
    proof {
        lemma_skip_semis(s, i as int);
    }
    let mut j = i;
    while j < n && is_punct_at(tokens, j, ';')
        invariant
            i <= j <= n,
            n == tokens@.len(),
            s == tvs(tokens@),
            skip_semis(s, i as int) == skip_semis(s, j as int),
        decreases n - j,
    {
        j += 1;
    }
    assert(skip_semis(s, j as int) == j as int);
    if j >= n {
        return Some(Ok(None));
    }
    let is_unsafe = is_ident_at(tokens, j, "unsafe");
    let k = if is_unsafe {
        j + 1
    } else {
        j
    };
    proof {
        lemma_path_end(s, k as int);
    }
    let mut e = k;
    while e < n && !(is_punct_at(tokens, e, ':') && is_single_colon(tokens, e))
        invariant
            k <= e <= n,
            i <= j < n,
            n == tokens@.len(),
            s == tvs(tokens@),
            path_end(s, k as int) == path_end(s, e as int),
            skip_semis(s, i as int) == j as int,
            k == (if ident_at(s, j as int, "unsafe"@) {
                j + 1
            } else {
                j as int
            }),
        decreases n - e,
    {
        if is_punct_at(tokens, e, ':') {
            if e + 1 >= n {
                proof {
                    reveal(segment_at);
                    assert(path_end(s, e as int) == path_end(s, e + 2));
                    assert(path_end(s, e + 2) == e + 2);
                }
                return None;
            }
            e += 2;
        } else {
            e += 1;
        }
    }
    assert(path_end(s, k as int) == e);
    let path = copy_range(tokens, k, e);
    if e == k {
        return Some(Err(diag("batch_trait! expects a trait name")));
    }
    let name = match last_ident_text(path.as_slice()) {
        Some(w) => w,
        None => {
            return Some(Err(diag("batch_trait! expects an ident as the trait name")));
        },
    };
    if !is_punct_at(tokens, e, ':') {
        return Some(Err(diag("batch_trait! expects ':' to separate the trait name and impl-specs")));
    }
    let rest = vstd::slice::slice_subrange(tokens, e + 1, n);
    assert(tvs(rest@) =~= s.subrange(e + 1, s.len() as int));
    let stop: &[char] = &[';'];
    assert(stop@ =~= seq![';']);
    let len = match scan_stop(rest, stop) {
        Some(x) => x,
        None => rest.len(),
    };
    let body = copy_range(rest, 0, len);
    let spec = match replace_segment_trait(body.as_slice(), path.as_slice()) {
        Ok(v) => v,
        Err(d) => {
            return Some(Err(d));
        },
    };
    let seg = TraitSegment { is_unsafe, trait_full_path: path, trait_last_ident: name, spec };
    Some(Ok(Some((seg, e + 1 + len))))
}

/// Splits the preprocessed `batch_trait!` input into its segments (`None`
/// where the path scan would step past the end of the input).
pub fn batch_trait_segments(tokens: &[Tok]) -> (r: Option<Result<Vec<TraitSegment>, Diag>>)
    ensures
        segments_result_view(r) == segments_from(tvs(tokens@), 0),
{
    let ghost s = tvs(tokens@);
    let n = tokens.len();
    let mut segs: Vec<TraitSegment> = Vec::new();
    let mut i: usize = 0;
    assert(segments_view(segs@) =~= Seq::<SegmentV>::empty());
    loop
        invariant
            i <= n,
            n == tokens@.len(),
            s == tvs(tokens@),
            segments_from(s, 0) == match segments_from(s, i as int) {
                None => None,
                Some(Err(m)) => Some(Err(m)),
                Some(Ok(more)) => Some(Ok(segments_view(segs@) + more)),
            },
        decreases n - i,
    {
        match parse_segment_at(tokens, i) {
            None => {
                return None;
            },
            Some(Err(d)) => {
                return Some(Err(d));
            },
            Some(Ok(None)) => {
                assert(segments_view(segs@) + Seq::<SegmentV>::empty() =~= segments_view(segs@));
                return Some(Ok(segs));
            },
            Some(Ok(Some((seg, next)))) => {
                let ghost before = segs@;
                segs.push(seg);
                proof {
                    assert(segments_view(segs@) =~= segments_view(before).push(segment_view(seg)));
                    match segments_from(s, next as int) {
                        Some(Ok(more)) => {
                            assert(segments_view(before) + (seq![segment_view(seg)] + more)
                                =~= segments_view(segs@) + more);
                        },
                        _ => {},
                    }
                }
                i = next;
            },
        }
    }
}

// ------------------------------------------------------------------
// Whole-input preprocessing

/// `r`, then angle pairing.
pub open spec fn then_pair(r: Result<Seq<TokV>, Seq<char>>) -> Result<Seq<TokV>, Seq<char>> {
    match r {
        Err(e) => Err(e),
        Ok(v) => collect_spec(v, 0),
    }
}

/// `r`, then the bare-`where` rewrite.
pub open spec fn then_where(r: Result<Seq<TokV>, Seq<char>>) -> Result<Seq<TokV>, Seq<char>> {
    match r {
        Err(e) => Err(e),
        Ok(v) => kw_spec(Keyword::Where, v),
    }
}

/// The preprocessing of the whole `batch_trait!` input, in its fixed
/// order: the user constant definitions are collected, `@` constants
/// expanded against them, `<...>` paired, bare `where` rewritten.
pub fn batch_trait_preprocess(tokens: &[Tok]) -> (r: Result<Vec<Tok>, Diag>)
    ensures
        match user_consts_from(tvs(tokens@), 0, Map::<Seq<char>, Seq<TokV>>::empty()) {
            Err(e) => r matches Err(d) && d@ == e,
            Ok((rest, m)) => (exists|t: UserConsts| #[trigger] t@ == m) && forall|t: UserConsts|
                #![trigger t@]
                t@ == m ==> res_view(r) == then_where(
                    then_pair(consts_spec(rest, ConstCtx::Trait { user_table: &t }, 0)),
                ),
        },
{
    let (rest, table) = match collect_user_consts(tokens) {
        Ok(x) => x,
        Err(d) => {
            return Err(d);
        },
    };
    let ctx = ConstCtx::Trait { user_table: &table };
    let expanded = expand_consts(rest.as_slice(), ctx);
    let r = match expanded {
        Err(d) => Err(d),
        Ok(v) => match angle_collect(v.as_slice()) {
            Err(d) => Err(d),
            Ok(p) => where_process(p.as_slice()),
        },
    };
    proof {
        assert(table@ == table@);
        assert forall|t: UserConsts| #[trigger] t@ == table@ implies res_view(r) == then_where(
            then_pair(consts_spec(tvs(rest@), ConstCtx::Trait { user_table: &t }, 0)),
        ) by {
            lemma_consts_congruent(tvs(rest@), ctx, ConstCtx::Trait { user_table: &t }, 0);
        }
    }
    r
}

} // verus!

verus! {

/// `s` holds no `@trait`, at any depth.
pub open spec fn trait_ref_free(s: Seq<TokV>) -> bool
    decreases s,
{
    if s.len() == 0 {
        true
    } else if s.len() > 1 && punct_v(s[0], '@') && ident_v(s[1], "trait"@) {
        false
    } else {
        match s[0] {
            TokV::Group(_, inner) => trait_ref_free(inner) && trait_ref_free(
                s.subrange(1, s.len() as int),
            ),
            _ => trait_ref_free(s.subrange(1, s.len() as int)),
        }
    }
}

/// A segment that never says `@trait` is left exactly as it is.
pub proof fn law_replace_without_trait_is_identity(s: Seq<TokV>, path: Seq<TokV>)
    requires
        trait_ref_free(s),
    ensures
        replace_spec(s, path) == s,
    decreases s,
{
    if s.len() > 0 {
        let rest = s.subrange(1, s.len() as int);
        law_replace_without_trait_is_identity(rest, path);
        match s[0] {
            TokV::Group(d, inner) => {
                law_replace_without_trait_is_identity(inner, path);
                assert(seq![TokV::Group(d, inner)] + rest =~= s);
            },
            _ => {
                assert(seq![s[0]] + rest =~= s);
            },
        }
    }
}

} // verus!
