//! The impl entry (`#[batch_impl(spec; spec)] impl ...`) up to the point
//! where each spec meets the impl: the attribute is preprocessed in the
//! entry's fixed order, split into `;`-separated specs, and each spec has
//! its template-region `where{...}` attachments peeled off and its shape
//! colon located.
use crate::consts::ctx::ConstCtx;
use crate::diag::Diag;
use crate::directives::reject::reject_spec;
use crate::scan::{first_stop, is_single_colon, scan_stop, single_colon_at};
use crate::stream::{new, preprocess_spec, step};
use crate::token::{
    copy_range, copy_tok, copy_toks, group_tok_view, ident_v, is_ident_text, lemma_tvs_concat,
    lemma_tvs_push, tv, tvs, Delim, Spacing, Tok, TokV,
};
use crate::where_process::{kw_spec, Keyword};
use vstd::prelude::*;

verus! {

broadcast use group_tok_view;

pub open spec fn chunks_view(v: Seq<Vec<Tok>>) -> Seq<Seq<TokV>> {
    Seq::new(v.len(), |k: int| tvs(v[k]@))
}

/// The pieces of `s` from `start` on between the stops `sep` (see
/// [`first_stop`]); there is always a last piece, empty or not.
#[verifier::opaque]
pub open spec fn chunks_from(s: Seq<TokV>, sep: char, start: int) -> Seq<Seq<TokV>>
    decreases s.len() - start,
{
    if start < 0 || start > s.len() {
        Seq::empty()
    } else {
        let rest = s.subrange(start, s.len() as int);
        match first_stop(rest, seq![sep]) {
            Some(k) => if 0 <= k < rest.len() {
                seq![rest.subrange(0, k)] + chunks_from(s, sep, start + k + 1)
            } else {
                seq![rest]
            },
            None => seq![rest],
        }
    }
}

proof fn lemma_chunks_step(s: Seq<TokV>, sep: char, start: int, k: int)
    requires
        0 <= start <= s.len(),
        first_stop(s.subrange(start, s.len() as int), seq![sep]) == Some(k),
        0 <= k < s.len() - start,
    ensures
        chunks_from(s, sep, start) == seq![s.subrange(start, s.len() as int).subrange(0, k)]
            + chunks_from(s, sep, start + k + 1),
{
    reveal(chunks_from);
}

proof fn lemma_chunks_last(s: Seq<TokV>, sep: char, start: int)
    requires
        0 <= start <= s.len(),
        first_stop(s.subrange(start, s.len() as int), seq![sep]) is None,
    ensures
        chunks_from(s, sep, start) == seq![s.subrange(start, s.len() as int)],
{
    reveal(chunks_from);
}

/// Splits at the top-level separators `sep`.
#[verifier::rlimit(60)]
pub fn split_at_depth0(tokens: &[Tok], sep: char) -> (r: Vec<Vec<Tok>>)
    ensures
        chunks_view(r@) == chunks_from(tvs(tokens@), sep, 0),
{
    let ghost s = tvs(tokens@);
    let n = tokens.len();
    let stop: [char; 1] = [sep];
    let mut chunks: Vec<Vec<Tok>> = Vec::new();
    let mut start: usize = 0;
    assert(chunks_view(chunks@) =~= Seq::<Seq<TokV>>::empty());
    loop
        invariant
            start <= n,
            n == tokens@.len(),
            s == tvs(tokens@),
            stop@ == seq![sep],
            chunks_from(s, sep, 0) == chunks_view(chunks@) + chunks_from(s, sep, start as int),
        decreases n - start,
    {
        let rest = vstd::slice::slice_subrange(tokens, start, n);
        assert(tvs(rest@) =~= s.subrange(start as int, s.len() as int));
        let ghost before = chunks@;
        match scan_stop(rest, stop.as_slice()) {
            Some(k) => {
                let piece = copy_range(rest, 0, k);
                chunks.push(piece);
                proof {
                    lemma_chunks_step(s, sep, start as int, k as int);
                    assert(chunks_view(chunks@) =~= chunks_view(before).push(tvs(piece@)));
                    assert(chunks_view(before) + (seq![tvs(piece@)] + chunks_from(s, sep, start + k + 1))
                        =~= chunks_view(chunks@) + chunks_from(s, sep, start + k + 1));
                }
                start = start + k + 1;
            },
            None => {
                let piece = copy_range(rest, 0, rest.len());
                chunks.push(piece);
                proof {
                    lemma_chunks_last(s, sep, start as int);
                    assert(tvs(rest@).subrange(0, rest@.len() as int) =~= tvs(rest@));
                    assert(chunks_view(chunks@) =~= chunks_view(before) + seq![tvs(piece@)]);
                }
                return chunks;
            },
        }
    }
}

/// The first lone `:` (the shape colon), if any.
pub open spec fn shape_colon_spec(s: Seq<TokV>) -> Option<int> {
    if exists|i: int| single_colon_at(s, i) {
        Some(choose|i: int| single_colon_at(s, i) && forall|j: int| 0 <= j < i ==> !single_colon_at(s, j))
    } else {
        None
    }
}

proof fn lemma_shape_colon(s: Seq<TokV>, i: int)
    requires
        single_colon_at(s, i),
        forall|j: int| 0 <= j < i ==> !single_colon_at(s, j),
    ensures
        shape_colon_spec(s) == Some(i),
{
    let k = choose|k: int| single_colon_at(s, k) && forall|j: int| 0 <= j < k ==> !single_colon_at(s, j);
    assert(single_colon_at(s, k) && forall|j: int| 0 <= j < k ==> !single_colon_at(s, j));
    if k < i {
        assert(!single_colon_at(s, k));
    } else if k > i {
        assert(!single_colon_at(s, i));
    }
}

/// The top-level lone `:` separating the shape template from the rest.
pub fn find_shape_colon(spec: &[Tok]) -> (r: Option<usize>)
    ensures
        match r {
            Some(i) => shape_colon_spec(tvs(spec@)) == Some(i as int) && i < spec@.len(),
            None => shape_colon_spec(tvs(spec@)) is None,
        },
{
    let ghost s = tvs(spec@);
    let mut i: usize = 0;
    while i < spec.len()
        invariant
            i <= spec@.len(),
            s == tvs(spec@),
            forall|j: int| 0 <= j < i ==> !single_colon_at(s, j),
        decreases spec@.len() - i,
    {
        if is_single_colon(spec, i) {
            proof {
                lemma_shape_colon(s, i as int);
            }
            return Some(i);
        }
        i += 1;
    }
    assert(!(exists|i: int| single_colon_at(s, i)));
    None
}

/// The template region `[i, end)`: the tokens kept and the predicates of
/// its `where{...}` attachments, comma-joined in order (`out` and `preds`
/// are what was gathered before `i`).
pub open spec fn peel_from(
    s: Seq<TokV>,
    i: int,
    end: int,
    out: Seq<TokV>,
    preds: Seq<TokV>,
) -> (Seq<TokV>, Seq<TokV>)
    decreases end + 2 - i,
{
    if i < 0 || i >= end || i >= s.len() {
        (out, preds)
    } else if ident_v(s[i], "where"@) && i + 1 < s.len() && (s[i + 1] matches TokV::Group(
        Delim::Brace,
        _,
    )) {
        let g = match s[i + 1] {
            TokV::Group(_, g) => g,
            _ => Seq::empty(),
        };
        let joined = if preds.len() > 0 {
            preds + seq![TokV::Punct(',', Spacing::Alone)] + g
        } else {
            preds + g
        };
        peel_from(s, i + 2, end, out, joined)
    } else {
        peel_from(s, i + 1, end, out.push(s[i]), preds)
    }
}

/// The spec without the template region's `where{...}` attachments, and
/// their predicates.
pub open spec fn peel_spec(s: Seq<TokV>) -> (Seq<TokV>, Seq<TokV>) {
    let end = match shape_colon_spec(s) {
        Some(c) => c,
        None => s.len() as int,
    };
    let (out, preds) = peel_from(s, 0, end, Seq::empty(), Seq::empty());
    (out + s.subrange(end, s.len() as int), preds)
}

/// Extracts the `where{...}` attachments of the template region (before
/// the shape colon, or the whole spec in the direct form); the matrix
/// region keeps its own.
#[verifier::rlimit(60)]
pub fn peel_where(spec: &[Tok]) -> (r: (Vec<Tok>, Vec<Tok>))
    ensures
        (tvs(r.0@), tvs(r.1@)) == peel_spec(tvs(spec@)),
{
    let ghost s = tvs(spec@);
    let colon = match find_shape_colon(spec) {
        Some(c) => c,
        None => spec.len(),
    };
    let mut out: Vec<Tok> = Vec::new();
    let mut preds: Vec<Tok> = Vec::new();
    let mut i: usize = 0;
    assert(tvs(out@) =~= Seq::<TokV>::empty());
    assert(tvs(preds@) =~= Seq::<TokV>::empty());
    while i < colon
        invariant
            i <= colon + 1,
            colon <= spec@.len(),
            s == tvs(spec@),
            colon == match shape_colon_spec(s) {
                Some(c) => c,
                None => s.len() as int,
            },
            peel_from(s, 0, colon as int, Seq::empty(), Seq::empty()) == peel_from(
                s,
                i as int,
                colon as int,
                tvs(out@),
                tvs(preds@),
            ),
        decreases colon + 2 - i,
    {
        let is_where = is_ident_text(&spec[i], "where") && i + 1 < spec.len() && match &spec[i + 1] {
            Tok::Group(Delim::Brace, _) => true,
            _ => false,
        };
        if is_where {
            match &spec[i + 1] {
                Tok::Group(_, g) => {
                    let ghost p0 = preds@;
                    if preds.len() > 0 {
                        let comma = Tok::Punct(',', Spacing::Alone);
                        preds.push(comma);
                        proof {
                            lemma_tvs_push(p0, comma);
                        }
                    }
                    let ghost p1 = preds@;
                    let mut inner = copy_toks(g.as_slice());
                    let ghost iv = inner@;
                    preds.append(&mut inner);
                    proof {
                        lemma_tvs_concat(p1, iv);
                    }
                },
                _ => {},
            }
            i += 2;
        } else {
            let ghost o0 = out@;
            let t = copy_tok(&spec[i]);
            out.push(t);
            proof {
                lemma_tvs_push(o0, t);
            }
            i += 1;
        }
    }
    let ghost o1 = out@;
    let mut tail = copy_range(spec, colon, spec.len());
    let ghost tv1 = tail@;
    out.append(&mut tail);
    proof {
        lemma_tvs_concat(o1, tv1);
        assert(peel_from(s, i as int, colon as int, tvs(o1), tvs(preds@)) == (tvs(o1), tvs(preds@)));
    }
    (out, preds)
}

/// The new-generic declaration at the head of a spec (an angle group):
/// its content and the rest.
pub fn split_new_gen(tokens: &[Tok]) -> (r: (Option<Vec<Tok>>, Vec<Tok>))
    ensures
        match (if tokens@.len() > 0 {
            Some(tvs(tokens@)[0])
        } else {
            None
        }) {
            Some(TokV::Group(Delim::Invisible, g)) => r.0 matches Some(d) && tvs(d@) == g && tvs(
                r.1@,
            ) == tvs(tokens@).subrange(1, tokens@.len() as int),
            _ => r.0 is None && tvs(r.1@) == tvs(tokens@),
        },
{
    if tokens.len() > 0 {
        match &tokens[0] {
            Tok::Group(Delim::Invisible, g) => {
                let d = copy_toks(g.as_slice());
                let rest = copy_range(tokens, 1, tokens.len());
                return (Some(d), rest);
            },
            _ => {},
        }
    }
    (None, copy_toks(tokens))
}

/// One spec of the impl entry, ready to meet the impl.
#[derive(Debug)]
pub struct ImplSpec {
    /// The spec with its template-region attachments peeled off.
    pub spec: Vec<Tok>,
    /// The peeled predicates, comma-joined.
    pub where_preds: Vec<Tok>,
    /// The shape colon of the peeled spec (`None`: the direct form).
    pub shape_colon: Option<usize>,
}

pub struct ImplSpecV {
    pub spec: Seq<TokV>,
    pub where_preds: Seq<TokV>,
    pub shape_colon: Option<int>,
}

pub open spec fn impl_spec_view(x: ImplSpec) -> ImplSpecV {
    ImplSpecV {
        spec: tvs(x.spec@),
        where_preds: tvs(x.where_preds@),
        shape_colon: match x.shape_colon {
            Some(c) => Some(c as int),
            None => None,
        },
    }
}

pub open spec fn impl_specs_view(v: Seq<ImplSpec>) -> Seq<ImplSpecV> {
    Seq::new(v.len(), |k: int| impl_spec_view(v[k]))
}

/// The specs of the chunks from `k` on: empty chunks are skipped.
pub open spec fn specs_from(chunks: Seq<Seq<TokV>>, k: int) -> Seq<ImplSpecV>
    decreases chunks.len() - k,
{
    if k < 0 || k >= chunks.len() {
        Seq::empty()
    } else if chunks[k].len() == 0 {
        specs_from(chunks, k + 1)
    } else {
        let (spec, preds) = peel_spec(chunks[k]);
        seq![ImplSpecV { spec, where_preds: preds, shape_colon: shape_colon_spec(spec) }]
            + specs_from(chunks, k + 1)
    }
}

/// The impl entry's attribute preprocessing (the shared prefix against the
/// impl's own trait path, directives refused, bare `where` rewritten),
/// then the tokens.
pub open spec fn impl_entry_pre_spec(attr: Seq<TokV>, ctx: ConstCtx) -> Result<
    Seq<TokV>,
    Seq<char>,
> {
    step(
        step(preprocess_spec(attr, ctx), |v: Seq<TokV>| reject_spec(v)),
        |v: Seq<TokV>| kw_spec(Keyword::Where, v),
    )
}

/// Preprocesses the attribute of the impl entry and splits it into its
/// specs (`trait_path`: the impl's own trait path, `None` on an inherent
/// impl).
pub fn impl_entry_specs(attr: Vec<Tok>, trait_path: Option<&[Tok]>) -> (r: Result<
    Vec<ImplSpec>,
    Diag,
>)
    ensures
        match impl_entry_pre_spec(tvs(attr@), ConstCtx::ItemImpl { trait_path }) {
            Err(e) => r matches Err(d) && d@ == e,
            Ok(p) => r matches Ok(v) && impl_specs_view(v@) == specs_from(
                chunks_from(p, ';', 0),
                0,
            ),
        },
{
    let ctx = ConstCtx::ItemImpl { trait_path };
    let paired = match new(attr).preprocess(ctx) {
        Ok(p) => p,
        Err(d) => {
            return Err(d);
        },
    };
    let resolved = match paired.reject_directives() {
        Ok(p) => p,
        Err(d) => {
            return Err(d);
        },
    };
    let done = match resolved.where_process() {
        Ok(p) => p,
        Err(d) => {
            return Err(d);
        },
    };
    let tokens = done.into_tokens();
    let chunks = split_at_depth0(tokens.as_slice(), ';');
    let ghost cv = chunks_view(chunks@);
    let mut out: Vec<ImplSpec> = Vec::new();
    let mut k: usize = 0;
    assert(impl_specs_view(out@) =~= Seq::<ImplSpecV>::empty());
    while k < chunks.len()
        invariant
            k <= chunks@.len(),
            cv == chunks_view(chunks@),
            specs_from(cv, 0) == impl_specs_view(out@) + specs_from(cv, k as int),
        decreases chunks@.len() - k,
    {
        if chunks[k].len() > 0 {
            let (spec, where_preds) = peel_where(chunks[k].as_slice());
            let shape_colon = find_shape_colon(spec.as_slice());
            let item = ImplSpec { spec, where_preds, shape_colon };
            let ghost before = out@;
            out.push(item);
            proof {
                assert(impl_specs_view(out@) =~= impl_specs_view(before).push(impl_spec_view(item)));
                assert(impl_specs_view(before) + (seq![impl_spec_view(item)] + specs_from(cv, k + 1))
                    =~= impl_specs_view(out@) + specs_from(cv, k + 1));
            }
        }
        k += 1;
    }
    assert(impl_specs_view(out@) + Seq::<ImplSpecV>::empty() =~= impl_specs_view(out@));
    Ok(out)
}

} // verus!
