//! Token-level helpers of `#blanket`: the `@0` target marker, `Self` in a
//! return type, the grouped trait path, and `@trait` in wrapper
//! predicates.
use crate::diag::{diag, lemma_seq_then_assoc, res_view, seq_then, Diag};
use crate::empty_generics::{join_parts, parts_view};
use crate::refs::parse_usize;
use crate::text::{cat3, join_spec, join_strings, parse_unsigned_exec, strs_view};
use crate::token::{
    copy_tok, copy_toks, group_tok_view, ident_v, lemma_tvs_concat, lemma_tvs_push, punct_v, tv,
    tvs, Delim, Spacing, Tok, TokV,
};
use crate::trait_items::{comma_join, ItemKind, Receiver, TraitItemInfo};
use vstd::prelude::*;

verus! {

broadcast use group_tok_view;

/// `s` holds the target marker `@0` (`@` followed by the literal `0`), at
/// any depth.
pub open spec fn has_at0_spec(s: Seq<TokV>) -> bool
    decreases s,
{
    if s.len() == 0 {
        false
    } else {
        let here = match s[0] {
            TokV::Punct('@', _) => s.len() > 1 && s[1] == TokV::Literal("0"@),
            TokV::Group(_, inner) => has_at0_spec(inner),
            _ => false,
        };
        here || has_at0_spec(s.subrange(1, s.len() as int))
    }
}

proof fn lemma_has_at0_step(s: Seq<TokV>, i: int)
    requires
        0 <= i < s.len(),
    ensures
        has_at0_spec(s.subrange(i, s.len() as int)) == ((match s[i] {
            TokV::Punct('@', _) => i + 1 < s.len() && s[i + 1] == TokV::Literal("0"@),
            TokV::Group(_, inner) => has_at0_spec(inner),
            _ => false,
        }) || has_at0_spec(s.subrange(i + 1, s.len() as int))),
{
    let r = s.subrange(i, s.len() as int);
    assert(r[0] == s[i]);
    if r.len() > 1 {
        assert(r[1] == s[i + 1]);
    }
    assert(r.subrange(1, r.len() as int) =~= s.subrange(i + 1, s.len() as int));
}

/// Whether a wrapper's main part holds the `@0` target marker.
pub fn has_at0(tokens: &[Tok]) -> (b: bool)
    ensures
        b == has_at0_spec(tvs(tokens@)),
    decreases tokens@,
{
    let ghost s = tvs(tokens@);
    let mut i: usize = 0;
    assert(s.subrange(0, s.len() as int) =~= s);
    while i < tokens.len()
        invariant
            i <= tokens@.len(),
            s == tvs(tokens@),
            has_at0_spec(s) == has_at0_spec(s.subrange(i as int, s.len() as int)),
        decreases tokens@.len() - i,
    {
        proof {
            lemma_has_at0_step(s, i as int);
            assert(decreases_to!(tokens@ => tokens@[i as int]));
        }
        let here = match &tokens[i] {
            Tok::Punct('@', _) => i + 1 < tokens.len() && match &tokens[i + 1] {
                Tok::Literal(l) => crate::token::text_is(l, "0"),
                _ => false,
            },
            Tok::Group(_, inner) => has_at0(inner.as_slice()),
            _ => false,
        };
        if here {
            return true;
        }
        i += 1;
    }
    assert(s.subrange(i as int, s.len() as int) =~= Seq::<TokV>::empty());
    false
}

/// A return type's top-level tokens name `Self`.
pub open spec fn refs_self_spec(ty: Seq<TokV>) -> bool {
    exists|k: int| 0 <= k < ty.len() && ident_v(ty[k], "Self"@)
}

fn names_self(ty: &[Tok]) -> (b: bool)
    ensures
        b == refs_self_spec(tvs(ty@)),
{
    let mut k: usize = 0;
    while k < ty.len()
        invariant
            k <= ty@.len(),
            forall|j: int| 0 <= j < k ==> !ident_v(tvs(ty@)[j], "Self"@),
        decreases ty@.len() - k,
    {
        if crate::token::is_ident_text(&ty[k], "Self") {
            assert(ident_v(tvs(ty@)[k as int], "Self"@));
            return true;
        }
        k += 1;
    }
    false
}

/// Whether a method's return type names `Self` among its top-level tokens
/// (blanket delegation would return the inner type, not the wrapper).
pub fn return_type_refs_self(output: Option<&[Tok]>) -> (b: bool)
    ensures
        output is None ==> !b,
        output matches Some(t) ==> b == refs_self_spec(tvs(t@)),
{
    match output {
        None => false,
        Some(ty) => names_self(ty),
    }
}

/// `path` alone, or `path` followed by an angle group of the parameter
/// names (comma-separated).
pub open spec fn trait_with_args_spec(path: Seq<TokV>, names: Seq<Seq<TokV>>) -> Seq<TokV> {
    if names.len() == 0 {
        path
    } else {
        path + seq![TokV::Group(Delim::Invisible, comma_join(names))]
    }
}

/// `Trait<X, Y>` with the arguments in an angle group (the output is past
/// pairing, so the group is built here); no parameters give the bare path.
pub fn trait_with_args(path: &[Tok], param_names: &[Vec<Tok>]) -> (r: Vec<Tok>)
    ensures
        tvs(r@) == trait_with_args_spec(tvs(path@), parts_view(param_names@)),
{
    let mut out = copy_toks(path);
    if param_names.len() == 0 {
        return out;
    }
    let ghost p0 = out@;
    let args = crate::empty_generics::join_parts(param_names);
    let g = Tok::Group(Delim::Invisible, args);
    out.push(g);
    proof {
        lemma_tvs_push(p0, g);
    }
    out
}

pub open spec fn target_pred_msg() -> Seq<char> {
    "batch-impl: in #blanket wrapper where, `@` must be followed by a position digit (e.g. `@0`) or `@trait`"@
}

/// Wrapper predicates with `@trait` replaced by the trait path; `@N`
/// position references stay for the code generator; any other `@` is an
/// error.
pub open spec fn target_preds_spec(s: Seq<TokV>, path: Seq<TokV>) -> Result<
    Seq<TokV>,
    Seq<char>,
>
    decreases s.len(),
{
    if s.len() == 0 {
        Ok(Seq::empty())
    } else if punct_v(s[0], '@') {
        if s.len() > 1 && ident_v(s[1], "trait"@) {
            seq_then(path, target_preds_spec(s.subrange(2, s.len() as int), path))
        } else if s.len() > 1 && (s[1] matches TokV::Literal(l) && parse_usize(l) is Some) {
            seq_then(seq![s[0], s[1]], target_preds_spec(s.subrange(2, s.len() as int), path))
        } else {
            Err(target_pred_msg())
        }
    } else {
        seq_then(seq![s[0]], target_preds_spec(s.subrange(1, s.len() as int), path))
    }
}

proof fn lemma_target_step(s: Seq<TokV>, path: Seq<TokV>, i: int)
    requires
        0 <= i < s.len(),
    ensures
        target_preds_spec(s.subrange(i, s.len() as int), path) == (if punct_v(s[i], '@') {
            if i + 1 < s.len() && ident_v(s[i + 1], "trait"@) {
                seq_then(path, target_preds_spec(s.subrange(i + 2, s.len() as int), path))
            } else if i + 1 < s.len() && (s[i + 1] matches TokV::Literal(l) && parse_usize(l) is Some) {
                seq_then(seq![s[i], s[i + 1]], target_preds_spec(s.subrange(i + 2, s.len() as int), path))
            } else {
                Err(target_pred_msg())
            }
        } else {
            seq_then(seq![s[i]], target_preds_spec(s.subrange(i + 1, s.len() as int), path))
        }),
{
    let r = s.subrange(i, s.len() as int);
    assert(r[0] == s[i]);
    if r.len() > 1 {
        assert(r[1] == s[i + 1]);
        assert(r.subrange(2, r.len() as int) =~= s.subrange(i + 2, s.len() as int));
    }
    assert(r.subrange(1, r.len() as int) =~= s.subrange(i + 1, s.len() as int));
}

/// Resolves `@trait` in `#blanket` wrapper predicates (see
/// [`target_preds_spec`]).
pub fn resolve_target_predicates(preds: &[Tok], trait_full_path: &[Tok]) -> (r: Result<
    Vec<Tok>,
    Diag,
>)
    ensures
        res_view(r) == target_preds_spec(tvs(preds@), tvs(trait_full_path@)),
{
    let ghost s = tvs(preds@);
    let ghost path = tvs(trait_full_path@);
    let mut out: Vec<Tok> = Vec::new();
    let mut i: usize = 0;
    assert(s.subrange(0, s.len() as int) =~= s);
    while i < preds.len()
        invariant
            i <= preds@.len(),
            s == tvs(preds@),
            path == tvs(trait_full_path@),
            target_preds_spec(s, path) == seq_then(
                tvs(out@),
                target_preds_spec(s.subrange(i as int, s.len() as int), path),
            ),
        decreases preds@.len() - i,
    {
        proof {
            lemma_target_step(s, path, i as int);
        }
        let ghost prev = out@;
        let is_at = match &preds[i] {
            Tok::Punct(c, _) => *c == '@',
            _ => false,
        };
        if is_at {
            if i + 1 < preds.len() && crate::token::is_ident_text(&preds[i + 1], "trait") {
                let mut p = copy_toks(trait_full_path);
                let ghost pv = p@;
                out.append(&mut p);
                proof {
                    lemma_tvs_concat(prev, pv);
                    lemma_seq_then_assoc(
                        tvs(prev),
                        path,
                        target_preds_spec(s.subrange(i + 2, s.len() as int), path),
                    );
                }
                i += 2;
            } else {
                let numeric = i + 1 < preds.len() && match &preds[i + 1] {
                    Tok::Literal(l) => parse_unsigned_exec(l.as_str(), usize::MAX as u64).is_some(),
                    _ => false,
                };
                proof {
                    if i + 1 < preds.len() {
                        if let TokV::Literal(l) = s[i + 1] {
                            assert(parse_usize(l) is Some == crate::text::parse_unsigned(
                                l,
                                usize::MAX as nat,
                            ) is Some);
                        }
                    }
                }
                if numeric {
                    let a = copy_tok(&preds[i]);
                    let b = copy_tok(&preds[i + 1]);
                    out.push(a);
                    out.push(b);
                    proof {
                        assert(tvs(out@) =~= tvs(prev) + seq![s[i as int], s[i + 1]]);
                        lemma_seq_then_assoc(
                            tvs(prev),
                            seq![s[i as int], s[i + 1]],
                            target_preds_spec(s.subrange(i + 2, s.len() as int), path),
                        );
                    }
                    i += 2;
                } else {
                    return Err(
                        diag(
                            "batch-impl: in #blanket wrapper where, `@` must be followed by a position digit (e.g. `@0`) or `@trait`",
                        ),
                    );
                }
            }
        } else {
            let t = copy_tok(&preds[i]);
            out.push(t);
            proof {
                lemma_tvs_push(prev, t);
                lemma_seq_then_assoc(
                    tvs(prev),
                    seq![tv(t)],
                    target_preds_spec(s.subrange(i + 1, s.len() as int), path),
                );
            }
            i += 1;
        }
    }
    assert(s.subrange(i as int, s.len() as int) =~= Seq::<TokV>::empty());
    assert(tvs(out@) + Seq::<TokV>::empty() =~= tvs(out@));
    Ok(out)
}

} // verus!

verus! {

/// How a blanket impl forwards a method: an associated function (no
/// receiver) goes through the fresh generic (`None`: `T::m(..)`);
/// `&self` / `&mut self` derefs the reference and then the wrapper's
/// layers (`depth + 1` stars); a by-value `self` already is the wrapper
/// (`depth` stars).
pub open spec fn forward_spec(receiver: Option<Receiver>, depth: nat) -> Option<nat> {
    match receiver {
        None => None,
        Some(Receiver::Reference) => Some(depth + 1),
        Some(_) => Some(depth),
    }
}

/// The number of `*` before `self` in a forwarded call (see
/// [`forward_spec`]).
pub fn forward_derefs(receiver: Option<Receiver>, depth: usize) -> (r: Option<usize>)
    requires
        depth < usize::MAX,
    ensures
        match r {
            Some(n) => forward_spec(receiver, depth as nat) == Some(n as nat),
            None => forward_spec(receiver, depth as nat) is None,
        },
{
    match receiver {
        None => None,
        Some(Receiver::Reference) => Some(depth + 1),
        Some(_) => Some(depth),
    }
}

/// A method taking `self` by value (`self` / `self: Box<Self>`): its
/// deref forward moves the inner value out of the wrapper.
pub open spec fn by_value_spec(it: TraitItemInfo) -> bool {
    it.kind == ItemKind::Fn && (it.receiver == Some(Receiver::Value) || it.receiver == Some(
        Receiver::Typed,
    ))
}

/// Whether the item is a by-value method (see [`by_value_spec`]).
pub fn is_by_value(it: &TraitItemInfo) -> (b: bool)
    ensures
        b == by_value_spec(*it),
{
    it.kind == ItemKind::Fn && match it.receiver {
        Some(Receiver::Value) | Some(Receiver::Typed) => true,
        _ => false,
    }
}

/// The documentation note a blanket impl carries when it forwards
/// by-value methods.
pub open spec fn by_value_note_spec(names: Seq<Seq<char>>) -> Seq<char> {
    "batch-impl: by-value method(s) `"@ + join_spec(names, ", "@)
        + "` forwarded via deref — the forward moves the inner value out of the wrapper, so shared wrappers (`&`, `Rc`) cannot type-check; select `@all_ref_methods` to keep the trait default or hand-write them with `#name{..}` if rustc rejects the impl"@
}

/// The note for the by-value methods `names` (see [`by_value_note_spec`]).
pub fn by_value_note(names: &[String]) -> (r: String)
    ensures
        r@ == by_value_note_spec(strs_view(names@)),
{
    let joined = join_strings(names, ", ");
    cat3(
        "batch-impl: by-value method(s) `",
        joined.as_str(),
        "` forwarded via deref — the forward moves the inner value out of the wrapper, so shared wrappers (`&`, `Rc`) cannot type-check; select `@all_ref_methods` to keep the trait default or hand-write them with `#name{..}` if rustc rejects the impl",
    )
}

} // verus!

verus! {

/// The target of a wrapper: the wrapper applied to the fresh parameter
/// with `.`, or the wrapper as written when it marks the position with
/// `@0`.
pub open spec fn target_spec(wrapper: Seq<TokV>, fresh: TokV) -> Seq<TokV> {
    if has_at0_spec(wrapper) {
        wrapper
    } else {
        wrapper + seq![TokV::Punct('.', Spacing::Alone), fresh]
    }
}

/// The predicates of a blanket spec: the fresh parameter bounded by the
/// trait, then the trait's own predicates, then the wrapper's.
pub open spec fn blanket_where_spec(
    fresh: TokV,
    bound: Seq<TokV>,
    trait_where: Option<Seq<TokV>>,
    preds: Seq<TokV>,
) -> Seq<TokV> {
    let head = seq![fresh, TokV::Punct(':', Spacing::Alone)] + bound;
    let with_trait = match trait_where {
        Some(w) => head + seq![TokV::Punct(',', Spacing::Alone)] + w,
        None => head,
    };
    if preds.len() == 0 {
        with_trait
    } else {
        with_trait + seq![TokV::Punct(',', Spacing::Alone)] + preds
    }
}

/// The spec one wrapper expands to: `attrs`, the impl generics (the
/// trait's parameters, then the fresh one) as an angle group, the trait
/// part, the target, `where{...}`, and the forwarding items in braces.
pub open spec fn blanket_spec_spec(
    attrs: Seq<TokV>,
    params: Seq<Seq<TokV>>,
    fresh: TokV,
    bound: Seq<TokV>,
    trait_part: Seq<TokV>,
    wrapper: Seq<TokV>,
    trait_where: Option<Seq<TokV>>,
    preds: Seq<TokV>,
    methods: Seq<TokV>,
) -> Seq<TokV> {
    attrs + seq![TokV::Group(Delim::Invisible, comma_join(params.push(seq![fresh])))] + trait_part
        + target_spec(wrapper, fresh) + seq![
        TokV::Ident("where"@),
        TokV::Group(Delim::Brace, blanket_where_spec(fresh, bound, trait_where, preds)),
        TokV::Group(Delim::Brace, methods),
    ]
}

fn append_copy(v: &mut Vec<Tok>, src: &[Tok])
    ensures
        tvs(final(v)@) == tvs(old(v)@) + tvs(src@),
{
    let ghost before = v@;
    let mut c = copy_toks(src);
    let ghost cv = c@;
    v.append(&mut c);
    proof {
        lemma_tvs_concat(before, cv);
    }
}

fn push_tok(v: &mut Vec<Tok>, t: Tok)
    ensures
        tvs(final(v)@) == tvs(old(v)@) + seq![t@],
{
    let ghost before = v@;
    v.push(t);
    proof {
        lemma_tvs_push(before, t);
    }
}

/// Assembles the spec one `#blanket` wrapper expands to (see
/// [`blanket_spec_spec`]).
pub fn blanket_spec(
    attrs: &[Tok],
    params: &[Vec<Tok>],
    fresh: &Tok,
    bound: &[Tok],
    trait_part: &[Tok],
    wrapper: &[Tok],
    trait_where: Option<&[Tok]>,
    preds: &[Tok],
    methods: Vec<Tok>,
) -> (r: Vec<Tok>)
    ensures
        tvs(r@) == blanket_spec_spec(
            tvs(attrs@),
            parts_view(params@),
            fresh@,
            tvs(bound@),
            tvs(trait_part@),
            tvs(wrapper@),
            match trait_where {
                Some(w) => Some(tvs(w@)),
                None => None,
            },
            tvs(preds@),
            tvs(methods@),
        ),
{
    let mut all: Vec<Vec<Tok>> = Vec::new();
    let mut k: usize = 0;
    while k < params.len()
        invariant
            k <= params@.len(),
            all@.len() == k,
            forall|j: int| 0 <= j < k ==> tvs(#[trigger] all@[j]@) == tvs(params@[j]@),
        decreases params@.len() - k,
    {
        all.push(copy_toks(params[k].as_slice()));
        k += 1;
    }
    let one = vec![copy_tok(fresh)];
    assert(tvs(one@) =~= seq![fresh@]);
    all.push(one);
    assert(parts_view(all@) =~= parts_view(params@).push(seq![fresh@]));
    let generics = join_parts(all.as_slice());
    let ghost tw = match trait_where {
        Some(w) => Some(tvs(w@)),
        None => None,
    };
    let ghost comma = TokV::Punct(',', Spacing::Alone);
    let mut wh: Vec<Tok> = Vec::new();
    push_tok(&mut wh, copy_tok(fresh));
    push_tok(&mut wh, Tok::Punct(':', Spacing::Alone));
    append_copy(&mut wh, bound);
    assert(tvs(wh@) =~= seq![fresh@, TokV::Punct(':', Spacing::Alone)] + tvs(bound@));
    let ghost head = tvs(wh@);
    if let Some(w) = trait_where {
        push_tok(&mut wh, Tok::Punct(',', Spacing::Alone));
        append_copy(&mut wh, w);
    }
    let ghost with_trait = tvs(wh@);
    assert(with_trait =~= match tw {
        Some(w) => head + seq![comma] + w,
        None => head,
    });
    if preds.len() > 0 {
        push_tok(&mut wh, Tok::Punct(',', Spacing::Alone));
        append_copy(&mut wh, preds);
    }
    assert(tvs(wh@) =~= blanket_where_spec(fresh@, tvs(bound@), tw, tvs(preds@)));
    let mut out: Vec<Tok> = Vec::new();
    append_copy(&mut out, attrs);
    push_tok(&mut out, Tok::Group(Delim::Invisible, generics));
    append_copy(&mut out, trait_part);
    let ghost pre = tvs(out@);
    append_copy(&mut out, wrapper);
    if !has_at0(wrapper) {
        push_tok(&mut out, Tok::Punct('.', Spacing::Alone));
        push_tok(&mut out, copy_tok(fresh));
    }
    assert(tvs(out@) =~= pre + target_spec(tvs(wrapper@), fresh@));
    let ghost wv = tvs(wh@);
    push_tok(&mut out, Tok::Ident(String::from_str("where")));
    push_tok(&mut out, Tok::Group(Delim::Brace, wh));
    push_tok(&mut out, Tok::Group(Delim::Brace, methods));
    assert(tvs(out@) =~= blanket_spec_spec(
        tvs(attrs@),
        parts_view(params@),
        fresh@,
        tvs(bound@),
        tvs(trait_part@),
        tvs(wrapper@),
        tw,
        tvs(preds@),
        tvs(methods@),
    ));
    out
}

} // verus!
