//! Implementing a trait item from its shape: looking the item up by name,
//! printing it with a new body (and, for a forwarding method, renamed
//! parameters), and the arguments a forwarding call passes.
use crate::diag::{diag, Diag};
use crate::display::{dec, usize_text};
use crate::empty_generics::{join_parts, parts_view};
use crate::text::{cat2, cat5};
use crate::token::{copy_tok, copy_toks, group_tok_view, lemma_tvs_concat, lemma_tvs_push, tvs, Delim, Spacing, Tok, TokV};
use crate::trait_items::{comma_join, get_trait_item_index, ItemKind, ParamPat, ParamShape, TraitDef, TraitItemInfo};
use vstd::prelude::*;

verus! {

broadcast use group_tok_view;

// ------------------------------------------------------------------
// Lookup

/// `it` is the item `name` (a fn, const or type item).
pub open spec fn item_matches(it: TraitItemInfo, name: Seq<char>) -> bool {
    it.kind != ItemKind::Other && it.name@ == name
}

/// The position of the first item named `name` from `k` on.
pub open spec fn first_item(items: Seq<TraitItemInfo>, name: Seq<char>, k: int) -> Option<int>
    decreases items.len() - k,
{
    if k < 0 || k >= items.len() {
        None
    } else if item_matches(items[k], name) {
        Some(k)
    } else {
        first_item(items, name, k + 1)
    }
}

pub open spec fn not_found_msg(ident: Seq<char>, name: Seq<char>) -> Seq<char> {
    "batch-impl: item `"@ + ident + "` not found in trait `"@ + name + "`"@
}

/// The item named `name`, or the not-found error.
pub open spec fn lookup_spec(td: TraitDef, name: Seq<char>) -> Result<TraitItemInfo, Seq<char>> {
    match first_item(td.items@, name, 0) {
        Some(k) => Ok(td.items@[k]),
        None => Err(not_found_msg(td.ident@, name)),
    }
}

proof fn lemma_first_item_found(items: Seq<TraitItemInfo>, name: Seq<char>, k: int, j: int)
    requires
        0 <= j <= k < items.len(),
        item_matches(items[k], name),
        forall|i: int| 0 <= i < k ==> !item_matches(#[trigger] items[i], name),
    ensures
        first_item(items, name, j) == Some(k),
    decreases k - j,
{
    if j < k {
        lemma_first_item_found(items, name, k, j + 1);
    }
}

proof fn lemma_first_item_none(items: Seq<TraitItemInfo>, name: Seq<char>, j: int)
    requires
        0 <= j,
        forall|i: int| 0 <= i < items.len() ==> !item_matches(#[trigger] items[i], name),
    ensures
        first_item(items, name, j) is None,
    decreases items.len() - j,
{
    if j < items.len() {
        lemma_first_item_none(items, name, j + 1);
    }
}

/// Looks up the item named `name` (see [`lookup_spec`]).
pub fn lookup<'a>(td: &'a TraitDef, name: &str) -> (r: Result<&'a TraitItemInfo, Diag>)
    ensures
        match r {
            Ok(it) => lookup_spec(*td, name@) == Ok::<TraitItemInfo, Seq<char>>(*it),
            Err(d) => lookup_spec(*td, name@) == Err::<TraitItemInfo, Seq<char>>(d@),
        },
{
    match get_trait_item_index(td, name) {
        Ok(k) => {
            proof {
                lemma_first_item_found(td.items@, name@, k as int, 0);
            }
            Ok(&td.items[k])
        },
        Err(d) => {
            proof {
                lemma_first_item_none(td.items@, name@, 0);
            }
            Err(d)
        },
    }
}

// ------------------------------------------------------------------
// Parameters

pub enum PatKindV {
    Ident(Seq<char>),
    Wild,
    Other,
}

/// The view of a parameter.
pub struct ParamV {
    pub attrs: Seq<TokV>,
    pub pat: Seq<TokV>,
    pub kind: PatKindV,
    pub forwardable: bool,
    pub ty: Seq<TokV>,
    pub text: Seq<char>,
}

pub open spec fn param_v(p: ParamShape) -> ParamV {
    ParamV {
        attrs: tvs(p.attrs@),
        pat: tvs(p.pat@),
        kind: match p.pat_kind {
            ParamPat::Ident(n) => PatKindV::Ident(n@),
            ParamPat::Wild => PatKindV::Wild,
            ParamPat::Other => PatKindV::Other,
        },
        forwardable: p.forwardable,
        ty: tvs(p.ty@),
        text: p.text@,
    }
}

pub open spec fn params_v(s: Seq<ParamShape>) -> Seq<ParamV> {
    Seq::new(s.len(), |i: int| param_v(s[i]))
}

/// A parameter as written: attributes, pattern, `:`, type.
pub open spec fn param_tokens(p: ParamV) -> Seq<TokV> {
    p.attrs + p.pat + seq![TokV::Punct(':', Spacing::Alone)] + p.ty
}

pub open spec fn opt_v(o: Option<Vec<Tok>>) -> Option<Seq<TokV>> {
    match o {
        Some(v) => Some(tvs(v@)),
        None => None,
    }
}

/// The parameter list: the receiver (if any), then the parameters,
/// comma-separated.
pub open spec fn inputs_spec(recv: Option<Seq<TokV>>, ps: Seq<ParamV>) -> Seq<TokV> {
    comma_join(
        match recv {
            Some(r) => seq![r],
            None => Seq::empty(),
        } + Seq::new(ps.len(), |i: int| param_tokens(ps[i])),
    )
}

/// The item implemented with `body`, its parameters being `ps`: a method
/// is its signature and `{ body }`; a constant or a type is `head = body
/// tail`.
pub open spec fn item_tokens_spec(it: TraitItemInfo, ps: Seq<ParamV>, body: Seq<TokV>) -> Seq<TokV> {
    let sh = it.shape;
    match it.kind {
        ItemKind::Fn => tvs(sh.head@) + seq![
            TokV::Group(Delim::Paren, inputs_spec(opt_v(sh.receiver), ps)),
        ] + tvs(sh.output@) + tvs(sh.tail@) + seq![
            TokV::Group(Delim::Brace, tvs(sh.inner_attrs@) + body),
        ],
        ItemKind::Const | ItemKind::Type => tvs(sh.head@) + seq![TokV::Punct('=', Spacing::Alone)]
            + body + tvs(sh.tail@),
        ItemKind::Other => Seq::empty(),
    }
}

fn append_copy(v: &mut Vec<Tok>, src: &[Tok])
    ensures
        tvs(final(v)@) == tvs(old(v)@) + tvs(src@),
{
    let ghost before = v@;
    let mut c = copy_toks(src);
    let ghost cv = c@;
    v.append(&mut c);
    proof {
        lemma_tvs_concat(before, cv);
    }
}

fn push_tok(v: &mut Vec<Tok>, t: Tok)
    ensures
        tvs(final(v)@) == tvs(old(v)@) + seq![t@],
{
    let ghost before = v@;
    v.push(t);
    proof {
        lemma_tvs_push(before, t);
    }
}

fn param_tokens_exec(p: &ParamShape) -> (r: Vec<Tok>)
    ensures
        tvs(r@) == param_tokens(param_v(*p)),
{
    let mut out: Vec<Tok> = Vec::new();
    append_copy(&mut out, p.attrs.as_slice());
    append_copy(&mut out, p.pat.as_slice());
    push_tok(&mut out, Tok::Punct(':', Spacing::Alone));
    append_copy(&mut out, p.ty.as_slice());
    assert(tvs(out@) =~= param_tokens(param_v(*p)));
    out
}

fn inputs_exec(recv: &Option<Vec<Tok>>, params: &[ParamShape]) -> (r: Vec<Tok>)
    ensures
        tvs(r@) == inputs_spec(opt_v(*recv), params_v(params@)),
{
    let mut parts: Vec<Vec<Tok>> = Vec::new();
    let ghost first: Seq<Seq<TokV>> = match opt_v(*recv) {
        Some(r) => seq![r],
        None => Seq::empty(),
    };
    if let Some(r) = recv {
        parts.push(copy_toks(r.as_slice()));
    }
    assert(parts_view(parts@) =~= first);
    let ghost ps = params_v(params@);
    let mut i: usize = 0;
    while i < params.len()
        invariant
            i <= params@.len(),
            ps == params_v(params@),
            parts_view(parts@) =~= first + Seq::new(i as nat, |k: int| param_tokens(ps[k])),
        decreases params@.len() - i,
    {
        let t = param_tokens_exec(&params[i]);
        let ghost before = parts@;
        parts.push(t);
        assert(parts_view(parts@) =~= parts_view(before).push(tvs(t@)));
        i += 1;
    }
    join_parts(parts.as_slice())
}

/// Prints the item `it` implemented with `body`, its parameters being
/// `params` (see [`item_tokens_spec`]).
pub fn item_tokens(it: &TraitItemInfo, params: &[ParamShape], body: &[Tok]) -> (r: Vec<Tok>)
    ensures
        tvs(r@) == item_tokens_spec(*it, params_v(params@), tvs(body@)),
{
    let sh = &it.shape;
    let mut out: Vec<Tok> = Vec::new();
    match it.kind {
        ItemKind::Fn => {
            append_copy(&mut out, sh.head.as_slice());
            let inputs = inputs_exec(&sh.receiver, params);
            push_tok(&mut out, Tok::Group(Delim::Paren, inputs));
            append_copy(&mut out, sh.output.as_slice());
            append_copy(&mut out, sh.tail.as_slice());
            let mut block: Vec<Tok> = Vec::new();
            append_copy(&mut block, sh.inner_attrs.as_slice());
            append_copy(&mut block, body);
            push_tok(&mut out, Tok::Group(Delim::Brace, block));
        },
        ItemKind::Const | ItemKind::Type => {
            append_copy(&mut out, sh.head.as_slice());
            push_tok(&mut out, Tok::Punct('=', Spacing::Alone));
            append_copy(&mut out, body);
            append_copy(&mut out, sh.tail.as_slice());
        },
        ItemKind::Other => {},
    }
    assert(tvs(out@) =~= item_tokens_spec(*it, params_v(params@), tvs(body@)));
    out
}

// ------------------------------------------------------------------
// Forwarding

/// The name a renamed parameter gets: `arg0`, `arg1`, ...
pub open spec fn arg_name(n: nat) -> Seq<char> {
    "arg"@ + dec(n)
}

/// The parameters of a forwarding method from `i` on: a pattern that
/// cannot be used as an expression is renamed to the next `argN` (`n`
/// counts the renamed ones so far); the others are kept.
pub open spec fn renamed_params(ps: Seq<ParamV>, i: int, n: nat) -> Seq<ParamV>
    decreases ps.len() - i,
{
    if i < 0 || i >= ps.len() {
        Seq::empty()
    } else if ps[i].forwardable {
        seq![ps[i]] + renamed_params(ps, i + 1, n)
    } else {
        seq![
            ParamV {
                attrs: ps[i].attrs,
                pat: seq![TokV::Ident(arg_name(n))],
                kind: PatKindV::Ident(arg_name(n)),
                forwardable: true,
                ty: ps[i].ty,
                text: ps[i].text,
            },
        ] + renamed_params(ps, i + 1, n + 1)
    }
}

fn copy_param(p: &ParamShape) -> (r: ParamShape)
    ensures
        param_v(r) == param_v(*p),
{
    ParamShape {
        attrs: copy_toks(p.attrs.as_slice()),
        pat: copy_toks(p.pat.as_slice()),
        pat_kind: match &p.pat_kind {
            ParamPat::Ident(n) => ParamPat::Ident(n.clone()),
            ParamPat::Wild => ParamPat::Wild,
            ParamPat::Other => ParamPat::Other,
        },
        forwardable: p.forwardable,
        ty: copy_toks(p.ty.as_slice()),
        text: p.text.clone(),
    }
}

/// Renames the parameters that cannot be forwarded by name (see
/// [`renamed_params`]).
pub fn rename_params(params: &[ParamShape]) -> (r: Vec<ParamShape>)
    ensures
        params_v(r@) == renamed_params(params_v(params@), 0, 0),
{
    let ghost ps = params_v(params@);
    let mut out: Vec<ParamShape> = Vec::new();
    let mut n: usize = 0;
    let mut i: usize = 0;
    assert(ps.len() == params@.len());
    while i < params.len()
        invariant
            i <= params@.len(),
            n <= i,
            ps == params_v(params@),
            renamed_params(ps, 0, 0) == params_v(out@) + renamed_params(ps, i as int, n as nat),
        decreases params@.len() - i,
    {
        let ghost before = out@;
        let p = &params[i];
        if p.forwardable {
            let c = copy_param(p);
            out.push(c);
            assert(params_v(out@) =~= params_v(before) + seq![ps[i as int]]);
            assert(params_v(before) + (seq![ps[i as int]] + renamed_params(ps, i + 1, n as nat))
                =~= params_v(out@) + renamed_params(ps, i + 1, n as nat));
        } else {
            let name = cat2("arg", usize_text(n).as_str());
            let np = ParamShape {
                attrs: copy_toks(p.attrs.as_slice()),
                pat: vec![Tok::Ident(name.clone())],
                pat_kind: ParamPat::Ident(name),
                forwardable: true,
                ty: copy_toks(p.ty.as_slice()),
                text: p.text.clone(),
            };
            let ghost q = ParamV {
                attrs: ps[i as int].attrs,
                pat: seq![TokV::Ident(arg_name(n as nat))],
                kind: PatKindV::Ident(arg_name(n as nat)),
                forwardable: true,
                ty: ps[i as int].ty,
                text: ps[i as int].text,
            };
            assert(tvs(np.pat@) =~= seq![TokV::Ident(arg_name(n as nat))]);
            assert(param_v(np) == q);
            out.push(np);
            assert(params_v(out@) =~= params_v(before) + seq![q]);
            assert(params_v(before) + (seq![q] + renamed_params(ps, i + 1, (n + 1) as nat))
                =~= params_v(out@) + renamed_params(ps, i + 1, (n + 1) as nat));
            n += 1;
        }
        i += 1;
    }
    assert(params_v(out@) + Seq::<ParamV>::empty() =~= params_v(out@));
    out
}

/// The arguments a forwarding call passes, from the `i`-th parameter on:
/// an identifier pattern passes its name, `_` cannot be passed (the error
/// carries the parameter's text), any other pattern passes its tokens.
pub open spec fn call_args_from(ps: Seq<ParamV>, i: int) -> Result<Seq<Seq<TokV>>, Seq<char>>
    decreases ps.len() - i,
{
    if i < 0 || i >= ps.len() {
        Ok(Seq::empty())
    } else {
        let here = match ps[i].kind {
            PatKindV::Ident(n) => Ok(seq![TokV::Ident(n)]),
            PatKindV::Wild => Err(ps[i].text),
            PatKindV::Other => Ok(ps[i].pat),
        };
        match here {
            Err(t) => Err(t),
            Ok(a) => match call_args_from(ps, i + 1) {
                Err(t) => Err(t),
                Ok(rest) => Ok(seq![a] + rest),
            },
        }
    }
}

/// The arguments a forwarding call passes (see [`call_args_from`]).
pub fn call_args(params: &[ParamShape]) -> (r: Result<Vec<Vec<Tok>>, String>)
    ensures
        match r {
            Ok(v) => call_args_from(params_v(params@), 0) == Ok::<Seq<Seq<TokV>>, Seq<char>>(
                parts_view(v@),
            ),
            Err(t) => call_args_from(params_v(params@), 0) == Err::<Seq<Seq<TokV>>, Seq<char>>(t@),
        },
{
    let ghost ps = params_v(params@);
    let mut out: Vec<Vec<Tok>> = Vec::new();
    let mut i: usize = 0;
    while i < params.len()
        invariant
            i <= params@.len(),
            ps == params_v(params@),
            call_args_from(ps, 0) == match call_args_from(ps, i as int) {
                Err(t) => Err(t),
                Ok(rest) => Ok(parts_view(out@) + rest),
            },
        decreases params@.len() - i,
    {
        let ghost before = out@;
        let p = &params[i];
        let a = match &p.pat_kind {
            ParamPat::Ident(n) => vec![Tok::Ident(n.clone())],
            ParamPat::Wild => {
                return Err(p.text.clone());
            },
            ParamPat::Other => copy_toks(p.pat.as_slice()),
        };
        assert(tvs(a@) == match ps[i as int].kind {
            PatKindV::Ident(n) => seq![TokV::Ident(n)],
            _ => ps[i as int].pat,
        }) by {
            if let PatKindV::Ident(n) = ps[i as int].kind {
                assert(tvs(a@) =~= seq![TokV::Ident(n)]);
            }
        }
        out.push(a);
        assert(parts_view(out@) =~= parts_view(before) + seq![tvs(a@)]);
        proof {
            match call_args_from(ps, i + 1) {
                Ok(rest) => {
                    assert(parts_view(before) + (seq![tvs(a@)] + rest) =~= parts_view(out@) + rest);
                },
                Err(_) => {},
            }
        }
        i += 1;
    }
    assert(parts_view(out@) + Seq::<Seq<TokV>>::empty() =~= parts_view(out@));
    Ok(out)
}

/// Whether the method's signature takes or returns `Self` at the top
/// level of a parameter's or the return type's tokens.
pub open spec fn sig_names_self_spec(it: TraitItemInfo) -> bool {
    crate::directives::blanket_helpers::refs_self_spec(tvs(it.shape.output@)) || exists|i: int|
        0 <= i < it.shape.params@.len() && crate::directives::blanket_helpers::refs_self_spec(
            #[trigger] tvs(it.shape.params@[i].ty@),
        )
}

/// Whether the method takes or returns `Self` (see
/// [`sig_names_self_spec`]).
pub fn sig_names_self(it: &TraitItemInfo) -> (b: bool)
    ensures
        b == sig_names_self_spec(*it),
{
    if crate::directives::blanket_helpers::return_type_refs_self(Some(it.shape.output.as_slice())) {
        return true;
    }
    let ps = &it.shape.params;
    let mut i: usize = 0;
    while i < ps.len()
        invariant
            i <= ps@.len(),
            ps@ == it.shape.params@,
            !crate::directives::blanket_helpers::refs_self_spec(tvs(it.shape.output@)),
            forall|j: int|
                0 <= j < i ==> !crate::directives::blanket_helpers::refs_self_spec(
                    #[trigger] tvs(ps@[j].ty@),
                ),
        decreases ps@.len() - i,
    {
        if crate::directives::blanket_helpers::return_type_refs_self(Some(ps[i].ty.as_slice())) {
            return true;
        }
        i += 1;
    }
    false
}

} // verus!
