//! The `#` directive expansions over the trait model: `#name{body}` and
//! `#fill(names){body}` implement items with a body, `#delegate(names){x}`
//! forwards methods to `x`, `#blanket(names){wrappers}` emits one
//! delegating spec per wrapper type, and any other `#name(args){body}` is
//! the open extension. [`expand_tokens`] expands every directive of a
//! token list, in order.
use crate::angle::{angle_collect, collect_spec};
use crate::diag::{diag, lemma_seq_then_assoc, res_view, seq_then, Diag};
use crate::directives::blanket_helpers::{
    blanket_spec, blanket_spec_spec, by_value_note, by_value_note_spec, by_value_spec, forward_derefs,
    forward_spec, is_by_value, resolve_target_predicates, target_preds_spec, trait_with_args,
    trait_with_args_spec,
};
use crate::directives::blanket_wrappers::{
    parse_blanket_wrappers, wrapper_view, wrappers_from, wrappers_view, BlanketWrapper, WrapperV,
};
use crate::directives::delegate::{delegate_args, delegate_args_spec, pairs_view};
use crate::directives::dispatch::{open_call_spec, open_extension, DirectiveKind};
use crate::directives::items::{
    call_args, call_args_from, item_tokens, item_tokens_spec, lookup, lookup_spec, opt_v, params_v,
    rename_params, renamed_params, sig_names_self, sig_names_self_spec, ParamV,
};
use crate::directives::name_list::{
    args_empty_msg, names_finish, names_loop, names_spec, parse_names_from_tokens, select,
};
use crate::directives::walk::{piece_v, pieces_spec, pieces_v, split_directives, Piece, PieceV};
use crate::empty_generics::{join_parts, parts_view};
use crate::fresh::{fresh_name, FreshCounter};
use crate::text::{cat3, cat5, strs_view};
use crate::token::{
    copy_tok, copy_toks, group_tok_view, lemma_tvs_concat, lemma_tvs_push, tv, tvs, Delim, Spacing,
    Tok, TokV,
};
use crate::trait_items::{comma_join, ItemKind, TraitDef, TraitItemInfo};
use vstd::prelude::*;

verus! {

broadcast use group_tok_view;

/// The content of a group (a non-group token stands for itself).
pub open spec fn group_inner(t: TokV) -> Seq<TokV> {
    match t {
        TokV::Group(_, v) => v,
        o => seq![o],
    }
}

fn inner_toks(t: &Tok) -> (v: Vec<Tok>)
    ensures
        tvs(v@) == group_inner(t@),
{
    match t {
        Tok::Group(_, inner) => copy_toks(inner.as_slice()),
        o => {
            let v = vec![copy_tok(o)];
            assert(tvs(v@) =~= seq![t@]);
            v
        },
    }
}

/// The names a directive's argument list selects.
pub open spec fn arg_names_spec(s: Seq<TokV>) -> Result<Seq<Seq<char>>, Seq<char>> {
    if s.len() == 0 {
        Err(args_empty_msg())
    } else {
        names_spec(s, "directive arguments"@)
    }
}

/// The item's own parameters.
pub open spec fn own_params(it: TraitItemInfo) -> Seq<ParamV> {
    params_v(it.shape.params@)
}

fn then_push(out: &mut Vec<Tok>, x: Vec<Tok>)
    ensures
        tvs(final(out)@) == tvs(old(out)@) + tvs(x@),
{
    let ghost a = out@;
    let ghost b = x@;
    let mut x = x;
    out.append(&mut x);
    proof {
        lemma_tvs_concat(a, b);
    }
}

// ------------------------------------------------------------------
// `#name{body}` and `#fill(names){body}`

/// `#name{body}`: the item `name` implemented with `body`, in braces.
pub open spec fn single_spec(td: TraitDef, name: Seq<char>, body: Seq<TokV>) -> Result<
    Seq<TokV>,
    Seq<char>,
> {
    match lookup_spec(td, name) {
        Err(e) => Err(e),
        Ok(it) => Ok(seq![TokV::Group(Delim::Brace, item_tokens_spec(it, own_params(it), body))]),
    }
}

/// The items `names[i..]`, each implemented with `body`.
pub open spec fn fill_from(td: TraitDef, names: Seq<Seq<char>>, body: Seq<TokV>, i: int) -> Result<
    Seq<TokV>,
    Seq<char>,
>
    decreases names.len() - i,
{
    if i < 0 || i >= names.len() {
        Ok(Seq::empty())
    } else {
        match lookup_spec(td, names[i]) {
            Err(e) => Err(e),
            Ok(it) => seq_then(item_tokens_spec(it, own_params(it), body), fill_from(td, names, body, i + 1)),
        }
    }
}

/// `#fill(names){body}`: every selected item implemented with `body`, in
/// braces.
pub open spec fn fill_spec(td: TraitDef, args: Seq<TokV>, body: Seq<TokV>) -> Result<
    Seq<TokV>,
    Seq<char>,
> {
    match arg_names_spec(args) {
        Err(e) => Err(e),
        Ok(ns) => match fill_from(td, ns, body, 0) {
            Err(e) => Err(e),
            Ok(x) => Ok(seq![TokV::Group(Delim::Brace, x)]),
        },
    }
}

/// `#name{body}` (see [`single_spec`]).
pub fn expand_single(td: &TraitDef, name: &str, body: &[Tok]) -> (r: Result<Vec<Tok>, Diag>)
    ensures
        res_view(r) == single_spec(*td, name@, tvs(body@)),
{
    match lookup(td, name) {
        Err(d) => Err(d),
        Ok(it) => {
            let x = item_tokens(it, it.shape.params.as_slice(), body);
            let v = vec![Tok::Group(Delim::Brace, x)];
            assert(tvs(v@) =~= seq![TokV::Group(Delim::Brace, tvs(x@))]);
            Ok(v)
        },
    }
}

/// `#fill(names){body}` (see [`fill_spec`]).
pub fn expand_fill(td: &TraitDef, args: &[Tok], body: &[Tok]) -> (r: Result<Vec<Tok>, Diag>)
    ensures
        res_view(r) == fill_spec(*td, tvs(args@), tvs(body@)),
{
    assert(tvs(args@).len() == args@.len());
    let names = match parse_names_from_tokens(args, td) {
        Err(d) => {
            assert(arg_names_spec(tvs(args@)) == Err::<Seq<Seq<char>>, Seq<char>>(d@));
            return Err(d);
        },
        Ok(ns) => ns,
    };
    let ghost ns = strs_view(names@);
    let ghost b = tvs(body@);
    let mut out: Vec<Tok> = Vec::new();
    let mut i: usize = 0;
    while i < names.len()
        invariant
            i <= names@.len(),
            ns == strs_view(names@),
            b == tvs(body@),
            arg_names_spec(tvs(args@)) == Ok::<Seq<Seq<char>>, Seq<char>>(ns),
            fill_from(*td, ns, b, 0) == seq_then(tvs(out@), fill_from(*td, ns, b, i as int)),
        decreases names@.len() - i,
    {
        match lookup(td, names[i].as_str()) {
            Err(d) => {
                return Err(d);
            },
            Ok(it) => {
                let x = item_tokens(it, it.shape.params.as_slice(), body);
                let ghost before = tvs(out@);
                proof {
                    lemma_seq_then_assoc(before, tvs(x@), fill_from(*td, ns, b, i + 1));
                }
                then_push(&mut out, x);
            },
        }
        i += 1;
    }
    assert(tvs(out@) + Seq::<TokV>::empty() =~= tvs(out@));
    let v = vec![Tok::Group(Delim::Brace, out)];
    assert(tvs(v@) =~= seq![TokV::Group(Delim::Brace, tvs(out@))]);
    Ok(v)
}

proof fn lemma_one_name(name: Seq<char>, what: Seq<char>)
    ensures
        names_spec(seq![TokV::Ident(name)], what) == Ok::<Seq<Seq<char>>, Seq<char>>(seq![name]),
{
    let s = seq![TokV::Ident(name)];
    let keep = Seq::<Seq<char>>::empty().push(name);
    let none = Seq::<Seq<char>>::empty();
    assert(keep.drop_last() =~= none);
    assert(select(none, none) == none);
    assert(!none.contains(name));
    assert(select(keep, none) =~= seq![name]);
    assert(names_loop(s, what, 1, keep, none, false) == names_finish(what, keep, none, false));
    assert(names_loop(s, what, 0, none, none, true) == names_loop(s, what, 1, keep, none, false));
}

/// `#fill` of a single item is that item's `#name`: `#fill([foo]){body}`
/// (and `#fill(foo){body}`) expand exactly as `#foo{body}`.
pub proof fn law_single_fill_is_name(td: TraitDef, name: Seq<char>, body: Seq<TokV>)
    ensures
        fill_spec(td, seq![TokV::Group(Delim::Bracket, seq![TokV::Ident(name)])], body) == single_spec(
            td,
            name,
            body,
        ),
        fill_spec(td, seq![TokV::Ident(name)], body) == single_spec(td, name, body),
{
    let what = "directive arguments"@;
    let inner = seq![TokV::Ident(name)];
    let outer = seq![TokV::Group(Delim::Bracket, inner)];
    lemma_one_name(name, what);
    let none = Seq::<Seq<char>>::empty();
    let keep = none + seq![name];
    assert(keep =~= seq![name]);
    assert(keep.drop_last() =~= none);
    assert(select(none, none) == none);
    assert(!none.contains(name));
    assert(select(keep, none) =~= seq![name]);
    assert(names_loop(outer, what, 1, keep, none, false) == names_finish(what, keep, none, false));
    assert(names_loop(outer, what, 0, none, none, true) == names_loop(outer, what, 1, keep, none, false));
    assert(arg_names_spec(outer) == Ok::<Seq<Seq<char>>, Seq<char>>(seq![name]));
    assert(arg_names_spec(inner) == Ok::<Seq<Seq<char>>, Seq<char>>(seq![name]));
    let ns = seq![name];
    assert(fill_from(td, ns, body, 1) == Ok::<Seq<TokV>, Seq<char>>(Seq::empty()));
    match lookup_spec(td, name) {
        Ok(it) => {
            let x = item_tokens_spec(it, own_params(it), body);
            assert(x + Seq::<TokV>::empty() =~= x);
        },
        Err(_) => {},
    }
}

// ------------------------------------------------------------------
// `#delegate(names){target}`

/// The target method of `name`: its rename, or `name` itself.
pub open spec fn rename_of(rn: Seq<(Seq<char>, Seq<char>)>, name: Seq<char>, k: int) -> Seq<char>
    decreases rn.len() - k,
{
    if k < 0 || k >= rn.len() {
        name
    } else if rn[k].0 == name {
        rn[k].1
    } else {
        rename_of(rn, name, k + 1)
    }
}

/// `(target) . call ( args, ... )`.
pub open spec fn delegate_body(target: Seq<TokV>, call: Seq<char>, args: Seq<Seq<TokV>>) -> Seq<TokV> {
    seq![
        TokV::Group(Delim::Paren, target),
        TokV::Punct('.', Spacing::Alone),
        TokV::Ident(call),
        TokV::Group(Delim::Paren, comma_join(args)),
    ]
}

pub open spec fn not_method_msg(ident: Seq<char>, name: Seq<char>) -> Seq<char> {
    "batch-impl: #delegate only works on methods; `"@ + ident + "` in trait `"@ + name
        + "` is not a method"@
}

pub open spec fn delegate_param_msg(ident: Seq<char>, name: Seq<char>, text: Seq<char>) -> Seq<char> {
    "batch-impl: #delegate method `"@ + ident + "::"@ + name + "` param `"@ + text
        + "` cannot be forwarded (unsupported parameter pattern); please rename it to a plain identifier"@
}

/// One forwarding method: the parameters that cannot be passed by name
/// renamed to `argN`, the body calling the target's method (or its
/// rename) with the parameters.
pub open spec fn delegate_item_spec(
    td: TraitDef,
    rn: Seq<(Seq<char>, Seq<char>)>,
    target: Seq<TokV>,
    name: Seq<char>,
) -> Result<Seq<TokV>, Seq<char>> {
    match lookup_spec(td, name) {
        Err(e) => Err(e),
        Ok(it) => if it.kind != ItemKind::Fn {
            Err(not_method_msg(td.ident@, name))
        } else {
            let ps = renamed_params(own_params(it), 0, 0);
            match call_args_from(ps, 0) {
                Err(t) => Err(delegate_param_msg(td.ident@, name, t)),
                Ok(args) => Ok(item_tokens_spec(it, ps, delegate_body(target, rename_of(rn, name, 0), args))),
            }
        },
    }
}

pub open spec fn delegate_from(
    td: TraitDef,
    rn: Seq<(Seq<char>, Seq<char>)>,
    target: Seq<TokV>,
    names: Seq<Seq<char>>,
    i: int,
) -> Result<Seq<TokV>, Seq<char>>
    decreases names.len() - i,
{
    if i < 0 || i >= names.len() {
        Ok(Seq::empty())
    } else {
        match delegate_item_spec(td, rn, target, names[i]) {
            Err(e) => Err(e),
            Ok(x) => seq_then(x, delegate_from(td, rn, target, names, i + 1)),
        }
    }
}

/// `#delegate(names){target}`: every selected method forwarding to
/// `target`, in braces.
pub open spec fn delegate_spec(td: TraitDef, args: Seq<TokV>, target: Seq<TokV>) -> Result<
    Seq<TokV>,
    Seq<char>,
> {
    match delegate_args_spec(args) {
        Err(e) => Err(e),
        Ok((mt, rn)) => match arg_names_spec(mt) {
            Err(e) => Err(e),
            Ok(ns) => match delegate_from(td, rn, target, ns, 0) {
                Err(e) => Err(e),
                Ok(x) => Ok(seq![TokV::Group(Delim::Brace, x)]),
            },
        },
    }
}

fn rename_lookup(rn: &Vec<(String, String)>, name: &String) -> (r: String)
    ensures
        r@ == rename_of(pairs_view(rn@), name@, 0),
{
    let ghost pv = pairs_view(rn@);
    let mut k: usize = 0;
    while k < rn.len()
        invariant
            k <= rn@.len(),
            pv == pairs_view(rn@),
            rename_of(pv, name@, 0) == rename_of(pv, name@, k as int),
        decreases rn@.len() - k,
    {
        if rn[k].0 == *name {
            return rn[k].1.clone();
        }
        k += 1;
    }
    name.clone()
}

fn delegate_body_exec(target: &[Tok], call: String, args: &Vec<Vec<Tok>>) -> (r: Vec<Tok>)
    ensures
        tvs(r@) == delegate_body(tvs(target@), call@, parts_view(args@)),
{
    let joined = join_parts(args.as_slice());
    let v = vec![
        Tok::Group(Delim::Paren, copy_toks(target)),
        Tok::Punct('.', Spacing::Alone),
        Tok::Ident(call),
        Tok::Group(Delim::Paren, joined),
    ];
    assert(tvs(v@) =~= delegate_body(tvs(target@), call@, parts_view(args@)));
    v
}

fn delegate_item(td: &TraitDef, rn: &Vec<(String, String)>, target: &[Tok], name: &String) -> (r: Result<
    Vec<Tok>,
    Diag,
>)
    ensures
        res_view(r) == delegate_item_spec(*td, pairs_view(rn@), tvs(target@), name@),
{
    let it = match lookup(td, name.as_str()) {
        Err(d) => {
            return Err(d);
        },
        Ok(it) => it,
    };
    if it.kind != ItemKind::Fn {
        return Err(
            Diag {
                message: cat5(
                    "batch-impl: #delegate only works on methods; `",
                    td.ident.as_str(),
                    "` in trait `",
                    name.as_str(),
                    "` is not a method",
                ),
            },
        );
    }
    let ps = rename_params(it.shape.params.as_slice());
    let args = match call_args(ps.as_slice()) {
        Err(t) => {
            let m1 = cat5("batch-impl: #delegate method `", td.ident.as_str(), "::", name.as_str(), "` param `");
            return Err(
                Diag {
                    message: cat3(
                        m1.as_str(),
                        t.as_str(),
                        "` cannot be forwarded (unsupported parameter pattern); please rename it to a plain identifier",
                    ),
                },
            );
        },
        Ok(a) => a,
    };
    let call = rename_lookup(rn, name);
    let body = delegate_body_exec(target, call, &args);
    Ok(item_tokens(it, ps.as_slice(), body.as_slice()))
}

/// `#delegate(names){target}` (see [`delegate_spec`]).
pub fn expand_delegate(td: &TraitDef, args: &[Tok], target: &[Tok]) -> (r: Result<Vec<Tok>, Diag>)
    ensures
        res_view(r) == delegate_spec(*td, tvs(args@), tvs(target@)),
{
    let (mt, rn) = match delegate_args(args) {
        Err(d) => {
            return Err(d);
        },
        Ok(x) => x,
    };
    assert(tvs(mt@).len() == mt@.len());
    let names = match parse_names_from_tokens(mt.as_slice(), td) {
        Err(d) => {
            assert(arg_names_spec(tvs(mt@)) == Err::<Seq<Seq<char>>, Seq<char>>(d@));
            return Err(d);
        },
        Ok(ns) => ns,
    };
    let ghost ns = strs_view(names@);
    let ghost rv = pairs_view(rn@);
    let ghost tg = tvs(target@);
    let mut out: Vec<Tok> = Vec::new();
    let mut i: usize = 0;
    while i < names.len()
        invariant
            i <= names@.len(),
            ns == strs_view(names@),
            rv == pairs_view(rn@),
            tg == tvs(target@),
            arg_names_spec(tvs(mt@)) == Ok::<Seq<Seq<char>>, Seq<char>>(ns),
            delegate_args_spec(tvs(args@)) == Ok::<
                (Seq<TokV>, Seq<(Seq<char>, Seq<char>)>),
                Seq<char>,
            >((tvs(mt@), rv)),
            delegate_from(*td, rv, tg, ns, 0) == seq_then(
                tvs(out@),
                delegate_from(*td, rv, tg, ns, i as int),
            ),
        decreases names@.len() - i,
    {
        match delegate_item(td, &rn, target, &names[i]) {
            Err(d) => {
                return Err(d);
            },
            Ok(x) => {
                let ghost before = tvs(out@);
                proof {
                    lemma_seq_then_assoc(before, tvs(x@), delegate_from(*td, rv, tg, ns, i + 1));
                }
                then_push(&mut out, x);
            },
        }
        i += 1;
    }
    assert(tvs(out@) + Seq::<TokV>::empty() =~= tvs(out@));
    let v = vec![Tok::Group(Delim::Brace, out)];
    assert(tvs(v@) =~= seq![TokV::Group(Delim::Brace, tvs(out@))]);
    Ok(v)
}

// ------------------------------------------------------------------
// `#blanket(names){wrappers}`

pub open spec fn exhausted_msg() -> Seq<char> {
    "batch-impl: fresh generic parameter numbers exhausted"@
}

/// What `#blanket` reads before it takes a fresh parameter: the wrapper
/// list (after pairing `<...>` in the body) and the selected names.
pub open spec fn blanket_prefix(args: Seq<TokV>, body: Seq<TokV>) -> Result<
    (Seq<WrapperV>, Seq<Seq<char>>),
    Seq<char>,
> {
    match collect_spec(body, 0) {
        Err(e) => Err(e),
        Ok(b) => match wrappers_from(b, 0) {
            Err(e) => Err(e),
            Ok(ws) => match arg_names_spec(args) {
                Err(e) => Err(e),
                Ok(ns) => Ok((ws, ns)),
            },
        },
    }
}

/// `#blanket` takes one fresh parameter number exactly when its prefix
/// reads and a number is left.
pub open spec fn blanket_uses_fresh(args: Seq<TokV>, body: Seq<TokV>, n: nat) -> bool {
    blanket_prefix(args, body) is Ok && n < usize::MAX
}

/// The trait's parameters as arguments.
pub open spec fn generic_names_v(td: TraitDef) -> Seq<Seq<TokV>> {
    Seq::new(td.generics@.len(), |i: int| tvs(td.generics@[i].name@))
}

/// The trait's parameters as declared.
pub open spec fn generic_decls_v(td: TraitDef) -> Seq<Seq<TokV>> {
    Seq::new(td.generics@.len(), |i: int| tvs(td.generics@[i].decl@))
}

/// `#blanket` projects associated items through the same trait it bounds
/// the fresh parameter by: for a trait with parameters, the `as` clause of
/// `<T as Path<P1, ..., Pn>>::name` is the bound `Path<P1, ..., Pn>` (its
/// argument group written with flat angle brackets), never the bare path.
pub proof fn law_projection_names_the_bound(t: TokV, path: Seq<TokV>, pn: Seq<Seq<TokV>>)
    requires
        pn.len() > 0,
    ensures
        ({
            let b = trait_with_args_spec(path, pn);
            &&& b.len() == path.len() + 1
            &&& b.subrange(0, path.len() as int) == path
            &&& b.last() == TokV::Group(Delim::Invisible, comma_join(pn))
            &&& as_trait_spec(t, path, pn) == seq![t, TokV::Ident("as"@)] + b.subrange(
                0,
                path.len() as int,
            ) + seq![TokV::Punct('<', Spacing::Alone)] + comma_join(pn) + seq![
                TokV::Punct('>', Spacing::Alone),
            ]
            &&& as_trait_spec(t, path, pn).len() == path.len() + comma_join(pn).len() + 4
        }),
{
    let b = trait_with_args_spec(path, pn);
    assert(b.subrange(0, path.len() as int) =~= path);
}

/// `T as Path` or `T as Path<X, ...>` (flat angle brackets: the result
/// stands in a body).
pub open spec fn as_trait_spec(t: TokV, path: Seq<TokV>, pn: Seq<Seq<TokV>>) -> Seq<TokV> {
    seq![t, TokV::Ident("as"@)] + path + (if pn.len() == 0 {
        Seq::empty()
    } else {
        seq![TokV::Punct('<', Spacing::Alone)] + comma_join(pn) + seq![TokV::Punct('>', Spacing::Alone)]
    })
}

/// The selected names of by-value methods, from `i` on.
pub open spec fn by_value_from(td: TraitDef, ns: Seq<Seq<char>>, i: int) -> Seq<Seq<char>>
    decreases ns.len() - i,
{
    if i < 0 || i >= ns.len() {
        Seq::empty()
    } else {
        (if lookup_spec(td, ns[i]) matches Ok(it) && by_value_spec(it) {
            seq![ns[i]]
        } else {
            Seq::empty()
        }) + by_value_from(td, ns, i + 1)
    }
}

/// `#[doc = "note"]` for by-value methods, nothing without them.
pub open spec fn note_attr_spec(bv: Seq<Seq<char>>) -> Seq<TokV> {
    if bv.len() == 0 {
        Seq::empty()
    } else {
        seq![
            TokV::Punct('#', Spacing::Alone),
            TokV::Group(
                Delim::Bracket,
                seq![
                    TokV::Ident("doc"@),
                    TokV::Punct('=', Spacing::Alone),
                    TokV::Literal("\""@ + by_value_note_spec(bv) + "\""@),
                ],
            ),
        ]
    }
}

/// `<T as Trait>::name`, with a generic associated type's own arguments.
pub open spec fn projection_spec(at: Seq<TokV>, name: Seq<char>, gat: Seq<Seq<TokV>>) -> Seq<TokV> {
    seq![TokV::Punct('<', Spacing::Alone)] + at + seq![
        TokV::Punct('>', Spacing::Alone),
        TokV::Punct(':', Spacing::Joint),
        TokV::Punct(':', Spacing::Alone),
        TokV::Ident(name),
    ] + (if gat.len() == 0 {
        Seq::empty()
    } else {
        seq![TokV::Punct('<', Spacing::Alone)] + comma_join(gat) + seq![TokV::Punct('>', Spacing::Alone)]
    })
}

pub open spec fn stars(k: nat) -> Seq<TokV> {
    Seq::new(k, |i: int| TokV::Punct('*', Spacing::Alone))
}

/// A forwarded method's body: `T::name(args)` for an associated function,
/// `(*..*self).name(args)` with [`forward_spec`] stars otherwise.
pub open spec fn forward_body_spec(
    t: TokV,
    recv: Option<crate::trait_items::Receiver>,
    depth: nat,
    name: Seq<char>,
    args: Seq<Seq<TokV>>,
) -> Seq<TokV> {
    match forward_spec(recv, depth) {
        None => seq![
            t,
            TokV::Punct(':', Spacing::Joint),
            TokV::Punct(':', Spacing::Alone),
            TokV::Ident(name),
            TokV::Group(Delim::Paren, comma_join(args)),
        ],
        Some(k) => seq![
            TokV::Group(Delim::Paren, stars(k) + seq![TokV::Ident("self"@)]),
            TokV::Punct('.', Spacing::Alone),
            TokV::Ident(name),
            TokV::Group(Delim::Paren, comma_join(args)),
        ],
    }
}

pub open spec fn self_msg(ident: Seq<char>, name: Seq<char>) -> Seq<char> {
    "batch-impl: #blanket method `"@ + ident + "::"@ + name
        + "` takes/returns `Self` (bare or `Self::Assoc` projection); blanket delegation forwards the inner type, which cannot match the wrapper's `Self` — write a `#name{...}` body for this wrapper instead"@
}

pub open spec fn blanket_param_msg(ident: Seq<char>, name: Seq<char>, text: Seq<char>) -> Seq<char> {
    "batch-impl: #blanket method `"@ + ident + "::"@ + name + "` param `"@ + text
        + "` cannot be forwarded: only `self` and plain identifier patterns are supported"@
}

pub open spec fn unknown_form_msg(ident: Seq<char>, name: Seq<char>) -> Seq<char> {
    "batch-impl: #blanket does not support `"@ + ident + "` in trait `"@ + name
        + "` (unknown item form)"@
}

/// One delegated item: a method forwards (refused when it takes or
/// returns `Self`, or has a `_` parameter); a constant or type projects.
pub open spec fn blanket_item_spec(td: TraitDef, name: Seq<char>, depth: nat, t: TokV, at: Seq<TokV>) -> Result<
    Seq<TokV>,
    Seq<char>,
> {
    match lookup_spec(td, name) {
        Err(e) => Err(e),
        Ok(it) => match it.kind {
            ItemKind::Fn => if sig_names_self_spec(it) {
                Err(self_msg(td.ident@, name))
            } else {
                match call_args_from(own_params(it), 0) {
                    Err(txt) => Err(blanket_param_msg(td.ident@, name, txt)),
                    Ok(args) => Ok(item_tokens_spec(
                        it,
                        own_params(it),
                        forward_body_spec(t, it.receiver, depth, name, args),
                    )),
                }
            },
            ItemKind::Const | ItemKind::Type => Ok(item_tokens_spec(
                it,
                own_params(it),
                projection_spec(at, name, parts_view(it.shape.gat_args@)),
            )),
            ItemKind::Other => Err(unknown_form_msg(td.ident@, name)),
        },
    }
}

pub open spec fn blanket_items_from(
    td: TraitDef,
    ns: Seq<Seq<char>>,
    depth: nat,
    t: TokV,
    at: Seq<TokV>,
    i: int,
) -> Result<Seq<TokV>, Seq<char>>
    decreases ns.len() - i,
{
    if i < 0 || i >= ns.len() {
        Ok(Seq::empty())
    } else {
        match blanket_item_spec(td, ns[i], depth, t, at) {
            Err(e) => Err(e),
            Ok(x) => seq_then(x, blanket_items_from(td, ns, depth, t, at, i + 1)),
        }
    }
}

/// The spec of one wrapper (see [`blanket_spec_spec`]).
pub open spec fn blanket_one_spec(
    td: TraitDef,
    ns: Seq<Seq<char>>,
    w: WrapperV,
    t: TokV,
    path: Seq<TokV>,
    at: Seq<TokV>,
    doc: Seq<TokV>,
) -> Result<Seq<TokV>, Seq<char>> {
    let pn = generic_names_v(td);
    let bound = trait_with_args_spec(path, pn);
    let tp = if pn.len() == 0 {
        Seq::empty()
    } else {
        bound
    };
    let preds = match w.where_preds {
        Some(p) => target_preds_spec(p, path),
        None => Ok(Seq::empty()),
    };
    match preds {
        Err(e) => Err(e),
        Ok(pr) => match blanket_items_from(td, ns, w.depth, t, at, 0) {
            Err(e) => Err(e),
            Ok(m) => Ok(blanket_spec_spec(
                doc,
                generic_decls_v(td),
                t,
                bound,
                tp,
                w.ty,
                opt_v(td.where_preds),
                pr,
                m,
            )),
        },
    }
}

pub open spec fn blanket_specs_from(
    td: TraitDef,
    ns: Seq<Seq<char>>,
    ws: Seq<WrapperV>,
    t: TokV,
    path: Seq<TokV>,
    at: Seq<TokV>,
    doc: Seq<TokV>,
    i: int,
) -> Result<Seq<Seq<TokV>>, Seq<char>>
    decreases ws.len() - i,
{
    if i < 0 || i >= ws.len() {
        Ok(Seq::empty())
    } else {
        match blanket_one_spec(td, ns, ws[i], t, path, at, doc) {
            Err(e) => Err(e),
            Ok(x) => match blanket_specs_from(td, ns, ws, t, path, at, doc, i + 1) {
                Err(e) => Err(e),
                Ok(rest) => Ok(seq![x] + rest),
            },
        }
    }
}

/// `#blanket(names){wrappers}` with fresh number `n`: the specs of the
/// wrappers, comma-separated.
pub open spec fn blanket_exp_spec(td: TraitDef, args: Seq<TokV>, body: Seq<TokV>, path: Seq<TokV>, n: nat) -> Result<
    Seq<TokV>,
    Seq<char>,
> {
    match blanket_prefix(args, body) {
        Err(e) => Err(e),
        Ok((ws, ns)) => if n >= usize::MAX {
            Err(exhausted_msg())
        } else {
            let t = TokV::Ident(fresh_name(n));
            let at = as_trait_spec(t, path, generic_names_v(td));
            let doc = note_attr_spec(by_value_from(td, ns, 0));
            match blanket_specs_from(td, ns, ws, t, path, at, doc, 0) {
                Err(e) => Err(e),
                Ok(specs) => Ok(comma_join(specs)),
            }
        },
    }
}

/// The projection `#blanket` writes for an associated constant or type
/// `name` of the trait, with the fresh parameter `t`: `<t as Path>::name`
/// for a trait without parameters, `<t as Path<P1, ..., Pn>>::name` with
/// the trait's parameter names in order otherwise (and a generic
/// associated type's own arguments after it).
pub open spec fn expected_projection(
    td: TraitDef,
    t: TokV,
    path: Seq<TokV>,
    name: Seq<char>,
    gat: Seq<Seq<TokV>>,
) -> Seq<TokV> {
    let names = Seq::new(td.generics@.len(), |i: int| tvs(td.generics@[i].name@));
    seq![TokV::Punct('<', Spacing::Alone), t, TokV::Ident("as"@)] + path + (if names.len() == 0 {
        Seq::empty()
    } else {
        seq![TokV::Punct('<', Spacing::Alone)] + comma_join(names) + seq![
            TokV::Punct('>', Spacing::Alone),
        ]
    }) + seq![
        TokV::Punct('>', Spacing::Alone),
        TokV::Punct(':', Spacing::Joint),
        TokV::Punct(':', Spacing::Alone),
        TokV::Ident(name),
    ] + (if gat.len() == 0 {
        Seq::empty()
    } else {
        seq![TokV::Punct('<', Spacing::Alone)] + comma_join(gat) + seq![
            TokV::Punct('>', Spacing::Alone),
        ]
    })
}

/// `#blanket` of one associated constant or type through one wrapper: the
/// spec's item block holds `head = <T as Path<P1, ..., Pn>>::name tail`, the
/// projection naming the trait with all its parameters.
pub proof fn law_blanket_projects_through_the_trait(
    td: TraitDef,
    args: Seq<TokV>,
    body: Seq<TokV>,
    path: Seq<TokV>,
    n: nat,
)
    requires
        blanket_exp_spec(td, args, body, path, n) is Ok,
        blanket_prefix(args, body) is Ok,
        blanket_prefix(args, body)->Ok_0.0.len() == 1,
        blanket_prefix(args, body)->Ok_0.1.len() == 1,
        lookup_spec(td, blanket_prefix(args, body)->Ok_0.1[0]) is Ok,
        lookup_spec(td, blanket_prefix(args, body)->Ok_0.1[0])->Ok_0.kind == ItemKind::Const
            || lookup_spec(td, blanket_prefix(args, body)->Ok_0.1[0])->Ok_0.kind == ItemKind::Type,
    ensures
        ({
            let out = blanket_exp_spec(td, args, body, path, n)->Ok_0;
            let name = blanket_prefix(args, body)->Ok_0.1[0];
            let it = lookup_spec(td, name)->Ok_0;
            &&& out.len() > 0
            &&& out.last() == TokV::Group(
                Delim::Brace,
                tvs(it.shape.head@) + seq![TokV::Punct('=', Spacing::Alone)] + expected_projection(
                    td,
                    TokV::Ident(fresh_name(n)),
                    path,
                    name,
                    parts_view(it.shape.gat_args@),
                ) + tvs(it.shape.tail@),
            )
        }),
{
    let (ws, ns) = blanket_prefix(args, body)->Ok_0;
    let name = ns[0];
    let it = lookup_spec(td, name)->Ok_0;
    let t = TokV::Ident(fresh_name(n));
    let pn = generic_names_v(td);
    let at = as_trait_spec(t, path, pn);
    let doc = note_attr_spec(by_value_from(td, ns, 0));
    let gat = parts_view(it.shape.gat_args@);
    let item = item_tokens_spec(it, own_params(it), projection_spec(at, name, gat));
    assert(blanket_item_spec(td, name, ws[0].depth, t, at) == Ok::<Seq<TokV>, Seq<char>>(item));
    assert(blanket_items_from(td, ns, ws[0].depth, t, at, 1) == Ok::<Seq<TokV>, Seq<char>>(
        Seq::empty(),
    ));
    assert(item + Seq::<TokV>::empty() =~= item);
    assert(blanket_items_from(td, ns, ws[0].depth, t, at, 0) == Ok::<Seq<TokV>, Seq<char>>(item));
    let one = blanket_one_spec(td, ns, ws[0], t, path, at, doc);
    assert(one is Ok);
    assert(blanket_specs_from(td, ns, ws, t, path, at, doc, 1) == Ok::<Seq<Seq<TokV>>, Seq<char>>(
        Seq::empty(),
    ));
    let specs = seq![one->Ok_0];
    assert(blanket_specs_from(td, ns, ws, t, path, at, doc, 0) == Ok::<Seq<Seq<TokV>>, Seq<char>>(
        specs,
    ));
    assert(comma_join(specs) == one->Ok_0);
    assert(pn =~= Seq::new(td.generics@.len(), |i: int| tvs(td.generics@[i].name@)));
    assert(item =~= tvs(it.shape.head@) + seq![TokV::Punct('=', Spacing::Alone)] + expected_projection(
        td,
        t,
        path,
        name,
        gat,
    ) + tvs(it.shape.tail@));
}

fn projection_exec(at: &[Tok], name: &String, gat: &Vec<Vec<Tok>>) -> (r: Vec<Tok>)
    ensures
        tvs(r@) == projection_spec(tvs(at@), name@, parts_view(gat@)),
{
    let mut out: Vec<Tok> = vec![Tok::Punct('<', Spacing::Alone)];
    assert(tvs(out@) =~= seq![TokV::Punct('<', Spacing::Alone)]);
    then_push(&mut out, copy_toks(at));
    let tail = vec![
        Tok::Punct('>', Spacing::Alone),
        Tok::Punct(':', Spacing::Joint),
        Tok::Punct(':', Spacing::Alone),
        Tok::Ident(name.clone()),
    ];
    assert(tvs(tail@) =~= seq![
        TokV::Punct('>', Spacing::Alone),
        TokV::Punct(':', Spacing::Joint),
        TokV::Punct(':', Spacing::Alone),
        TokV::Ident(name@),
    ]);
    then_push(&mut out, tail);
    let ghost pre = tvs(out@);
    if gat.len() > 0 {
        then_push(&mut out, vec![Tok::Punct('<', Spacing::Alone)]);
        then_push(&mut out, join_parts(gat.as_slice()));
        then_push(&mut out, vec![Tok::Punct('>', Spacing::Alone)]);
    }
    assert(tvs(out@) =~= projection_spec(tvs(at@), name@, parts_view(gat@)));
    out
}

fn forward_body_exec(
    t: &Tok,
    recv: Option<crate::trait_items::Receiver>,
    depth: usize,
    name: &String,
    args: &Vec<Vec<Tok>>,
) -> (r: Vec<Tok>)
    requires
        depth < usize::MAX,
    ensures
        tvs(r@) == forward_body_spec(t@, recv, depth as nat, name@, parts_view(args@)),
{
    let joined = join_parts(args.as_slice());
    match forward_derefs(recv, depth) {
        None => {
            let v = vec![
                copy_tok(t),
                Tok::Punct(':', Spacing::Joint),
                Tok::Punct(':', Spacing::Alone),
                Tok::Ident(name.clone()),
                Tok::Group(Delim::Paren, joined),
            ];
            assert(tvs(v@) =~= forward_body_spec(t@, recv, depth as nat, name@, parts_view(args@)));
            v
        },
        Some(k) => {
            let mut inner: Vec<Tok> = Vec::new();
            let mut j: usize = 0;
            while j < k
                invariant
                    j <= k,
                    tvs(inner@) =~= stars(j as nat),
                decreases k - j,
            {
                let ghost before = inner@;
                inner.push(Tok::Punct('*', Spacing::Alone));
                proof {
                    lemma_tvs_push(before, Tok::Punct('*', Spacing::Alone));
                }
                j += 1;
            }
            let ghost st = inner@;
            let me = Tok::Ident(String::from_str("self"));
            inner.push(me);
            proof {
                lemma_tvs_push(st, me);
            }
            let v = vec![
                Tok::Group(Delim::Paren, inner),
                Tok::Punct('.', Spacing::Alone),
                Tok::Ident(name.clone()),
                Tok::Group(Delim::Paren, joined),
            ];
            assert(tvs(v@) =~= forward_body_spec(t@, recv, depth as nat, name@, parts_view(args@)));
            v
        },
    }
}

fn blanket_item(td: &TraitDef, name: &String, depth: usize, t: &Tok, at: &[Tok]) -> (r: Result<
    Vec<Tok>,
    Diag,
>)
    requires
        depth < usize::MAX,
    ensures
        res_view(r) == blanket_item_spec(*td, name@, depth as nat, t@, tvs(at@)),
{
    let it = match lookup(td, name.as_str()) {
        Err(d) => {
            return Err(d);
        },
        Ok(it) => it,
    };
    match it.kind {
        ItemKind::Fn => {
            if sig_names_self(it) {
                let m = cat5("batch-impl: #blanket method `", td.ident.as_str(), "::", name.as_str(), "` takes/returns `Self` (bare or `Self::Assoc` projection); blanket delegation forwards the inner type, which cannot match the wrapper's `Self` — write a `#name{...}` body for this wrapper instead");
                return Err(Diag { message: m });
            }
            let args = match call_args(it.shape.params.as_slice()) {
                Err(txt) => {
                    let m1 = cat5("batch-impl: #blanket method `", td.ident.as_str(), "::", name.as_str(), "` param `");
                    return Err(
                        Diag {
                            message: cat3(
                                m1.as_str(),
                                txt.as_str(),
                                "` cannot be forwarded: only `self` and plain identifier patterns are supported",
                            ),
                        },
                    );
                },
                Ok(a) => a,
            };
            let body = forward_body_exec(t, it.receiver, depth, name, &args);
            Ok(item_tokens(it, it.shape.params.as_slice(), body.as_slice()))
        },
        ItemKind::Const | ItemKind::Type => {
            let body = projection_exec(at, name, &it.shape.gat_args);
            Ok(item_tokens(it, it.shape.params.as_slice(), body.as_slice()))
        },
        ItemKind::Other => Err(
            Diag {
                message: cat5(
                    "batch-impl: #blanket does not support `",
                    td.ident.as_str(),
                    "` in trait `",
                    name.as_str(),
                    "` (unknown item form)",
                ),
            },
        ),
    }
}

fn copy_parts_of<'a>(td: &TraitDef, decls: bool) -> (r: Vec<Vec<Tok>>)
    ensures
        parts_view(r@) == (if decls {
            generic_decls_v(*td)
        } else {
            generic_names_v(*td)
        }),
{
    let mut out: Vec<Vec<Tok>> = Vec::new();
    let mut i: usize = 0;
    while i < td.generics.len()
        invariant
            i <= td.generics@.len(),
            parts_view(out@) =~= (if decls {
                generic_decls_v(*td)
            } else {
                generic_names_v(*td)
            }).subrange(0, i as int),
        decreases td.generics@.len() - i,
    {
        let g = &td.generics[i];
        let c = if decls {
            copy_toks(g.decl.as_slice())
        } else {
            copy_toks(g.name.as_slice())
        };
        let ghost before = out@;
        out.push(c);
        assert(parts_view(out@) =~= parts_view(before).push(tvs(c@)));
        i += 1;
    }
    out
}

fn as_trait_exec(t: &Tok, path: &[Tok], pn: &Vec<Vec<Tok>>) -> (r: Vec<Tok>)
    ensures
        tvs(r@) == as_trait_spec(t@, tvs(path@), parts_view(pn@)),
{
    let mut out = vec![copy_tok(t), Tok::Ident(String::from_str("as"))];
    assert(tvs(out@) =~= seq![t@, TokV::Ident("as"@)]);
    then_push(&mut out, copy_toks(path));
    if pn.len() > 0 {
        then_push(&mut out, vec![Tok::Punct('<', Spacing::Alone)]);
        then_push(&mut out, join_parts(pn.as_slice()));
        then_push(&mut out, vec![Tok::Punct('>', Spacing::Alone)]);
    }
    assert(tvs(out@) =~= as_trait_spec(t@, tvs(path@), parts_view(pn@)));
    out
}

fn by_value_names(td: &TraitDef, names: &Vec<String>) -> (r: Vec<String>)
    ensures
        strs_view(r@) == by_value_from(*td, strs_view(names@), 0),
{
    let ghost ns = strs_view(names@);
    let mut out: Vec<String> = Vec::new();
    let mut i: usize = 0;
    while i < names.len()
        invariant
            i <= names@.len(),
            ns == strs_view(names@),
            by_value_from(*td, ns, 0) == strs_view(out@) + by_value_from(*td, ns, i as int),
        decreases names@.len() - i,
    {
        let ghost before = strs_view(out@);
        let keep = match lookup(td, names[i].as_str()) {
            Ok(it) => is_by_value(it),
            Err(_) => false,
        };
        if keep {
            out.push(names[i].clone());
            assert(strs_view(out@) =~= before + seq![ns[i as int]]);
            assert(before + (seq![ns[i as int]] + by_value_from(*td, ns, i + 1)) =~= strs_view(out@)
                + by_value_from(*td, ns, i + 1));
        } else {
            assert(strs_view(out@) =~= before);
            assert(by_value_from(*td, ns, i as int) =~= Seq::<Seq<char>>::empty() + by_value_from(
                *td,
                ns,
                i + 1,
            ));
        }
        i += 1;
    }
    assert(strs_view(out@) + Seq::<Seq<char>>::empty() =~= strs_view(out@));
    out
}

fn note_attr(bv: &Vec<String>) -> (r: Vec<Tok>)
    ensures
        tvs(r@) == note_attr_spec(strs_view(bv@)),
{
    if bv.len() == 0 {
        return Vec::new();
    }
    let note = by_value_note(bv.as_slice());
    let lit = cat3("\"", note.as_str(), "\"");
    let inner = vec![
        Tok::Ident(String::from_str("doc")),
        Tok::Punct('=', Spacing::Alone),
        Tok::Literal(lit),
    ];
    let v = vec![Tok::Punct('#', Spacing::Alone), Tok::Group(Delim::Bracket, inner)];
    assert(tvs(inner@) =~= seq![
        TokV::Ident("doc"@),
        TokV::Punct('=', Spacing::Alone),
        TokV::Literal("\""@ + by_value_note_spec(strs_view(bv@)) + "\""@),
    ]);
    assert(tvs(v@) =~= note_attr_spec(strs_view(bv@)));
    v
}

fn blanket_one(
    td: &TraitDef,
    names: &Vec<String>,
    w: &BlanketWrapper,
    t: &Tok,
    path: &[Tok],
    at: &[Tok],
    doc: &[Tok],
    decls: &Vec<Vec<Tok>>,
    t_bound: &Vec<Tok>,
    trait_part: &Vec<Tok>,
    tw: Option<&[Tok]>,
) -> (r: Result<Vec<Tok>, Diag>)
    requires
        1 <= w.depth <= 128,
        parts_view(decls@) == generic_decls_v(*td),
        tvs(t_bound@) == trait_with_args_spec(tvs(path@), generic_names_v(*td)),
        tvs(trait_part@) == (if generic_names_v(*td).len() == 0 {
            Seq::<TokV>::empty()
        } else {
            trait_with_args_spec(tvs(path@), generic_names_v(*td))
        }),
        match tw {
            Some(x) => Some(tvs(x@)),
            None => None,
        } == opt_v(td.where_preds),
    ensures
        res_view(r) == blanket_one_spec(
            *td,
            strs_view(names@),
            wrapper_view(*w),
            t@,
            tvs(path@),
            tvs(at@),
            tvs(doc@),
        ),
{
    let ghost ns = strs_view(names@);
    let ghost wv = wrapper_view(*w);
    let ghost atv = tvs(at@);
    let preds: Vec<Tok> = match &w.where_preds {
        Some(p) => match resolve_target_predicates(p.as_slice(), path) {
            Err(d) => {
                return Err(d);
            },
            Ok(x) => x,
        },
        None => {
            let v: Vec<Tok> = Vec::new();
            assert(tvs(v@) =~= Seq::<TokV>::empty());
            v
        },
    };
    assert(match wv.where_preds {
        Some(p) => target_preds_spec(p, tvs(path@)),
        None => Ok(Seq::<TokV>::empty()),
    } == Ok::<Seq<TokV>, Seq<char>>(tvs(preds@)));
    let ghost dv = w.depth as nat;
    let ghost whole = blanket_one_spec(*td, ns, wv, t@, tvs(path@), atv, tvs(doc@));
    let ghost tail_fn = |m: Seq<TokV>|
        blanket_spec_spec(
            tvs(doc@),
            generic_decls_v(*td),
            t@,
            trait_with_args_spec(tvs(path@), generic_names_v(*td)),
            tvs(trait_part@),
            wv.ty,
            opt_v(td.where_preds),
            tvs(preds@),
            m,
        );
    assert(whole == match blanket_items_from(*td, ns, dv, t@, atv, 0) {
        Err(e) => Err(e),
        Ok(m) => Ok::<Seq<TokV>, Seq<char>>(tail_fn(m)),
    });
    let mut methods: Vec<Tok> = Vec::new();
    let mut i: usize = 0;
    while i < names.len()
        invariant
            i <= names@.len(),
            ns == strs_view(names@),
            w.depth <= 128,
            dv == w.depth as nat,
            atv == tvs(at@),
            whole == blanket_one_spec(
                *td,
                strs_view(names@),
                wrapper_view(*w),
                t@,
                tvs(path@),
                tvs(at@),
                tvs(doc@),
            ),
            whole == match blanket_items_from(*td, ns, dv, t@, atv, 0) {
                Err(e) => Err(e),
                Ok(m) => Ok::<Seq<TokV>, Seq<char>>(tail_fn(m)),
            },
            blanket_items_from(*td, ns, dv, t@, atv, 0) == seq_then(
                tvs(methods@),
                blanket_items_from(*td, ns, dv, t@, atv, i as int),
            ),
        decreases names@.len() - i,
    {
        match blanket_item(td, &names[i], w.depth, t, at) {
            Err(d) => {
                return Err(d);
            },
            Ok(x) => {
                let ghost before = tvs(methods@);
                proof {
                    lemma_seq_then_assoc(before, tvs(x@), blanket_items_from(*td, ns, dv, t@, atv, i + 1));
                }
                then_push(&mut methods, x);
            },
        }
        i += 1;
    }
    assert(tvs(methods@) + Seq::<TokV>::empty() =~= tvs(methods@));
    let ghost mv = tvs(methods@);
    let x = blanket_spec(
        doc,
        decls.as_slice(),
        t,
        t_bound.as_slice(),
        trait_part.as_slice(),
        w.ty.as_slice(),
        tw,
        preds.as_slice(),
        methods,
    );
    assert(tvs(x@) == tail_fn(mv));
    Ok(x)
}

/// `#blanket(names){wrappers}` (see [`blanket_exp_spec`]); takes one
/// fresh parameter number exactly when [`blanket_uses_fresh`] holds.
pub fn expand_blanket(td: &TraitDef, args: &[Tok], body: &[Tok], path: &[Tok], fresh: &mut FreshCounter) -> (r:
    Result<Vec<Tok>, Diag>)
    ensures
        res_view(r) == blanket_exp_spec(*td, tvs(args@), tvs(body@), tvs(path@), old(fresh).count()),
        final(fresh).count() == old(fresh).count() + (if blanket_uses_fresh(
            tvs(args@),
            tvs(body@),
            old(fresh).count(),
        ) {
            1nat
        } else {
            0nat
        }),
{
    let body_tokens = match angle_collect(body) {
        Err(d) => {
            return Err(d);
        },
        Ok(b) => b,
    };
    let wrappers = match parse_blanket_wrappers(body_tokens.as_slice()) {
        Err(d) => {
            return Err(d);
        },
        Ok(w) => w,
    };
    assert(tvs(args@).len() == args@.len());
    let names = match parse_names_from_tokens(args, td) {
        Err(d) => {
            assert(arg_names_spec(tvs(args@)) == Err::<Seq<Seq<char>>, Seq<char>>(d@));
            return Err(d);
        },
        Ok(ns) => ns,
    };
    let ghost ws = wrappers_view(wrappers@);
    let ghost ns = strs_view(names@);
    assert(blanket_prefix(tvs(args@), tvs(body@)) == Ok::<
        (Seq<WrapperV>, Seq<Seq<char>>),
        Seq<char>,
    >((ws, ns)));
    proof {
        crate::directives::blanket_wrappers::law_one_wrapper_per_element(tvs(body_tokens@));
    }
    if fresh.next_number() == usize::MAX {
        return Err(diag("batch-impl: fresh generic parameter numbers exhausted"));
    }
    let ghost n = fresh.count();
    let t = fresh.fresh_param();
    let pn = copy_parts_of(td, false);
    let decls = copy_parts_of(td, true);
    let t_bound = trait_with_args(path, pn.as_slice());
    let trait_part: Vec<Tok> = if pn.len() == 0 {
        Vec::new()
    } else {
        copy_toks(t_bound.as_slice())
    };
    let at = as_trait_exec(&t, path, &pn);
    let bv = by_value_names(td, &names);
    let doc = note_attr(&bv);
    let tw: Option<&[Tok]> = match &td.where_preds {
        Some(w) => Some(w.as_slice()),
        None => None,
    };
    assert(match tw {
        Some(w) => Some(tvs(w@)),
        None => None,
    } == opt_v(td.where_preds));
    let ghost pth = tvs(path@);
    let ghost atv = tvs(at@);
    let ghost docv = tvs(doc@);
    let mut specs: Vec<Vec<Tok>> = Vec::new();
    let mut k: usize = 0;
    while k < wrappers.len()
        invariant
            k <= wrappers@.len(),
            ws == wrappers_view(wrappers@),
            forall|j: int| 0 <= j < wrappers@.len() ==> 1 <= #[trigger] ws[j].depth <= 128,
            ns == strs_view(names@),
            pth == tvs(path@),
            atv == tvs(at@),
            docv == tvs(doc@),
            parts_view(decls@) == generic_decls_v(*td),
            tvs(t_bound@) == trait_with_args_spec(pth, generic_names_v(*td)),
            tvs(trait_part@) == (if generic_names_v(*td).len() == 0 {
                Seq::<TokV>::empty()
            } else {
                trait_with_args_spec(pth, generic_names_v(*td))
            }),
            match tw {
                Some(w) => Some(tvs(w@)),
                None => None,
            } == opt_v(td.where_preds),
            fresh.count() == old(fresh).count() + 1,
            blanket_uses_fresh(tvs(args@), tvs(body@), old(fresh).count()),
            blanket_exp_spec(*td, tvs(args@), tvs(body@), pth, old(fresh).count()) == match blanket_specs_from(
                *td,
                ns,
                ws,
                t@,
                pth,
                atv,
                docv,
                0,
            ) {
                Err(e) => Err(e),
                Ok(sp) => Ok(comma_join(sp)),
            },
            blanket_specs_from(*td, ns, ws, t@, pth, atv, docv, 0) == match blanket_specs_from(
                *td,
                ns,
                ws,
                t@,
                pth,
                atv,
                docv,
                k as int,
            ) {
                Err(e) => Err(e),
                Ok(rest) => Ok(parts_view(specs@) + rest),
            },
        decreases wrappers@.len() - k,
    {
        let w = &wrappers[k];
        assert(ws[k as int] == wrapper_view(*w));
        let x = match blanket_one(td, &names, w, &t, path, at.as_slice(), doc.as_slice(), &decls, &t_bound, &trait_part, tw) {
            Err(d) => {
                return Err(d);
            },
            Ok(x) => x,
        };
        let ghost before = specs@;
        specs.push(x);
        assert(parts_view(specs@) =~= parts_view(before) + seq![tvs(x@)]);
        proof {
            match blanket_specs_from(*td, ns, ws, t@, pth, atv, docv, k + 1) {
                Ok(rest) => {
                    assert(parts_view(before) + (seq![tvs(x@)] + rest) =~= parts_view(specs@)
                        + rest);
                },
                Err(_) => {},
            }
        }
        k += 1;
    }
    assert(parts_view(specs@) + Seq::<Seq<TokV>>::empty() =~= parts_view(specs@));
    Ok(join_parts(specs.as_slice()))
}

// ------------------------------------------------------------------
// Dispatch and the whole pass

/// One directive with fresh number `n`: its expansion, and the next fresh
/// number.
pub open spec fn directive_exp_spec(
    name: Seq<char>,
    kind: DirectiveKind,
    args: Option<TokV>,
    body: TokV,
    td: TraitDef,
    path: Seq<TokV>,
    n: nat,
) -> (Result<Seq<TokV>, Seq<char>>, nat) {
    match args {
        None => (single_spec(td, name, group_inner(body)), n),
        Some(a) => match kind {
            DirectiveKind::Single => (single_spec(td, name, group_inner(body)), n),
            DirectiveKind::Fill => (fill_spec(td, group_inner(a), group_inner(body)), n),
            DirectiveKind::Delegate => (delegate_spec(td, group_inner(a), group_inner(body)), n),
            DirectiveKind::Blanket => (
                blanket_exp_spec(td, group_inner(a), group_inner(body), path, n),
                if blanket_uses_fresh(group_inner(a), group_inner(body), n) {
                    n + 1
                } else {
                    n
                },
            ),
            DirectiveKind::Open => (Ok(seq![open_call_spec(name, a, body, tvs(td.tokens@))]), n),
        },
    }
}

/// `x` before the tokens of `p` (errors and the fresh number pass).
pub open spec fn prefix_with(x: Seq<TokV>, p: (Result<Seq<TokV>, Seq<char>>, nat)) -> (
    Result<Seq<TokV>, Seq<char>>,
    nat,
) {
    (seq_then(x, p.0), p.1)
}

/// The expansion of the pieces from `i` on with fresh number `n`: kept
/// tokens stay, bracket groups are expanded inside, directives expand,
/// and an error piece is the result.
pub open spec fn expand_from(ps: Seq<PieceV>, i: int, td: TraitDef, path: Seq<TokV>, n: nat) -> (
    Result<Seq<TokV>, Seq<char>>,
    nat,
)
    decreases ps, ps.len() - i,
{
    if i < 0 || i >= ps.len() {
        (Ok(Seq::empty()), n)
    } else {
        match ps[i] {
            PieceV::Tok(t) => prefix_with(seq![t], expand_from(ps, i + 1, td, path, n)),
            PieceV::Bracket(inner) => {
                let (r, n1) = expand_from(inner, 0, td, path, n);
                match r {
                    Err(e) => (Err(e), n1),
                    Ok(x) => prefix_with(
                        seq![TokV::Group(Delim::Bracket, x)],
                        expand_from(ps, i + 1, td, path, n1),
                    ),
                }
            },
            PieceV::Directive(name, kind, args, body) => {
                let (r, n1) = directive_exp_spec(name, kind, args, body, td, path, n);
                match r {
                    Err(e) => (Err(e), n1),
                    Ok(x) => prefix_with(x, expand_from(ps, i + 1, td, path, n1)),
                }
            },
            PieceV::Error(e) => (Err(e), n),
        }
    }
}

/// The `#` directive pass with fresh number `n`: split, then expand.
pub open spec fn expand_tokens_spec(s: Seq<TokV>, td: TraitDef, path: Seq<TokV>, n: nat) -> (
    Result<Seq<TokV>, Seq<char>>,
    nat,
) {
    expand_from(pieces_spec(s), 0, td, path, n)
}

fn expand_directive(
    name: &String,
    kind: DirectiveKind,
    args: &Option<Tok>,
    body: &Tok,
    td: &TraitDef,
    path: &[Tok],
    fresh: &mut FreshCounter,
) -> (r: Result<Vec<Tok>, Diag>)
    ensures
        res_view(r) == directive_exp_spec(
            name@,
            kind,
            match *args {
                Some(a) => Some(a@),
                None => None,
            },
            body@,
            *td,
            tvs(path@),
            old(fresh).count(),
        ).0,
        final(fresh).count() == directive_exp_spec(
            name@,
            kind,
            match *args {
                Some(a) => Some(a@),
                None => None,
            },
            body@,
            *td,
            tvs(path@),
            old(fresh).count(),
        ).1,
{
    let b = inner_toks(body);
    match args {
        None => expand_single(td, name.as_str(), b.as_slice()),
        Some(a) => match kind {
            DirectiveKind::Single => expand_single(td, name.as_str(), b.as_slice()),
            DirectiveKind::Fill => expand_fill(td, inner_toks(a).as_slice(), b.as_slice()),
            DirectiveKind::Delegate => expand_delegate(td, inner_toks(a).as_slice(), b.as_slice()),
            DirectiveKind::Blanket => expand_blanket(td, inner_toks(a).as_slice(), b.as_slice(), path, fresh),
            DirectiveKind::Open => {
                let v = vec![open_extension(name.as_str(), a, body, td.tokens.as_slice())];
                assert(tvs(v@) =~= seq![open_call_spec(name@, a@, body@, tvs(td.tokens@))]);
                Ok(v)
            },
        },
    }
}

/// Expands the pieces of a split token list (see [`expand_from`]).
pub fn expand_pieces(ps: &[Piece], td: &TraitDef, path: &[Tok], fresh: &mut FreshCounter) -> (r: Result<
    Vec<Tok>,
    Diag,
>)
    ensures
        res_view(r) == expand_from(pieces_v(ps@), 0, *td, tvs(path@), old(fresh).count()).0,
        final(fresh).count() == expand_from(pieces_v(ps@), 0, *td, tvs(path@), old(fresh).count()).1,
    decreases ps@,
{
    let ghost pv = pieces_v(ps@);
    let ghost pth = tvs(path@);
    let ghost whole = expand_from(pv, 0, *td, pth, old(fresh).count());
    let mut out: Vec<Tok> = Vec::new();
    let mut i: usize = 0;
    assert(whole == prefix_with(tvs(out@), expand_from(pv, 0, *td, pth, fresh.count()))) by {
        if let Ok(v) = whole.0 {
            assert(Seq::<TokV>::empty() + v =~= v);
        }
    }
    while i < ps.len()
        invariant
            i <= ps@.len(),
            pv == pieces_v(ps@),
            pth == tvs(path@),
            whole == expand_from(pv, 0, *td, pth, old(fresh).count()),
            whole == prefix_with(tvs(out@), expand_from(pv, i as int, *td, pth, fresh.count())),
        decreases ps@.len() - i,
    {
        let ghost before = tvs(out@);
        let ghost n = fresh.count();
        assert(pv[i as int] == piece_v(ps@[i as int]));
        match &ps[i] {
            Piece::Tok(t) => {
                let c = copy_tok(t);
                let v = vec![c];
                assert(tvs(v@) =~= seq![t@]);
                proof {
                    lemma_seq_then_assoc(before, seq![t@], expand_from(pv, i + 1, *td, pth, n).0);
                }
                then_push(&mut out, v);
            },
            Piece::Bracket(inner) => {
                proof {
                    assert(decreases_to!(ps@ => ps@[i as int]));
                }
                match expand_pieces(inner.as_slice(), td, path, fresh) {
                    Err(d) => {
                        return Err(d);
                    },
                    Ok(x) => {
                        let g = Tok::Group(Delim::Bracket, x);
                        let v = vec![g];
                        assert(tvs(v@) =~= seq![g@]);
                        proof {
                            lemma_seq_then_assoc(before, seq![g@], expand_from(pv, i + 1, *td, pth, fresh.count()).0);
                        }
                        then_push(&mut out, v);
                    },
                }
            },
            Piece::Directive { name, kind, args, body } => {
                match expand_directive(name, *kind, args, body, td, path, fresh) {
                    Err(d) => {
                        return Err(d);
                    },
                    Ok(x) => {
                        proof {
                            lemma_seq_then_assoc(before, tvs(x@), expand_from(pv, i + 1, *td, pth, fresh.count()).0);
                        }
                        then_push(&mut out, x);
                    },
                }
            },
            Piece::Error(d) => {
                return Err(Diag { message: d.message.clone() });
            },
        }
        i += 1;
    }
    assert(tvs(out@) + Seq::<TokV>::empty() =~= tvs(out@));
    Ok(out)
}

/// The `#` directive pass of the attribute entries: every directive of
/// `tokens`, at any depth of `[...]` groups, expanded in order (see
/// [`expand_tokens_spec`]); `fresh` numbers the `#blanket` parameters.
pub fn expand_tokens(tokens: &[Tok], td: &TraitDef, path: &[Tok], fresh: &mut FreshCounter) -> (r: Result<
    Vec<Tok>,
    Diag,
>)
    ensures
        res_view(r) == expand_tokens_spec(tvs(tokens@), *td, tvs(path@), old(fresh).count()).0,
        final(fresh).count() == expand_tokens_spec(tvs(tokens@), *td, tvs(path@), old(fresh).count()).1,
{
    let pieces = split_directives(tokens);
    expand_pieces(pieces.as_slice(), td, path, fresh)
}

} // verus!
