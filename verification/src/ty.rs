//! The type expressions of the spec grammar and how each is written back
//! as tokens.
//!
//! A [`Ty`] is one node of a parsed spec: leaves (a passthrough token
//! run, a number, a range), containers (`[...]` lists, `(...,)` tuples,
//! `(...)` groups, `[T]` / `[T; N]` arrays) and wrappers that carry a
//! prefix, an attribute, a trait head, a parameter list, a code block or a
//! `where` clause around an inner type. [`Ty::to_tokens`] writes a node
//! back as the tokens of the Rust type it stands for.
use vstd::prelude::*;

use crate::display::{dec, usize_text};
use crate::empty_generics::{join_parts, parts_view};
use crate::text::cat2;
use crate::token::{
    Delim, Spacing, Tok, TokV, copy_toks, group_tok_view, lemma_tvs_concat, lemma_tvs_push, tv, tvs,
};
use crate::trait_items::comma_join;

verus! {

broadcast use group_tok_view;

/// The prefixes `&`, `&mut`, `*const`, `*mut`, `self`, `unsafe`.
#[derive(Clone, Copy, PartialEq, Eq, Structural, Debug)]
pub enum TyPrefix {
    Ref,
    RefMut,
    PtrConst,
    PtrMut,
    SelfType,
    Unsafe,
}

/// A parameter list `<T: Bound, U, Item = V>`: positional parameters, each
/// with its optional bound, and associated-type bindings.
#[derive(Debug)]
pub struct TyTypeParam {
    pub params: Vec<(Vec<Tok>, Option<Box<Ty>>)>,
    pub bindings: Vec<(Vec<Tok>, Vec<Tok>)>,
}

/// A type expression of the spec grammar.
#[derive(Debug)]
pub enum Ty {
    /// A token run passed through as written (`u8`, `Vec<T>`).
    Primitive(Vec<Tok>),
    /// `T<...>`.
    Generic(Box<Ty>, TyTypeParam),
    /// A trait path with its arguments, `Tr<...>`.
    Trait(Vec<Tok>, TyTypeParam),
    /// `[A, B, ...]`: one element per generated impl.
    Array(Vec<Ty>),
    /// `(A, B, ...,)`.
    Tuple(Vec<Ty>),
    /// `(T)`.
    Group(Box<Ty>),
    /// `[T]` or `[T; N]` (an empty base is written `[]`).
    PrimitiveArray(Option<Box<Ty>>, Option<Vec<Tok>>),
    /// A prefix, alone or before its type.
    WithPrefix(TyPrefix, Option<Box<Ty>>),
    /// `fn`, `fn(A, B)` or `fn(A, B) -> R`.
    Fn(Option<Vec<Ty>>, Option<Box<Ty>>),
    /// `<T: Bound, U, Item = V>`.
    TypeParam(TyTypeParam),
    /// `#[attr]`, alone or before its type.
    WithAttr(Vec<Tok>, Option<Box<Ty>>),
    /// A number.
    Num(u8),
    /// `N..M` or `N..=M`.
    Range(u8, u8, bool),
    /// A trait head applied to a type: `Tr<...> T`.
    WithTrait(Vec<Tok>, TyTypeParam, Box<Ty>),
    /// A parameter list applied to a type: `<T...> T`.
    WithType(TyTypeParam, Box<Ty>),
    /// A type with a code block, `T { code }` (or the block alone).
    WithCode(Option<Box<Ty>>, Vec<Tok>),
    /// A type with a `where` clause, `T where P` (or the clause alone).
    WithWhere(Option<Box<Ty>>, Vec<Tok>),
    /// A diagnostic, written as its tokens.
    Error(Vec<Tok>),
}

pub open spec fn punct(c: char) -> TokV {
    TokV::Punct(c, Spacing::Alone)
}

pub open spec fn joint(c: char) -> TokV {
    TokV::Punct(c, Spacing::Joint)
}

/// The tokens of a prefix.
pub open spec fn prefix_spec(p: TyPrefix) -> Seq<TokV> {
    match p {
        TyPrefix::Ref => seq![punct('&')],
        TyPrefix::RefMut => seq![punct('&'), TokV::Ident("mut"@)],
        TyPrefix::PtrConst => seq![punct('*'), TokV::Ident("const"@)],
        TyPrefix::PtrMut => seq![punct('*'), TokV::Ident("mut"@)],
        TyPrefix::SelfType => seq![TokV::Ident("self"@)],
        TyPrefix::Unsafe => seq![TokV::Ident("unsafe"@)],
    }
}

/// A number as a `u8`-suffixed literal.
pub open spec fn num_spec(n: u8) -> TokV {
    TokV::Literal(dec(n as nat) + "u8"@)
}

/// `name = value`.
pub open spec fn binding_spec(b: (Vec<Tok>, Vec<Tok>)) -> Seq<TokV> {
    tvs(b.0@) + seq![punct('=')] + tvs(b.1@)
}

/// `base` with its arguments: the parameter names then the bindings, in
/// `<...>`; with neither, the bare base.
pub open spec fn with_args_spec(base: Seq<TokV>, tp: TyTypeParam) -> Seq<TokV> {
    let all = Seq::new(tp.params@.len(), |i: int| tvs(tp.params@[i].0@)) + binding_items(tp);
    if all.len() == 0 {
        base
    } else {
        base + seq![punct('<')] + comma_join(all) + seq![punct('>')]
    }
}

/// Each element followed by a comma.
pub open spec fn trailing_commas(parts: Seq<Seq<TokV>>) -> Seq<TokV>
    decreases parts.len(),
{
    if parts.len() == 0 {
        Seq::empty()
    } else {
        trailing_commas(parts.drop_last()) + parts.last() + seq![punct(',')]
    }
}

/// One parameter of a list: `name: bound` (the bound written as its
/// type), or the bare name.
pub open spec fn param_item_spec(p: (Vec<Tok>, Option<Box<Ty>>)) -> Seq<TokV>
    decreases p, 0nat,
{
    match p.1 {
        Some(b) => tvs(p.0@) + seq![punct(':')] + ty_tokens_spec(*b),
        None => tvs(p.0@),
    }
}

/// The parameters of a list, each as [`param_item_spec`] writes it.
pub open spec fn param_items(tp: TyTypeParam) -> Seq<Seq<TokV>>
    decreases tp, 0nat,
{
    Seq::new(
        tp.params@.len(),
        |i: int|
            if 0 <= i < tp.params@.len() {
                param_item_spec(tp.params@[i])
            } else {
                Seq::empty()
            },
    )
}

/// The bindings of a list, each as `name = value`.
pub open spec fn binding_items(tp: TyTypeParam) -> Seq<Seq<TokV>> {
    Seq::new(tp.bindings@.len(), |i: int| binding_spec(tp.bindings@[i]))
}

/// The tokens of a parameter list: `<T: bound, U, Item = V>`, nothing
/// when it is empty.
pub open spec fn params_no_base_spec(tp: TyTypeParam) -> Seq<TokV>
    decreases tp, 1nat,
{
    let all = param_items(tp) + binding_items(tp);
    if all.len() == 0 {
        Seq::empty()
    } else {
        seq![punct('<')] + comma_join(all) + seq![punct('>')]
    }
}

/// The tokens of each type of a list.
pub open spec fn tys_spec(v: Seq<Ty>) -> Seq<Seq<TokV>>
    decreases v, 0nat,
{
    Seq::new(
        v.len(),
        |i: int|
            if 0 <= i < v.len() {
                ty_tokens_spec(v[i])
            } else {
                Seq::empty()
            },
    )
}

/// The tokens of an optional inner type (nothing when absent).
pub open spec fn opt_ty_spec(o: Option<Box<Ty>>) -> Seq<TokV>
    decreases o, 0nat,
{
    match o {
        Some(b) => ty_tokens_spec(*b),
        None => Seq::empty(),
    }
}

/// The Rust tokens a type expression stands for.
pub open spec fn ty_tokens_spec(t: Ty) -> Seq<TokV>
    decreases t, 0nat,
{
    match t {
        Ty::Primitive(p) => tvs(p@),
        Ty::Generic(b, tp) => with_args_spec(ty_tokens_spec(*b), tp),
        Ty::Trait(path, tp) => with_args_spec(tvs(path@), tp),
        Ty::Array(v) => seq![TokV::Group(Delim::Bracket, comma_join(tys_spec(v@)))],
        Ty::Tuple(v) => seq![TokV::Group(Delim::Paren, trailing_commas(tys_spec(v@)))],
        Ty::Group(b) => seq![TokV::Group(Delim::Paren, ty_tokens_spec(*b))],
        Ty::PrimitiveArray(elem, size) => match elem {
            Some(b) => match size {
                Some(n) => seq![
                    TokV::Group(Delim::Bracket, ty_tokens_spec(*b) + seq![punct(';')] + tvs(n@)),
                ],
                None => seq![TokV::Group(Delim::Bracket, ty_tokens_spec(*b))],
            },
            None => seq![TokV::Group(Delim::Bracket, Seq::empty())],
        },
        Ty::WithPrefix(p, inner) => prefix_spec(p) + opt_ty_spec(inner),
        Ty::Fn(params, ret) => match params {
            Some(v) => seq![
                TokV::Ident("fn"@),
                TokV::Group(Delim::Paren, comma_join(tys_spec(v@))),
            ] + match ret {
                Some(r) => seq![joint('-'), punct('>')] + ty_tokens_spec(*r),
                None => Seq::empty(),
            },
            None => seq![TokV::Ident("fn"@)],
        },
        Ty::TypeParam(tp) => params_no_base_spec(tp),
        Ty::WithAttr(a, inner) => seq![punct('#'), TokV::Group(Delim::Bracket, tvs(a@))] + opt_ty_spec(
            inner,
        ),
        Ty::Num(n) => seq![num_spec(n)],
        Ty::Range(start, end, inclusive) => seq![num_spec(start)] + (if inclusive {
            seq![joint('.'), joint('.'), punct('=')]
        } else {
            seq![joint('.'), punct('.')]
        }) + seq![num_spec(end)],
        Ty::WithTrait(path, tp, b) => with_args_spec(tvs(path@), tp) + ty_tokens_spec(*b),
        Ty::WithType(tp, b) => params_no_base_spec(tp) + ty_tokens_spec(*b),
        Ty::WithCode(inner, code) => opt_ty_spec(inner) + seq![TokV::Group(Delim::Brace, tvs(code@))],
        Ty::WithWhere(inner, w) => opt_ty_spec(inner) + seq![TokV::Ident("where"@)] + tvs(w@),
        Ty::Error(e) => tvs(e@),
    }
}

/// The `k`-th entry of an argument list `<...>`: the parameter names come
/// first, in order, then the bindings `name = value`, in order.
pub open spec fn argument_entry(tp: TyTypeParam, k: int) -> Seq<TokV> {
    if k < tp.params@.len() {
        tvs(tp.params@[k].0@)
    } else {
        let b = tp.bindings@[k - tp.params@.len()];
        tvs(b.0@) + seq![punct('=')] + tvs(b.1@)
    }
}

/// A base with its arguments: the bare base without any, else
/// `base < e0 , e1 , ... >` with the entries of [`argument_entry`].
pub open spec fn written_with_arguments(base: Seq<TokV>, tp: TyTypeParam, out: Seq<TokV>) -> bool {
    let n = tp.params@.len() + tp.bindings@.len();
    if n == 0 {
        out == base
    } else {
        out == base + seq![punct('<')] + comma_join(Seq::new(n, |k: int| argument_entry(tp, k)))
            + seq![punct('>')]
    }
}

/// In the tokens of a type with arguments (a generic type or a trait path),
/// every positional argument precedes every associated-type binding: the
/// list is the parameter names in order, then the bindings in order.
pub proof fn law_arguments_precede_bindings(t: Ty)
    ensures
        match t {
            Ty::Trait(path, tp) => written_with_arguments(tvs(path@), tp, ty_tokens_spec(t)),
            Ty::Generic(b, tp) => written_with_arguments(ty_tokens_spec(*b), tp, ty_tokens_spec(t)),
            _ => true,
        },
{
    match t {
        Ty::Trait(_, tp) => {
            let n = tp.params@.len() + tp.bindings@.len();
            assert(Seq::new(tp.params@.len(), |i: int| tvs(tp.params@[i].0@)) + binding_items(tp)
                =~= Seq::new(n, |k: int| argument_entry(tp, k)));
        },
        Ty::Generic(_, tp) => {
            let n = tp.params@.len() + tp.bindings@.len();
            assert(Seq::new(tp.params@.len(), |i: int| tvs(tp.params@[i].0@)) + binding_items(tp)
                =~= Seq::new(n, |k: int| argument_entry(tp, k)));
        },
        _ => {},
    }
}

fn push_tok(out: &mut Vec<Tok>, t: Tok)
    ensures
        tvs(final(out)@) == tvs(old(out)@) + seq![tv(t)],
{
    let ghost before = out@;
    out.push(t);
    proof {
        lemma_tvs_push(before, t);
    }
}

fn append_toks(out: &mut Vec<Tok>, mut v: Vec<Tok>)
    ensures
        tvs(final(out)@) == tvs(old(out)@) + tvs(v@),
{
    let ghost before = out@;
    let ghost vv = v@;
    out.append(&mut v);
    proof {
        lemma_tvs_concat(before, vv);
    }
}

fn alone(c: char) -> (t: Tok)
    ensures
        tv(t) == punct(c),
{
    Tok::Punct(c, Spacing::Alone)
}

fn prefix_tokens(p: TyPrefix) -> (r: Vec<Tok>)
    ensures
        tvs(r@) == prefix_spec(p),
{
    let r = match p {
        TyPrefix::Ref => vec![alone('&')],
        TyPrefix::RefMut => vec![alone('&'), Tok::Ident("mut".to_string())],
        TyPrefix::PtrConst => vec![alone('*'), Tok::Ident("const".to_string())],
        TyPrefix::PtrMut => vec![alone('*'), Tok::Ident("mut".to_string())],
        TyPrefix::SelfType => vec![Tok::Ident("self".to_string())],
        TyPrefix::Unsafe => vec![Tok::Ident("unsafe".to_string())],
    };
    proof {
        reveal_strlit("mut");
        reveal_strlit("const");
        reveal_strlit("self");
        reveal_strlit("unsafe");
    }
    assert(tvs(r@) =~= prefix_spec(p));
    r
}

fn num_tok(n: u8) -> (t: Tok)
    ensures
        tv(t) == num_spec(n),
{
    let d = usize_text(n as usize);
    Tok::Literal(cat2(d.as_str(), "u8"))
}

fn binding_tokens(b: &(Vec<Tok>, Vec<Tok>)) -> (r: Vec<Tok>)
    ensures
        tvs(r@) == binding_spec(*b),
{
    let mut r = copy_toks(b.0.as_slice());
    push_tok(&mut r, alone('='));
    append_toks(&mut r, copy_toks(b.1.as_slice()));
    r
}

/// `<` parts `>`, comma-separated.
fn angled(parts: Vec<Vec<Tok>>) -> (r: Vec<Tok>)
    ensures
        tvs(r@) == seq![punct('<')] + comma_join(parts_view(parts@)) + seq![punct('>')],
{
    let mut r: Vec<Tok> = vec![alone('<')];
    assert(tvs(r@) =~= seq![punct('<')]);
    append_toks(&mut r, join_parts(parts.as_slice()));
    push_tok(&mut r, alone('>'));
    r
}

fn binding_parts(tp: &TyTypeParam, parts: &mut Vec<Vec<Tok>>)
    ensures
        parts_view(final(parts)@) == parts_view(old(parts)@) + binding_items(*tp),
{
    let ghost before = parts_view(parts@);
    let mut i: usize = 0;
    while i < tp.bindings.len()
        invariant
            i <= tp.bindings@.len(),
            parts_view(parts@) == before + Seq::new(i as nat, |k: int| binding_spec(tp.bindings@[k])),
        decreases tp.bindings@.len() - i,
    {
        let ghost pv = parts_view(parts@);
        parts.push(binding_tokens(&tp.bindings[i]));
        assert(parts_view(parts@) =~= pv + seq![binding_spec(tp.bindings@[i as int])]);
        assert(before + Seq::new((i + 1) as nat, |k: int| binding_spec(tp.bindings@[k])) =~= before
            + Seq::new(i as nat, |k: int| binding_spec(tp.bindings@[k])) + seq![
            binding_spec(tp.bindings@[i as int]),
        ]);
        i += 1;
    }
    assert(Seq::new(tp.bindings@.len(), |k: int| binding_spec(tp.bindings@[k])) =~= binding_items(*tp));
}

/// `base` with the list's arguments (see [`with_args_spec`]).
fn with_args(base: Vec<Tok>, tp: &TyTypeParam) -> (r: Vec<Tok>)
    ensures
        tvs(r@) == with_args_spec(tvs(base@), *tp),
{
    let mut parts: Vec<Vec<Tok>> = Vec::new();
    let mut i: usize = 0;
    while i < tp.params.len()
        invariant
            i <= tp.params@.len(),
            parts_view(parts@) == Seq::new(i as nat, |k: int| tvs(tp.params@[k].0@)),
        decreases tp.params@.len() - i,
    {
        let ghost pv = parts_view(parts@);
        let x = copy_toks(tp.params[i].0.as_slice());
        assert(tvs(x@) == tvs(tp.params@[i as int].0@));
        parts.push(x);
        assert(parts_view(parts@) =~= pv.push(tvs(x@)));
        assert(parts_view(parts@) =~= Seq::new((i + 1) as nat, |k: int| tvs(tp.params@[k].0@)));
        i += 1;
    }
    assert(parts_view(parts@) =~= Seq::new(tp.params@.len(), |k: int| tvs(tp.params@[k].0@)));
    binding_parts(tp, &mut parts);
    if parts.len() == 0 {
        base
    } else {
        let mut r = base;
        append_toks(&mut r, angled(parts));
        assert(tvs(base@) + (seq![punct('<')] + comma_join(parts_view(parts@)) + seq![punct('>')])
            =~= tvs(base@) + seq![punct('<')] + comma_join(parts_view(parts@)) + seq![punct('>')]);
        r
    }
}

/// The tokens of each type of a list.
fn tys_tokens(v: &Vec<Ty>) -> (r: Vec<Vec<Tok>>)
    ensures
        parts_view(r@) == tys_spec(v@),
    decreases v, 0nat,
{
    let mut r: Vec<Vec<Tok>> = Vec::new();
    let mut i: usize = 0;
    while i < v.len()
        invariant
            i <= v@.len(),
            r@.len() == i,
            forall|k: int| 0 <= k < i ==> tvs(#[trigger] r@[k]@) == ty_tokens_spec(v@[k]),
        decreases v@.len() - i,
    {
        proof {
            assert(decreases_to!(*v => v@[i as int]));
        }
        let x = v[i].to_tokens();
        r.push(x);
        i += 1;
    }
    assert(parts_view(r@) =~= tys_spec(v@));
    r
}

/// The tokens of a parameter list (see [`params_no_base_spec`]).
fn params_no_base(tp: &TyTypeParam) -> (r: Vec<Tok>)
    ensures
        tvs(r@) == params_no_base_spec(*tp),
    decreases tp, 0nat,
{
    let ghost items = param_items(*tp);
    let mut parts: Vec<Vec<Tok>> = Vec::new();
    let mut i: usize = 0;
    while i < tp.params.len()
        invariant
            i <= tp.params@.len(),
            parts@.len() == i,
            forall|k: int| 0 <= k < i ==> tvs(#[trigger] parts@[k]@) == param_item_spec(tp.params@[k]),
        decreases tp.params@.len() - i,
    {
        let mut x = copy_toks(tp.params[i].0.as_slice());
        match &tp.params[i].1 {
            Some(b) => {
                proof {
                    assert(decreases_to!(*tp => tp.params));
                    assert(decreases_to!(tp.params => tp.params@[i as int]));
                    assert(decreases_to!(tp.params@[i as int] => tp.params@[i as int].1));
                }
                push_tok(&mut x, alone(':'));
                append_toks(&mut x, b.to_tokens());
                assert(tvs(x@) == param_item_spec(tp.params@[i as int]));
            },
            None => {
                assert(tvs(x@) == param_item_spec(tp.params@[i as int]));
            },
        }
        parts.push(x);
        i += 1;
    }
    assert(parts_view(parts@) =~= items);
    binding_parts(tp, &mut parts);
    let ghost all = items + binding_items(*tp);
    assert(parts_view(parts@) =~= all);
    assert(params_no_base_spec(*tp) == (if all.len() == 0 {
        Seq::<TokV>::empty()
    } else {
        seq![punct('<')] + comma_join(all) + seq![punct('>')]
    }));
    if parts.len() == 0 {
        let r: Vec<Tok> = Vec::new();
        assert(tvs(r@) =~= Seq::<TokV>::empty());
        r
    } else {
        angled(parts)
    }
}

impl Ty {
    /// The Rust tokens this type expression stands for (see
    /// [`ty_tokens_spec`]).
    pub fn to_tokens(&self) -> (v: Vec<Tok>)
        ensures
            tvs(v@) == ty_tokens_spec(*self),
        decreases self, 1nat,
    {
        match self {
            Ty::Primitive(p) => copy_toks(p.as_slice()),
            Ty::Generic(b, tp) => with_args(b.to_tokens(), tp),
            Ty::Trait(path, tp) => with_args(copy_toks(path.as_slice()), tp),
            Ty::Array(v) => {
                let parts = tys_tokens(v);
                let r = vec![Tok::Group(Delim::Bracket, join_parts(parts.as_slice()))];
                assert(tvs(r@) =~= ty_tokens_spec(*self));
                r
            },
            Ty::Tuple(v) => {
                let parts = tys_tokens(v);
                let inner = trailing_comma_tokens(parts);
                let r = vec![Tok::Group(Delim::Paren, inner)];
                assert(tvs(r@) =~= ty_tokens_spec(*self));
                r
            },
            Ty::Group(b) => {
                let r = vec![Tok::Group(Delim::Paren, b.to_tokens())];
                assert(tvs(r@) =~= ty_tokens_spec(*self));
                r
            },
            Ty::PrimitiveArray(elem, size) => match elem {
                Some(b) => {
                    let mut x = b.to_tokens();
                    match size {
                        Some(n) => {
                            push_tok(&mut x, alone(';'));
                            append_toks(&mut x, copy_toks(n.as_slice()));
                            let r = vec![Tok::Group(Delim::Bracket, x)];
                            assert(tvs(r@) =~= seq![
                                TokV::Group(Delim::Bracket, ty_tokens_spec(**b) + seq![punct(';')] + tvs(n@)),
                            ]);
                            r
                        },
                        None => {
                            let r = vec![Tok::Group(Delim::Bracket, x)];
                            assert(tvs(r@) =~= seq![TokV::Group(Delim::Bracket, ty_tokens_spec(**b))]);
                            r
                        },
                    }
                },
                None => {
                    let e: Vec<Tok> = Vec::new();
                    assert(tvs(e@) =~= Seq::<TokV>::empty());
                    let r = vec![Tok::Group(Delim::Bracket, e)];
                    assert(tvs(r@) =~= ty_tokens_spec(*self));
                    r
                },
            },
            Ty::WithPrefix(p, inner) => {
                let mut r = prefix_tokens(*p);
                append_toks(&mut r, opt_ty_tokens(inner));
                r
            },
            Ty::Fn(params, ret) => match params {
                Some(v) => {
                    let parts = tys_tokens(v);
                    let mut r = vec![
                        Tok::Ident("fn".to_string()),
                        Tok::Group(Delim::Paren, join_parts(parts.as_slice())),
                    ];
                    proof {
                        reveal_strlit("fn");
                    }
                    assert(tvs(r@) =~= seq![
                        TokV::Ident("fn"@),
                        TokV::Group(Delim::Paren, comma_join(tys_spec(v@))),
                    ]);
                    match ret {
                        Some(b) => {
                            push_tok(&mut r, Tok::Punct('-', Spacing::Joint));
                            push_tok(&mut r, alone('>'));
                            append_toks(&mut r, b.to_tokens());
                        },
                        None => {},
                    }
                    r
                },
                None => {
                    let r = vec![Tok::Ident("fn".to_string())];
                    proof {
                        reveal_strlit("fn");
                    }
                    assert(tvs(r@) =~= ty_tokens_spec(*self));
                    r
                },
            },
            Ty::TypeParam(tp) => params_no_base(tp),
            Ty::WithAttr(a, inner) => {
                let mut r = vec![alone('#'), Tok::Group(Delim::Bracket, copy_toks(a.as_slice()))];
                assert(tvs(r@) =~= seq![punct('#'), TokV::Group(Delim::Bracket, tvs(a@))]);
                append_toks(&mut r, opt_ty_tokens(inner));
                r
            },
            Ty::Num(n) => {
                let r = vec![num_tok(*n)];
                assert(tvs(r@) =~= ty_tokens_spec(*self));
                r
            },
            Ty::Range(start, end, inclusive) => {
                let mut r = vec![num_tok(*start)];
                assert(tvs(r@) =~= seq![num_spec(*start)]);
                if *inclusive {
                    push_tok(&mut r, Tok::Punct('.', Spacing::Joint));
                    push_tok(&mut r, Tok::Punct('.', Spacing::Joint));
                    push_tok(&mut r, alone('='));
                } else {
                    push_tok(&mut r, Tok::Punct('.', Spacing::Joint));
                    push_tok(&mut r, alone('.'));
                }
                push_tok(&mut r, num_tok(*end));
                assert(tvs(r@) =~= ty_tokens_spec(*self));
                r
            },
            Ty::WithTrait(path, tp, b) => {
                let mut r = with_args(copy_toks(path.as_slice()), tp);
                append_toks(&mut r, b.to_tokens());
                r
            },
            Ty::WithType(tp, b) => {
                let mut r = params_no_base(tp);
                append_toks(&mut r, b.to_tokens());
                r
            },
            Ty::WithCode(inner, code) => {
                let mut r = opt_ty_tokens(inner);
                push_tok(&mut r, Tok::Group(Delim::Brace, copy_toks(code.as_slice())));
                r
            },
            Ty::WithWhere(inner, w) => {
                let mut r = opt_ty_tokens(inner);
                push_tok(&mut r, Tok::Ident("where".to_string()));
                proof {
                    reveal_strlit("where");
                }
                append_toks(&mut r, copy_toks(w.as_slice()));
                r
            },
            Ty::Error(e) => copy_toks(e.as_slice()),
        }
    }
}

fn opt_ty_tokens(o: &Option<Box<Ty>>) -> (r: Vec<Tok>)
    ensures
        tvs(r@) == opt_ty_spec(*o),
    decreases o, 0nat,
{
    match o {
        Some(b) => b.to_tokens(),
        None => Vec::new(),
    }
}

fn trailing_comma_tokens(parts: Vec<Vec<Tok>>) -> (r: Vec<Tok>)
    ensures
        tvs(r@) == trailing_commas(parts_view(parts@)),
{
    let ghost pv = parts_view(parts@);
    let mut r: Vec<Tok> = Vec::new();
    let mut i: usize = 0;
    while i < parts.len()
        invariant
            i <= parts@.len(),
            pv == parts_view(parts@),
            tvs(r@) == trailing_commas(pv.subrange(0, i as int)),
        decreases parts@.len() - i,
    {
        assert(pv.subrange(0, i + 1).drop_last() =~= pv.subrange(0, i as int));
        append_toks(&mut r, copy_toks(parts[i].as_slice()));
        push_tok(&mut r, alone(','));
        i += 1;
    }
    assert(pv.subrange(0, parts@.len() as int) =~= pv);
    r
}

} // verus!
