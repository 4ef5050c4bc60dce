//! Per-`@` recognition and expansion ([`try_expand_at`]).
use vstd::prelude::*;

use crate::consts::ctx::ConstCtx;
use crate::consts::range::{builtin_range_open, builtin_range_open_spec, endpoint_spec, split_range_endpoint};
use crate::consts::table::{builtin_named, list_tok, named_spec, render_list, slices_to_strings};
use crate::diag::Diag;
use crate::text::{cat2, cat3, cat5, strs_view};
use crate::token::{
    Spacing, Tok, TokV, copy_toks, group_tok_view, is_punct, joint_punct_at, punct_at, tok_at, tvs,
};
use crate::trait_items::{
    GenericFilter, TraitDef, all_marker_spec, generic_decl_spec, generic_marker_spec,
    get_trait_generic_decl, get_trait_item_names, item_names_upto, resolve_all_marker,
    resolve_generic_marker,
};

verus! {

broadcast use group_tok_view;

/// The text of an identifier view (empty for anything else).
pub open spec fn ident_text(t: TokV) -> Seq<char> {
    match t {
        TokV::Ident(x) => x,
        _ => Seq::empty(),
    }
}

pub open spec fn ident_in(t: Seq<TokV>, k: int) -> bool {
    0 <= k < t.len() && t[k] is Ident
}

pub open spec fn ctx_path(ctx: ConstCtx) -> Option<Seq<TokV>> {
    match ctx {
        ConstCtx::Attribute { trait_full_path, .. } => Some(tvs(trait_full_path@)),
        ConstCtx::ItemImpl { trait_path } => match trait_path {
            Some(p) => Some(tvs(p@)),
            None => None,
        },
        ConstCtx::Trait { .. } => None,
    }
}

pub open spec fn ctx_trait(ctx: ConstCtx) -> Option<TraitDef> {
    match ctx {
        ConstCtx::Attribute { trait_def, .. } => Some(*trait_def),
        _ => None,
    }
}

pub open spec fn ctx_table(ctx: ConstCtx) -> Option<Map<Seq<char>, Seq<TokV>>> {
    match ctx {
        ConstCtx::Trait { user_table } => Some(user_table@),
        _ => None,
    }
}

pub open spec fn open_end_missing_msg() -> Seq<char> {
    "batch-impl: range constant `@..` must name the family's maximum endpoint (e.g. `@..u128`, `@..f64`)"@
}

pub open spec fn missing_name_msg() -> Seq<char> {
    "batch-impl: `@` must be followed by a constant name (e.g. `@u*`, `@u8..u128`)"@
}

pub open spec fn definition_msg(ctx: ConstCtx) -> Seq<char> {
    match ctx {
        ConstCtx::Trait { .. } => "batch-impl: constant definition must appear before all trait segments (only the leading position can define; end each definition with `;`)"@,
        _ => "batch-impl: custom constants are not supported by `#[batch_impl]` / `#[batch_impl_only]` — write the type matrix directly with `.` / space / `*` instead"@,
    }
}

pub open spec fn kind_word(f: GenericFilter) -> Seq<char> {
    match f {
        GenericFilter::Type => "type"@,
        GenericFilter::Const => "const"@,
        GenericFilter::Lifetime => "lifetime"@,
    }
}

pub open spec fn unknown_suffix(ctx: ConstCtx) -> Seq<char> {
    match ctx {
        ConstCtx::Trait { .. } => "; user constants must be defined before the reference (defining them later has no effect)"@,
        _ => ""@,
    }
}

/// A range family result as one bracket list, or the wrapped range error.
pub open spec fn range_result(r: Result<Seq<Seq<char>>, Seq<char>>, consumed: int) -> Result<
    Option<(Seq<TokV>, int)>,
    Seq<char>,
> {
    match r {
        Ok(types) => Ok(Some((seq![list_tok(types)], consumed))),
        Err(m) => Err("batch-impl: "@ + m),
    }
}

/// The range-family forms `@name..`, `@name..end`, `@name..=end`; the `=`
/// belongs to the range only when glued to the dots (the second dot is
/// joint).
pub open spec fn range_family_spec(t: Seq<TokV>, name: Seq<char>) -> Result<
    Option<(Seq<TokV>, int)>,
    Seq<char>,
> {
    let eq_adj = punct_at(t, 4, '=') && joint_punct_at(t, 3, '.');
    let idx: int = if eq_adj {
        5
    } else {
        4
    };
    let has_end = ident_in(t, idx);
    let end = if has_end {
        ident_text(t[idx])
    } else {
        Seq::empty()
    };
    if has_end && endpoint_spec(end) is Some {
        range_result(builtin_range_open_spec(Some(name), Some(end)), idx + 1)
    } else if has_end && eq_adj {
        Err("batch-impl: range constant `@"@ + name + "..=` has an invalid end point `"@ + end + "`"@)
    } else if eq_adj {
        Err("batch-impl: range constant `@"@ + name
            + "..=` is missing an end point (e.g. `@u16..=u64`)"@)
    } else {
        range_result(builtin_range_open_spec(Some(name), None), 4)
    }
}

/// `@all`-family selectors.
pub open spec fn all_family_spec(name: Seq<char>, ctx: ConstCtx) -> Result<
    Option<(Seq<TokV>, int)>,
    Seq<char>,
> {
    let spec = all_marker_spec(name)->Some_0;
    match ctx_trait(ctx) {
        Some(td) => Ok(
            Some(
                (
                    seq![
                        list_tok(
                            item_names_upto(
                                td.items@,
                                td.items@.len() as int,
                                spec.0.0,
                                spec.0.1,
                                spec.0.2,
                                spec.1,
                                spec.2,
                            ),
                        ),
                    ],
                    2,
                ),
            ),
        ),
        None => if ctx is ItemImpl {
            Err("batch-impl: `@"@ + name
                + "` is not available on the ItemImpl entry (no trait definition to select items from)"@)
        } else {
            Err("batch-impl: `@"@ + name
                + "` is supported only by `#[batch_impl]` / `#[batch_impl_only]` (needs a trait definition to select items; `batch_trait!` is a function-like macro without one)"@)
        },
    }
}

/// Generic-parameter family markers.
pub open spec fn generic_family_spec(name: Seq<char>, ctx: ConstCtx) -> Result<
    Option<(Seq<TokV>, int)>,
    Seq<char>,
> {
    let gf = generic_marker_spec(name)->Some_0;
    match ctx_trait(ctx) {
        Some(td) => match generic_decl_spec(td, gf) {
            Some(decl) => Ok(Some((decl, 2))),
            None => Err("batch-impl: `@"@ + name + "` cannot expand — trait `"@ + td.ident@
                + "` has no "@ + kind_word(gf) + " parameters"@),
        },
        None => if ctx is ItemImpl {
            Err("batch-impl: `@"@ + name
                + "` is not available on the ItemImpl entry (no trait definition to read generic parameters from)"@)
        } else {
            Err("batch-impl: `@"@ + name
                + "` is supported only by `#[batch_impl]` / `#[batch_impl_only]` (needs a trait definition to read its generic parameters; `batch_trait!` is a function-like macro without one)"@)
        },
    }
}

/// Name families, user constants, and the unknown-name error.
pub open spec fn named_family_spec(t: Seq<TokV>, name: Seq<char>, ctx: ConstCtx) -> Result<
    Option<(Seq<TokV>, int)>,
    Seq<char>,
> {
    if ctx_table(ctx) is Some && ctx_table(ctx)->Some_0.contains_key(name) {
        Ok(Some((ctx_table(ctx)->Some_0[name], 2)))
    } else {
        let star = punct_at(t, 2, '*');
        let lookup = if star {
            name + "*"@
        } else {
            name
        };
        match named_spec(lookup) {
            Some(types) => Ok(Some((seq![list_tok(types)], if star { 3 } else { 2 }))),
            None => if name == "all_fresh"@ {
                Ok(None)
            } else {
                Err("batch-impl: unknown @ constant `@"@ + lookup
                    + "`; built-ins: `@u*` `@i*` `@f*` `@num` `@scalar` and ranges `@u8..u128` `@..u128` `@u16..`"@
                    + unknown_suffix(ctx))
            },
        }
    }
}

/// Recognition of the `@` reference at `t[0]`: `Some((expansion,
/// consumed))`, `None` to keep the `@` as it is (`@N` position references,
/// `batch_trait!`'s `@trait`, the `@all_fresh` selector), or the error.
pub open spec fn try_expand_spec(t: Seq<TokV>, ctx: ConstCtx) -> Result<
    Option<(Seq<TokV>, int)>,
    Seq<char>,
> {
    if joint_punct_at(t, 1, '.') && punct_at(t, 2, '.') {
        let end_idx: int = if punct_at(t, 3, '=') {
            4
        } else {
            3
        };
        if !ident_in(t, end_idx) {
            Err(open_end_missing_msg())
        } else {
            range_result(builtin_range_open_spec(None, Some(ident_text(t[end_idx]))), end_idx + 1)
        }
    } else if !ident_in(t, 1) {
        if t.len() > 1 && t[1] is Literal {
            Ok(None)
        } else {
            Err(missing_name_msg())
        }
    } else {
        let name = ident_text(t[1]);
        if punct_at(t, 2, '=') {
            Err(definition_msg(ctx))
        } else if joint_punct_at(t, 2, '.') && punct_at(t, 3, '.') {
            range_family_spec(t, name)
        } else if name == "trait"@ {
            match ctx_path(ctx) {
                Some(p) => Ok(Some((p, 2))),
                None => if ctx is ItemImpl {
                    Err(
                        "batch-impl: `@trait` is not available on an inherent impl (there is no trait to refer to)"@,
                    )
                } else {
                    Ok(None)
                },
            }
        } else if all_marker_spec(name) is Some {
            all_family_spec(name, ctx)
        } else if generic_marker_spec(name) is Some {
            generic_family_spec(name, ctx)
        } else {
            named_family_spec(t, name, ctx)
        }
    }
}

/// The tokens from `at` on.
pub open spec fn suffix_v(tokens: Seq<Tok>, at: int) -> Seq<TokV> {
    tvs(tokens).subrange(at, tokens.len() as int)
}

fn rel_punct(tokens: &[Tok], at: usize, k: usize, c: char) -> (b: bool)
    requires
        at <= tokens@.len(),
    ensures
        b == punct_at(suffix_v(tokens@, at as int), k as int, c),
{
    match tok_at(tokens, at, k) {
        Some(t) => is_punct(t, c),
        None => false,
    }
}

fn rel_joint(tokens: &[Tok], at: usize, k: usize, c: char) -> (b: bool)
    requires
        at <= tokens@.len(),
    ensures
        b == joint_punct_at(suffix_v(tokens@, at as int), k as int, c),
{
    match tok_at(tokens, at, k) {
        Some(Tok::Punct(x, crate::token::Spacing::Joint)) => *x == c,
        _ => false,
    }
}

fn rel_ident(tokens: &[Tok], at: usize, k: usize) -> (r: Option<&String>)
    requires
        at <= tokens@.len(),
    ensures
        r is Some == ident_in(suffix_v(tokens@, at as int), k as int),
        r matches Some(x) ==> x@ == ident_text(suffix_v(tokens@, at as int)[k as int]),
{
    match tok_at(tokens, at, k) {
        Some(Tok::Ident(x)) => Some(x),
        _ => None,
    }
}

fn range_tokens(r: Result<Vec<String>, String>, consumed: usize) -> (out: Result<
    Option<(Vec<Tok>, usize)>,
    Diag,
>)
    ensures
        out matches Ok(Some((_, n))) ==> n == consumed,
        texp_view(out) == range_result(
            match r {
                Ok(v) => Ok(strs_view(v@)),
                Err(m) => Err(m@),
            },
            consumed as int,
        ),
{
    match r {
        Ok(types) => {
            let list = render_list(types.as_slice());
            let v = vec![list];
            assert(tvs(v@) =~= seq![list_tok(strs_view(types@))]);
            Ok(Some((v, consumed)))
        },
        Err(m) => Err(Diag { message: cat2("batch-impl: ", m.as_str()) }),
    }
}

/// The view of an expansion result.
pub open spec fn texp_view(r: Result<Option<(Vec<Tok>, usize)>, Diag>) -> Result<
    Option<(Seq<TokV>, int)>,
    Seq<char>,
> {
    match r {
        Ok(Some((v, n))) => Ok(Some((tvs(v@), n as int))),
        Ok(None) => Ok(None),
        Err(d) => Err(d@),
    }
}

/// Recognizes and expands the `@` constant reference at `tokens[at]`;
/// returns `Some((expanded output, tokens consumed))`, or `None` to keep
/// the `@` as it is.
///
/// Forms (`@` is `tokens[at]`): `@..end` / `@..=end` (open-left range
/// family), `@name..` / `@name..end` / `@name..=end` (range family),
/// `@trait` (the trait path), the `@all` family and generic-parameter
/// family (from the trait definition), user constants (`batch_trait!`),
/// and the name families `@u*` / `@num` / `@scalar` (with `*` consumed).
/// A definition `@name=` reaching here is an error; `@N` (a literal) is
/// kept for codegen.
pub fn try_expand_at(tokens: &[Tok], at: usize, ctx: ConstCtx) -> (r: Result<
    Option<(Vec<Tok>, usize)>,
    Diag,
>)
    requires
        at < tokens@.len(),
    ensures
        texp_view(r) == try_expand_spec(suffix_v(tokens@, at as int), ctx),
        r matches Ok(Some((_, n))) ==> 2 <= n <= tokens@.len() - at,
{
    let ghost t = suffix_v(tokens@, at as int);
    if rel_joint(tokens, at, 1, '.') && rel_punct(tokens, at, 2, '.') {
        let end_idx: usize = if rel_punct(tokens, at, 3, '=') { 4 } else { 3 };
        let end = match rel_ident(tokens, at, end_idx) {
            Some(e) => e,
            None => {
                return Err(Diag {
                    message: String::from_str(
                        "batch-impl: range constant `@..` must name the family's maximum endpoint (e.g. `@..u128`, `@..f64`)",
                    ),
                });
            },
        };
        let types = builtin_range_open(None, Some(end.as_str()));
        return range_tokens(types, end_idx + 1);
    }
    let name = match rel_ident(tokens, at, 1) {
        Some(n) => n,
        None => {
            let lit = match tok_at(tokens, at, 1) {
                Some(Tok::Literal(_)) => true,
                _ => false,
            };
            if lit {
                return Ok(None);
            }
            return Err(Diag {
                message: String::from_str(
                    "batch-impl: `@` must be followed by a constant name (e.g. `@u*`, `@u8..u128`)",
                ),
            });
        },
    };
    if rel_punct(tokens, at, 2, '=') {
        let msg = match ctx {
            ConstCtx::Trait { .. } => "batch-impl: constant definition must appear before all trait segments (only the leading position can define; end each definition with `;`)",
            _ => "batch-impl: custom constants are not supported by `#[batch_impl]` / `#[batch_impl_only]` — write the type matrix directly with `.` / space / `*` instead",
        };
        return Err(Diag { message: String::from_str(msg) });
    }
    if rel_joint(tokens, at, 2, '.') && rel_punct(tokens, at, 3, '.') {
        return range_family(tokens, at, name);
    }
    if crate::token::text_is(name, "trait") {
        return match ctx.trait_full_path() {
            Some(path) => {
                let p = copy_toks(path);
                Ok(Some((p, 2)))
            },
            None => if ctx.is_item_impl() {
                Err(Diag {
                    message: String::from_str(
                        "batch-impl: `@trait` is not available on an inherent impl (there is no trait to refer to)",
                    ),
                })
            } else {
                Ok(None)
            },
        };
    }
    if let Some(spec) = resolve_all_marker(name.as_str()) {
        return match ctx.trait_def() {
            Some(td) => {
                let ids = get_trait_item_names(td, spec.0.0, spec.0.1, spec.0.2, spec.1, spec.2);
                let list = render_list(ids.as_slice());
                let v = vec![list];
                assert(tvs(v@) =~= seq![list_tok(strs_view(ids@))]);
                Ok(Some((v, 2)))
            },
            None => if ctx.is_item_impl() {
                Err(Diag {
                    message: cat3(
                        "batch-impl: `@",
                        name.as_str(),
                        "` is not available on the ItemImpl entry (no trait definition to select items from)",
                    ),
                })
            } else {
                Err(Diag {
                    message: cat3(
                        "batch-impl: `@",
                        name.as_str(),
                        "` is supported only by `#[batch_impl]` / `#[batch_impl_only]` (needs a trait definition to select items; `batch_trait!` is a function-like macro without one)",
                    ),
                })
            },
        };
    }
    if let Some(gf) = resolve_generic_marker(name.as_str()) {
        return match ctx.trait_def() {
            Some(td) => match get_trait_generic_decl(td, gf) {
                Some(decl) => Ok(Some((decl, 2))),
                None => {
                    let word = match gf {
                        GenericFilter::Type => "type",
                        GenericFilter::Const => "const",
                        GenericFilter::Lifetime => "lifetime",
                    };
                    let mut m = cat5(
                        "batch-impl: `@",
                        name.as_str(),
                        "` cannot expand — trait `",
                        td.ident.as_str(),
                        "` has no ",
                    );
                    m.append(word);
                    m.append(" parameters");
                    Err(Diag { message: m })
                },
            },
            None => if ctx.is_item_impl() {
                Err(Diag {
                    message: cat3(
                        "batch-impl: `@",
                        name.as_str(),
                        "` is not available on the ItemImpl entry (no trait definition to read generic parameters from)",
                    ),
                })
            } else {
                Err(Diag {
                    message: cat3(
                        "batch-impl: `@",
                        name.as_str(),
                        "` is supported only by `#[batch_impl]` / `#[batch_impl_only]` (needs a trait definition to read its generic parameters; `batch_trait!` is a function-like macro without one)",
                    ),
                })
            },
        };
    }
    named_family(tokens, at, name, ctx)
}

fn range_family(tokens: &[Tok], at: usize, name: &String) -> (r: Result<
    Option<(Vec<Tok>, usize)>,
    Diag,
>)
    requires
        at < tokens@.len(),
        punct_at(suffix_v(tokens@, at as int), 3, '.'),
    ensures
        texp_view(r) == range_family_spec(suffix_v(tokens@, at as int), name@),
        r matches Ok(Some((_, n))) ==> 2 <= n <= tokens@.len() - at,
{
    let eq_adj = rel_punct(tokens, at, 4, '=') && rel_joint(tokens, at, 3, '.');
    let idx: usize = if eq_adj { 5 } else { 4 };
    let end = rel_ident(tokens, at, idx);
    match end {
        Some(e) => {
            if split_range_endpoint(e.as_str()).is_some() {
                let types = builtin_range_open(Some(name.as_str()), Some(e.as_str()));
                return range_tokens(types, idx + 1);
            }
            if eq_adj {
                return Err(Diag {
                    message: cat5(
                        "batch-impl: range constant `@",
                        name.as_str(),
                        "..=` has an invalid end point `",
                        e.as_str(),
                        "`",
                    ),
                });
            }
        },
        None => {
            if eq_adj {
                return Err(Diag {
                    message: cat3(
                        "batch-impl: range constant `@",
                        name.as_str(),
                        "..=` is missing an end point (e.g. `@u16..=u64`)",
                    ),
                });
            }
        },
    }
    let types = builtin_range_open(Some(name.as_str()), None);
    range_tokens(types, 4)
}

fn named_family(tokens: &[Tok], at: usize, name: &String, ctx: ConstCtx) -> (r: Result<
    Option<(Vec<Tok>, usize)>,
    Diag,
>)
    requires
        at < tokens@.len(),
        ident_in(suffix_v(tokens@, at as int), 1),
        name@ == ident_text(suffix_v(tokens@, at as int)[1]),
    ensures
        texp_view(r) == named_family_spec(suffix_v(tokens@, at as int), name@, ctx),
        r matches Ok(Some((_, n))) ==> 2 <= n <= tokens@.len() - at,
{
    if let Some(table) = ctx.user_table() {
        if let Some(v) = table.get(name.as_str()) {
            let c = copy_toks(v.as_slice());
            return Ok(Some((c, 2)));
        }
    }
    let star = rel_punct(tokens, at, 2, '*');
    let lookup = if star { cat2(name.as_str(), "*") } else { name.clone() };
    match builtin_named(lookup.as_str()) {
        Some(types) => {
            let owned = slices_to_strings(&types);
            let list = render_list(owned.as_slice());
            let v = vec![list];
            assert(tvs(v@) =~= seq![list_tok(strs_view(owned@))]);
            Ok(Some((v, if star { 3 } else { 2 })))
        },
        None => {
            if crate::token::text_is(name, "all_fresh") {
                return Ok(None);
            }
            let suffix = match ctx {
                ConstCtx::Trait { .. } => "; user constants must be defined before the reference (defining them later has no effect)",
                _ => "",
            };
            let mut m = cat3(
                "batch-impl: unknown @ constant `@",
                lookup.as_str(),
                "`; built-ins: `@u*` `@i*` `@f*` `@num` `@scalar` and ranges `@u8..u128` `@..u128` `@u16..`",
            );
            m.append(suffix);
            Err(Diag { message: m })
        },
    }
}

/// `@a..=b` and `@a..b` name the same range (both ends included): whenever
/// one of them expands to a list, the other expands to the same list, and
/// the `..=` form consumes all six tokens, its end point included. An `=`
/// that is not glued to the dots (`@a.. = b`) is no part of the range.
pub proof fn law_inclusive_range_matches_exclusive(
    a: Seq<char>,
    b: Seq<char>,
    at: Spacing,
    rest: Seq<TokV>,
    ctx: ConstCtx,
)
    ensures
        ({
            let excl = seq![
                TokV::Punct('@', at),
                TokV::Ident(a),
                TokV::Punct('.', Spacing::Joint),
                TokV::Punct('.', Spacing::Alone),
                TokV::Ident(b),
            ] + rest;
            let incl = seq![
                TokV::Punct('@', at),
                TokV::Ident(a),
                TokV::Punct('.', Spacing::Joint),
                TokV::Punct('.', Spacing::Joint),
                TokV::Punct('=', Spacing::Alone),
                TokV::Ident(b),
            ] + rest;
            let spaced = seq![
                TokV::Punct('@', at),
                TokV::Ident(a),
                TokV::Punct('.', Spacing::Joint),
                TokV::Punct('.', Spacing::Alone),
                TokV::Punct('=', Spacing::Alone),
                TokV::Ident(b),
            ] + rest;
            let r1 = try_expand_spec(excl, ctx);
            let r2 = try_expand_spec(incl, ctx);
            let r3 = try_expand_spec(spaced, ctx);
            &&& !(r3 is Ok && r3->Ok_0 is Some && r3->Ok_0->Some_0.1 == 6)
            &&& (r1 is Ok && r1->Ok_0 is Some && r1->Ok_0->Some_0.1 == 5 ==> r2 == Ok::<
                Option<(Seq<TokV>, int)>,
                Seq<char>,
            >(Some((r1->Ok_0->Some_0.0, 6))))
            &&& (r2 is Ok && r2->Ok_0 is Some && r2->Ok_0->Some_0.1 == 6 ==> r1 == Ok::<
                Option<(Seq<TokV>, int)>,
                Seq<char>,
            >(Some((r2->Ok_0->Some_0.0, 5))))
        }),
{
    let excl = seq![
        TokV::Punct('@', at),
        TokV::Ident(a),
        TokV::Punct('.', Spacing::Joint),
        TokV::Punct('.', Spacing::Alone),
        TokV::Ident(b),
    ] + rest;
    let incl = seq![
        TokV::Punct('@', at),
        TokV::Ident(a),
        TokV::Punct('.', Spacing::Joint),
        TokV::Punct('.', Spacing::Joint),
        TokV::Punct('=', Spacing::Alone),
        TokV::Ident(b),
    ] + rest;
    assert(excl[1] == TokV::Ident(a));
    assert(excl[2] == TokV::Punct('.', Spacing::Joint));
    assert(excl[3] == TokV::Punct('.', Spacing::Alone));
    assert(excl[4] == TokV::Ident(b));
    assert(incl[1] == TokV::Ident(a));
    assert(incl[2] == TokV::Punct('.', Spacing::Joint));
    assert(incl[3] == TokV::Punct('.', Spacing::Joint));
    assert(incl[4] == TokV::Punct('=', Spacing::Alone));
    assert(incl[5] == TokV::Ident(b));
    assert(ident_text(excl[1]) == a);
    assert(ident_text(excl[4]) == b);
    assert(ident_text(incl[5]) == b);
    let spaced = seq![
        TokV::Punct('@', at),
        TokV::Ident(a),
        TokV::Punct('.', Spacing::Joint),
        TokV::Punct('.', Spacing::Alone),
        TokV::Punct('=', Spacing::Alone),
        TokV::Ident(b),
    ] + rest;
    assert(spaced[1] == TokV::Ident(a));
    assert(spaced[2] == TokV::Punct('.', Spacing::Joint));
    assert(spaced[3] == TokV::Punct('.', Spacing::Alone));
    assert(spaced[4] == TokV::Punct('=', Spacing::Alone));
}

} // verus!
