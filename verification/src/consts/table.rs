//! Built-in constant tables and the list rendering shared by every
//! expansion (`[u8, u16, ...]`).
use vstd::prelude::*;

use crate::consts::ctx::{ConstCtx, UserConsts};
use crate::consts::expand::{
    ctx_path, ctx_table, ctx_trait, ident_in, ident_text, try_expand_at, try_expand_spec,
};
use crate::consts::value_refs::{check_value_refs, refs_spec};
use crate::diag::{Diag, depth_err, depth_msg, lemma_seq_then_assoc, res_view, seq_then};
use crate::text::{cat3, starts_with, strs_view};
use crate::token::{
    Delim, MAX_NEST_DEPTH, Spacing, Tok, TokV, bracket_is_passthrough, copy_range, copy_tok, group_at,
    group_tok_view, impl_template_at, inner_v, is_group_at, is_impl_template, lemma_tvs_concat,
    lemma_tvs_push, is_punct, passthrough_at, punct_at, punct_v, tv, tvs,
};
use crate::trait_items::comma_join;

verus! {

broadcast use group_tok_view;

/// The built-in name families.
pub open spec fn named_spec(name: Seq<char>) -> Option<Seq<Seq<char>>> {
    if name == "u*"@ {
        Some(seq!["u8"@, "u16"@, "u32"@, "u64"@, "u128"@, "usize"@])
    } else if name == "i*"@ {
        Some(seq!["i8"@, "i16"@, "i32"@, "i64"@, "i128"@, "isize"@])
    } else if name == "f*"@ {
        Some(seq!["f32"@, "f64"@])
    } else if name == "num"@ {
        Some(
            seq![
                "u8"@,
                "u16"@,
                "u32"@,
                "u64"@,
                "u128"@,
                "usize"@,
                "i8"@,
                "i16"@,
                "i32"@,
                "i64"@,
                "i128"@,
                "isize"@,
                "f32"@,
                "f64"@,
            ],
        )
    } else if name == "scalar"@ {
        Some(
            seq![
                "u8"@,
                "u16"@,
                "u32"@,
                "u64"@,
                "u128"@,
                "usize"@,
                "i8"@,
                "i16"@,
                "i32"@,
                "i64"@,
                "i128"@,
                "isize"@,
                "f32"@,
                "f64"@,
                "bool"@,
                "char"@,
            ],
        )
    } else {
        None
    }
}

/// `@num` is `@u*`, `@i*` and `@f*` one after the other, `@scalar` is
/// `@num` followed by `bool` and `char`, and no type occurs twice in them
/// (each would be one impl).
pub proof fn law_num_is_the_three_families()
    ensures
        named_spec("num"@) == Some(
            named_spec("u*"@)->Some_0 + named_spec("i*"@)->Some_0 + named_spec("f*"@)->Some_0,
        ),
        named_spec("scalar"@) == Some(named_spec("num"@)->Some_0 + seq!["bool"@, "char"@]),
        forall|i: int, j: int|
            0 <= i < j < named_spec("scalar"@)->Some_0.len() ==> #[trigger] named_spec("scalar"@)->Some_0[i]
                != #[trigger] named_spec("scalar"@)->Some_0[j],
{
    reveal_strlit("u*");
    reveal_strlit("i*");
    reveal_strlit("f*");
    reveal_strlit("num");
    reveal_strlit("scalar");
    reveal_strlit("u8");
    reveal_strlit("u16");
    reveal_strlit("u32");
    reveal_strlit("u64");
    reveal_strlit("u128");
    reveal_strlit("usize");
    reveal_strlit("i8");
    reveal_strlit("i16");
    reveal_strlit("i32");
    reveal_strlit("i64");
    reveal_strlit("i128");
    reveal_strlit("isize");
    reveal_strlit("f32");
    reveal_strlit("f64");
    reveal_strlit("bool");
    reveal_strlit("char");
    assert("u*"@.len() == 2);
    assert("i*"@.len() == 2);
    assert("f*"@.len() == 2);
    assert("num"@.len() == 3);
    assert("scalar"@.len() == 6);
    assert("u8"@.len() == 2);
    assert("u16"@.len() == 3);
    assert("u32"@.len() == 3);
    assert("u64"@.len() == 3);
    assert("u128"@.len() == 4);
    assert("usize"@.len() == 5);
    assert("i8"@.len() == 2);
    assert("i16"@.len() == 3);
    assert("i32"@.len() == 3);
    assert("i64"@.len() == 3);
    assert("i128"@.len() == 4);
    assert("isize"@.len() == 5);
    assert("f32"@.len() == 3);
    assert("f64"@.len() == 3);
    assert("bool"@.len() == 4);
    assert("char"@.len() == 4);
    let u = named_spec("u*"@)->Some_0;
    let i = named_spec("i*"@)->Some_0;
    let f = named_spec("f*"@)->Some_0;
    let num = named_spec("num"@)->Some_0;
    let sc = named_spec("scalar"@)->Some_0;
    assert(u == seq!["u8"@, "u16"@, "u32"@, "u64"@, "u128"@, "usize"@]);
    assert("i*"@[0] == 'i');
    assert("u*"@[0] == 'u');
    assert("f*"@[0] == 'f');
    assert(i == seq!["i8"@, "i16"@, "i32"@, "i64"@, "i128"@, "isize"@]);
    assert(f == seq!["f32"@, "f64"@]);
    assert(num.len() == 14);
    assert(num =~= u + i + f);
    assert(sc =~= num + seq!["bool"@, "char"@]);
    assert forall|a: int, b: int| 0 <= a < b < sc.len() implies #[trigger] sc[a] != #[trigger] sc[b] by {
        if sc[a] == sc[b] {
            assert(sc[a].len() == sc[b].len());
            assert(sc[a][0] == sc[b][0]);
            assert(sc[a][sc[a].len() - 1] == sc[b][sc[b].len() - 1]);
            assert(sc[a].len() > 2 ==> sc[a][1] == sc[b][1] && sc[a][2] == sc[b][2]);
        }
    }
}

/// The texts of a list of string slices.
pub open spec fn slices_view(v: Seq<&str>) -> Seq<Seq<char>> {
    Seq::new(v.len(), |i: int| v[i]@)
}

/// Built-in name families: `@name` → list of type names.
pub fn builtin_named(name: &str) -> (r: Option<Vec<&'static str>>)
    ensures
        r matches Some(v) ==> named_spec(name@) == Some(slices_view(v@)),
        r is None ==> named_spec(name@) is None,
{
    let n = String::from_str(name);
    let r: Option<Vec<&'static str>> = if crate::token::text_is(&n, "u*") {
        Some(vec!["u8", "u16", "u32", "u64", "u128", "usize"])
    } else if crate::token::text_is(&n, "i*") {
        Some(vec!["i8", "i16", "i32", "i64", "i128", "isize"])
    } else if crate::token::text_is(&n, "f*") {
        Some(vec!["f32", "f64"])
    } else if crate::token::text_is(&n, "num") {
        Some(
            vec![
                "u8",
                "u16",
                "u32",
                "u64",
                "u128",
                "usize",
                "i8",
                "i16",
                "i32",
                "i64",
                "i128",
                "isize",
                "f32",
                "f64",
            ],
        )
    } else if crate::token::text_is(&n, "scalar") {
        Some(
            vec![
                "u8",
                "u16",
                "u32",
                "u64",
                "u128",
                "usize",
                "i8",
                "i16",
                "i32",
                "i64",
                "i128",
                "isize",
                "f32",
                "f64",
                "bool",
                "char",
            ],
        )
    } else {
        None
    };
    proof {
        if r is Some {
            assert(slices_view(r->Some_0@) =~= named_spec(name@)->Some_0);
        }
    }
    r
}

/// The owned copies of a list of string slices.
pub fn slices_to_strings(v: &Vec<&str>) -> (r: Vec<String>)
    ensures
        strs_view(r@) == slices_view(v@),
{
    let mut r: Vec<String> = Vec::new();
    let mut k: usize = 0;
    while k < v.len()
        invariant
            k <= v@.len(),
            strs_view(r@) == slices_view(v@).subrange(0, k as int),
        decreases v@.len() - k,
    {
        let ghost old = r@;
        let item: &str = v[k];
        let owned = String::from_str(item);
        assert(owned@ == v@[k as int]@);
        r.push(owned);
        assert(strs_view(old).len() == k);
        assert forall|j: int| 0 <= j < k + 1 implies #[trigger] strs_view(r@)[j] == slices_view(v@).subrange(0, k + 1)[j] by {
            if j < k {
                assert(strs_view(r@)[j] == strs_view(old)[j]);
            }
        }
        assert(strs_view(r@) =~= slices_view(v@).subrange(0, k + 1));
        k += 1;
    }
    assert(slices_view(v@).subrange(0, v@.len() as int) =~= slices_view(v@));
    r
}

/// One identifier per name, as the parts of a comma list.
pub open spec fn ident_parts(names: Seq<Seq<char>>) -> Seq<Seq<TokV>> {
    Seq::new(names.len(), |i: int| seq![TokV::Ident(names[i])])
}

/// The bracket list `[a, b, c]` of the names.
pub open spec fn list_tok(names: Seq<Seq<char>>) -> TokV {
    TokV::Group(Delim::Bracket, comma_join(ident_parts(names)))
}

/// Renders a list of type names as a bracket list group (`[u8, u16, ...]`).
pub fn render_list(names: &[String]) -> (t: Tok)
    ensures
        t@ == list_tok(strs_view(names@)),
{
    let ghost ns = strs_view(names@);
    let mut body: Vec<Tok> = Vec::new();
    let mut k: usize = 0;
    while k < names.len()
        invariant
            k <= names@.len(),
            ns == strs_view(names@),
            tvs(body@) == comma_join(ident_parts(ns.subrange(0, k as int))),
        decreases names@.len() - k,
    {
        let ghost old = body@;
        if k > 0 {
            let comma = Tok::Punct(',', Spacing::Alone);
            body.push(comma);
            proof {
                lemma_tvs_push(old, comma);
            }
        }
        let ghost mid = body@;
        let id = Tok::Ident(names[k].clone());
        body.push(id);
        proof {
            lemma_tvs_push(mid, id);
            let parts = ident_parts(ns.subrange(0, k + 1));
            assert(parts.drop_last() =~= ident_parts(ns.subrange(0, k as int)));
            assert(parts.last() == seq![TokV::Ident(ns[k as int])]);
            if k == 0 {
                assert(tvs(body@) =~= comma_join(parts));
            } else {
                assert(tvs(body@) =~= comma_join(parts));
            }
        }
        k += 1;
    }
    assert(ns.subrange(0, names@.len() as int) =~= ns);
    Tok::Group(Delim::Bracket, body)
}

} // verus!

verus! {

/// `@` constant expansion of a whole token list at nesting `depth`.
pub open spec fn consts_spec(s: Seq<TokV>, ctx: ConstCtx, depth: nat) -> Result<
    Seq<TokV>,
    Seq<char>,
>
    decreases MAX_NEST_DEPTH + 1 - depth, s.len() + 1,
{
    if depth > MAX_NEST_DEPTH {
        Err(depth_msg(""@))
    } else {
        consts_from(s, 0, ctx, depth)
    }
}

pub open spec fn consts_from(s: Seq<TokV>, i: int, ctx: ConstCtx, depth: nat) -> Result<
    Seq<TokV>,
    Seq<char>,
>
    decreases MAX_NEST_DEPTH + 1 - depth, s.len() - i,
{
    if depth > MAX_NEST_DEPTH {
        Err(depth_msg(""@))
    } else if i < 0 || i >= s.len() {
        Ok(Seq::empty())
    } else {
        match s[i] {
            TokV::Group(d, inner) => if d == Delim::Brace {
                seq_then(seq![s[i]], consts_from(s, i + 1, ctx, depth))
            } else if passthrough_at(s, i) {
                seq_then(seq![s[i]], consts_from(s, i + 1, ctx, depth))
            } else if depth + 1 > MAX_NEST_DEPTH {
                Err(depth_msg(""@))
            } else {
                match consts_spec(inner, ctx, depth + 1) {
                    Err(e) => Err(e),
                    Ok(x) => seq_then(seq![TokV::Group(d, x)], consts_from(s, i + 1, ctx, depth)),
                }
            },
            TokV::Punct(c, _) => if c == '@' {
                if group_at(s, i + 1, Delim::Brace) {
                    seq_then(seq![s[i], s[i + 1]], consts_from(s, i + 2, ctx, depth))
                } else {
                    match try_expand_spec(s.subrange(i, s.len() as int), ctx) {
                        Err(e) => Err(e),
                        Ok(Some((exp, n))) => if n >= 1 {
                            match consts_spec(exp, ctx, depth + 1) {
                                Err(e) => Err(e),
                                Ok(x) => seq_then(x, consts_from(s, i + n, ctx, depth)),
                            }
                        } else {
                            Err(Seq::empty())
                        },
                        Ok(None) => seq_then(seq![s[i]], consts_from(s, i + 1, ctx, depth)),
                    }
                }
            } else {
                seq_then(seq![s[i]], consts_from(s, i + 1, ctx, depth))
            },
            TokV::Ident(w) => if (w == "where"@ || impl_template_at(s, i)) && group_at(
                s,
                i + 1,
                Delim::Brace,
            ) {
                match consts_spec(inner_v(s[i + 1]), ctx, depth + 1) {
                    Err(e) => Err(e),
                    Ok(x) => seq_then(
                        seq![s[i], TokV::Group(Delim::Brace, x)],
                        consts_from(s, i + 2, ctx, depth),
                    ),
                }
            } else {
                seq_then(seq![s[i]], consts_from(s, i + 1, ctx, depth))
            },
            _ => seq_then(seq![s[i]], consts_from(s, i + 1, ctx, depth)),
        }
    }
}

/// Two contexts expose the same sources: the same trait path, trait
/// definition and user table, and the same entry kind.
pub open spec fn same_sources(c1: ConstCtx, c2: ConstCtx) -> bool {
    &&& ctx_path(c1) == ctx_path(c2)
    &&& ctx_trait(c1) == ctx_trait(c2)
    &&& ctx_table(c1) == ctx_table(c2)
    &&& (c1 is ItemImpl <==> c2 is ItemImpl)
    &&& (c1 is Trait <==> c2 is Trait)
}

proof fn lemma_try_expand_congruent(t: Seq<TokV>, c1: ConstCtx, c2: ConstCtx)
    requires
        same_sources(c1, c2),
    ensures
        try_expand_spec(t, c1) == try_expand_spec(t, c2),
{
}

/// Constant expansion reads a context only through what it exposes.
pub proof fn lemma_consts_congruent(s: Seq<TokV>, c1: ConstCtx, c2: ConstCtx, depth: nat)
    requires
        same_sources(c1, c2),
    ensures
        consts_spec(s, c1, depth) == consts_spec(s, c2, depth),
    decreases MAX_NEST_DEPTH + 1 - depth, s.len() + 1,
{
    if depth <= MAX_NEST_DEPTH {
        lemma_consts_from_congruent(s, 0, c1, c2, depth);
    }
}

proof fn lemma_consts_from_congruent(s: Seq<TokV>, i: int, c1: ConstCtx, c2: ConstCtx, depth: nat)
    requires
        same_sources(c1, c2),
    ensures
        consts_from(s, i, c1, depth) == consts_from(s, i, c2, depth),
    decreases MAX_NEST_DEPTH + 1 - depth, s.len() - i,
{
    if depth > MAX_NEST_DEPTH || i < 0 || i >= s.len() {
    } else {
        match s[i] {
            TokV::Group(d, inner) => {
                lemma_consts_from_congruent(s, i + 1, c1, c2, depth);
                if !(d == Delim::Brace || passthrough_at(s, i)) && depth + 1 <= MAX_NEST_DEPTH {
                    assert(decreases_to!(s => s[i]));
                    lemma_consts_congruent(inner, c1, c2, depth + 1);
                }
            },
            TokV::Punct(c, _) => {
                lemma_consts_from_congruent(s, i + 1, c1, c2, depth);
                if c == '@' {
                    if group_at(s, i + 1, Delim::Brace) {
                        lemma_consts_from_congruent(s, i + 2, c1, c2, depth);
                    } else {
                        let t = s.subrange(i, s.len() as int);
                        lemma_try_expand_congruent(t, c1, c2);
                        match try_expand_spec(t, c1) {
                            Ok(Some((exp, n))) => if n >= 1 {
                                if depth + 1 <= MAX_NEST_DEPTH {
                                    lemma_consts_congruent(exp, c1, c2, depth + 1);
                                }
                                if i + n <= s.len() {
                                    lemma_consts_from_congruent(s, i + n, c1, c2, depth);
                                }
                            },
                            _ => {},
                        }
                    }
                }
            },
            TokV::Ident(w) => {
                lemma_consts_from_congruent(s, i + 1, c1, c2, depth);
                if i + 1 < s.len() && depth + 1 <= MAX_NEST_DEPTH {
                    assert(decreases_to!(s => s[i + 1]));
                    lemma_consts_congruent(inner_v(s[i + 1]), c1, c2, depth + 1);
                }
                if i + 2 <= s.len() {
                    lemma_consts_from_congruent(s, i + 2, c1, c2, depth);
                }
            },
            _ => {
                lemma_consts_from_congruent(s, i + 1, c1, c2, depth);
            },
        }
    }
}

/// Expands `@` constant references (built-in families, trait-aware
/// constants, user table). Brace groups (bodies: `x @ pat` there is pattern
/// syntax) and passthrough groups (macro bodies, attributes) are not
/// entered, except the DSL brace suffixes `where{...}` / `impl{...}`. An
/// expansion is expanded again (lazy user constants), one level deeper.
pub fn expand_consts(tokens: &[Tok], ctx: ConstCtx) -> (r: Result<Vec<Tok>, Diag>)
    ensures
        res_view(r) == consts_spec(tvs(tokens@), ctx, 0),
{
    expand_consts_at(tokens, ctx, 0)
}

fn expand_consts_at(tokens: &[Tok], ctx: ConstCtx, depth: usize) -> (r: Result<Vec<Tok>, Diag>)
    ensures
        res_view(r) == consts_spec(tvs(tokens@), ctx, depth as nat),
    decreases MAX_NEST_DEPTH + 1 - depth,
{
    if depth > MAX_NEST_DEPTH {
        return Err(depth_err(""));
    }
    let ghost s = tvs(tokens@);
    let n = tokens.len();
    let mut result: Vec<Tok> = Vec::new();
    let mut i: usize = 0;
    while i < n
        invariant
            n == tokens@.len(),
            i <= n,
            depth <= MAX_NEST_DEPTH,
            s == tvs(tokens@),
            consts_spec(s, ctx, depth as nat) == seq_then(
                tvs(result@),
                consts_from(s, i as int, ctx, depth as nat),
            ),
        decreases n - i,
    {
        let ghost old = result@;
        match &tokens[i] {
            Tok::Group(d, g) => {
                if *d == Delim::Brace || bracket_is_passthrough(tokens, i) {
                    let t = copy_tok(&tokens[i]);
                    result.push(t);
                    proof {
                        lemma_tvs_push(old, t);
                        lemma_seq_then_assoc(tvs(old), seq![tv(t)], consts_from(s, i + 1, ctx, depth as nat));
                    }
                } else {
                    if depth + 1 > MAX_NEST_DEPTH {
                        return Err(depth_err(""));
                    }
                    match expand_consts_at(g.as_slice(), ctx, depth + 1) {
                        Err(e) => return Err(e),
                        Ok(x) => {
                            let ng = Tok::Group(*d, x);
                            result.push(ng);
                            proof {
                                lemma_tvs_push(old, ng);
                                lemma_seq_then_assoc(tvs(old), seq![tv(ng)], consts_from(s, i + 1, ctx, depth as nat));
                            }
                        },
                    }
                }
                i += 1;
            },
            Tok::Punct(c, _) if *c == '@' => {
                let consumed = expand_at(tokens, i, ctx, depth, &mut result);
                match consumed {
                    Err(e) => return Err(e),
                    Ok(k) => {
                        proof {
                            let piece = tvs(result@).subrange(old.len() as int, result@.len() as int);
                            assert(tvs(result@) =~= tvs(old) + piece);
                            lemma_seq_then_assoc(tvs(old), piece, consts_from(s, i + k, ctx, depth as nat));
                        }
                        i += k;
                    },
                }
            },
            Tok::Ident(w) => {
                if (crate::token::text_is(w, "where") || is_impl_template(tokens, i)) && i + 1 < n
                    && is_group_at(tokens, i + 1, Delim::Brace) {
                    match &tokens[i + 1] {
                        Tok::Group(_, g) => {
                            match expand_consts_at(g.as_slice(), ctx, depth + 1) {
                                Err(e) => return Err(e),
                                Ok(x) => {
                                    let kw = copy_tok(&tokens[i]);
                                    let ng = Tok::Group(Delim::Brace, x);
                                    result.push(kw);
                                    let ghost mid = result@;
                                    result.push(ng);
                                    proof {
                                        lemma_tvs_push(old, kw);
                                        lemma_tvs_push(mid, ng);
                                        assert(tvs(result@) =~= tvs(old) + seq![tv(kw), tv(ng)]);
                                        lemma_seq_then_assoc(
                                            tvs(old),
                                            seq![tv(kw), tv(ng)],
                                            consts_from(s, i + 2, ctx, depth as nat),
                                        );
                                    }
                                    i += 2;
                                },
                            }
                        },
                        _ => {
                            return Err(depth_err(""));
                        },
                    }
                } else {
                    let t = copy_tok(&tokens[i]);
                    result.push(t);
                    proof {
                        lemma_tvs_push(old, t);
                        lemma_seq_then_assoc(tvs(old), seq![tv(t)], consts_from(s, i + 1, ctx, depth as nat));
                    }
                    i += 1;
                }
            },
            _ => {
                let t = copy_tok(&tokens[i]);
                result.push(t);
                proof {
                    lemma_tvs_push(old, t);
                    lemma_seq_then_assoc(tvs(old), seq![tv(t)], consts_from(s, i + 1, ctx, depth as nat));
                }
                i += 1;
            },
        }
    }
    Ok(result)
}

/// Expands the `@` at `tokens[i]` into `result`: a carrier (`@` + brace
/// group: a fresh reference or the body-slot switch) passes through; an
/// expansion is expanded again one level deeper; a kept `@` is copied.
/// Returns how many tokens were consumed at `i`.
fn expand_at(
    tokens: &[Tok],
    i: usize,
    ctx: ConstCtx,
    depth: usize,
    result: &mut Vec<Tok>,
) -> (r: Result<usize, Diag>)
    requires
        i < tokens@.len(),
        depth <= MAX_NEST_DEPTH,
        punct_v(tvs(tokens@)[i as int], '@'),
    ensures
        final(result)@.len() >= old(result)@.len(),
        match r {
            Ok(k) => 1 <= k <= tokens@.len() - i && consts_from(tvs(tokens@), i as int, ctx, depth as nat) == seq_then(
                tvs(final(result)@).subrange(old(result)@.len() as int, final(result)@.len() as int),
                consts_from(tvs(tokens@), i + k, ctx, depth as nat),
            ) && tvs(final(result)@).subrange(0, old(result)@.len() as int) == tvs(old(result)@),
            Err(d) => consts_from(tvs(tokens@), i as int, ctx, depth as nat) == Err::<
                Seq<TokV>,
                Seq<char>,
            >(d@),
        },
    decreases MAX_NEST_DEPTH + 1 - depth, 0nat,
{
    let ghost s = tvs(tokens@);
    let ghost old_r = result@;
    let n = tokens.len();
    if i + 1 < n && is_group_at(tokens, i + 1, Delim::Brace) {
        let a = copy_tok(&tokens[i]);
        let b = copy_tok(&tokens[i + 1]);
        result.push(a);
        let ghost mid = result@;
        result.push(b);
        proof {
            lemma_tvs_push(old_r, a);
            lemma_tvs_push(mid, b);
            assert(tvs(result@).subrange(old_r.len() as int, result@.len() as int) =~= seq![tv(a), tv(b)]);
            assert(tvs(result@).subrange(0, old_r.len() as int) =~= tvs(old_r));
        }
        return Ok(2);
    }
    match try_expand_at(tokens, i, ctx) {
        Err(e) => Err(e),
        Ok(Some((expanded, consumed))) => {
            match expand_consts_at(expanded.as_slice(), ctx, depth + 1) {
                Err(e) => Err(e),
                Ok(x) => {
                    let mut x = x;
                    let ghost xv = x@;
                    result.append(&mut x);
                    proof {
                        lemma_tvs_concat(old_r, xv);
                        assert(tvs(result@).subrange(old_r.len() as int, result@.len() as int) =~= tvs(xv));
                        assert(tvs(result@).subrange(0, old_r.len() as int) =~= tvs(old_r));
                    }
                    Ok(consumed)
                },
            }
        },
        Ok(None) => {
            let t = copy_tok(&tokens[i]);
            result.push(t);
            proof {
                lemma_tvs_push(old_r, t);
                assert(tvs(result@).subrange(old_r.len() as int, result@.len() as int) =~= seq![tv(t)]);
                assert(tvs(result@).subrange(0, old_r.len() as int) =~= tvs(old_r));
            }
            Ok(1)
        },
    }
}

} // verus!

verus! {

/// The first depth-0 `;` at or after `j`.
pub open spec fn semi_from(s: Seq<TokV>, j: int) -> Option<int>
    decreases s.len() - j,
{
    if j < 0 || j >= s.len() {
        None
    } else if punct_v(s[j], ';') {
        Some(j)
    } else {
        semi_from(s, j + 1)
    }
}

/// `@all` and `@all_*` are reserved item selectors.
pub open spec fn reserved_all(name: Seq<char>) -> bool {
    name == "all"@ || ("all_"@.len() <= name.len() && name.subrange(0, "all_"@.len() as int)
        == "all_"@)
}

/// The leading `@name=value;` definitions from `i` on, added to `table`:
/// the remaining tokens and the final table, or the first error.
pub open spec fn user_consts_from(s: Seq<TokV>, i: int, table: Map<Seq<char>, Seq<TokV>>) -> Result<
    (Seq<TokV>, Map<Seq<char>, Seq<TokV>>),
    Seq<char>,
>
    decreases s.len() - i,
{
    if i < 0 || i > s.len() {
        Err(Seq::empty())
    } else if !(punct_at(s, i, '@') && ident_in(s, i + 1) && punct_at(s, i + 2, '=')) {
        Ok((s.subrange(i, s.len() as int), table))
    } else {
        let name = ident_text(s[i + 1]);
        if name == "trait"@ {
            Err(
                "batch-impl: constant name `@trait` is a reserved marker (segment-level substitution into a trait path); please rename"@,
            )
        } else if reserved_all(name) {
            Err("batch-impl: constant name `@"@ + name
                + "` is a reserved `@all` selector; please rename"@)
        } else if named_spec(name) is Some {
            Err("batch-impl: user constant `@"@ + name
                + "` collides with a built-in constant name; please rename"@)
        } else {
            match semi_from(s, i + 3) {
                None => Err("batch-impl: constant definition `@"@ + name
                    + "=...` is missing the trailing `;`"@),
                Some(j) => if j < i + 3 || j >= s.len() {
                    Err(Seq::empty())
                } else {
                    let value = s.subrange(i + 3, j);
                    match refs_spec(value, table, name, 0) {
                        Err(e) => Err(e),
                        Ok(_) => user_consts_from(s, j + 1, table.insert(name, value)),
                    }
                },
            }
        }
    }
}

/// The name of a definition `@name=` starting at `i`.
fn definition_head(tokens: &[Tok], i: usize) -> (r: Option<&String>)
    requires
        i <= tokens@.len(),
    ensures
        r is Some == (punct_at(tvs(tokens@), i as int, '@') && ident_in(tvs(tokens@), i + 1)
            && punct_at(tvs(tokens@), i + 2, '=')),
        r matches Some(x) ==> x@ == ident_text(tvs(tokens@)[i + 1]) && i + 2 < tokens@.len(),
{
    let n = tokens.len();
    if i < n && 2 < n - i && is_punct(&tokens[i], '@') && is_punct(&tokens[i + 2], '=') {
        match &tokens[i + 1] {
            Tok::Ident(name) => Some(name),
            _ => None,
        }
    } else {
        None
    }
}

/// Collects `batch_trait!`'s leading user constant definitions
/// `@name=value;` (zero or more): the remaining tokens and the table. The
/// names `@trait` and `@all*` are reserved, built-in names may not be
/// redefined, each value ends at the next `;`, and its references must
/// already be visible ([`check_value_refs`]).
pub fn collect_user_consts(tokens: &[Tok]) -> (r: Result<(Vec<Tok>, UserConsts), Diag>)
    ensures
        match r {
            Ok((rest, table)) => user_consts_from(
                tvs(tokens@),
                0,
                Map::<Seq<char>, Seq<TokV>>::empty(),
            ) == Ok::<(Seq<TokV>, Map<Seq<char>, Seq<TokV>>), Seq<char>>((tvs(rest@), table@)),
            Err(d) => user_consts_from(tvs(tokens@), 0, Map::<Seq<char>, Seq<TokV>>::empty())
                == Err::<(Seq<TokV>, Map<Seq<char>, Seq<TokV>>), Seq<char>>(d@),
        },
{
    let ghost s = tvs(tokens@);
    let n = tokens.len();
    let mut i: usize = 0;
    let mut table = UserConsts::new();
    loop
        invariant
            n == tokens@.len(),
            i <= n,
            s == tvs(tokens@),
            user_consts_from(s, 0, Map::<Seq<char>, Seq<TokV>>::empty()) == user_consts_from(
                s,
                i as int,
                table@,
            ),
        ensures
            i <= n,
            !(punct_at(s, i as int, '@') && ident_in(s, i + 1) && punct_at(s, i + 2, '=')),
            user_consts_from(s, 0, Map::<Seq<char>, Seq<TokV>>::empty()) == user_consts_from(
                s,
                i as int,
                table@,
            ),
        decreases n - i,
    {
        let name = match definition_head(tokens, i) {
            Some(name) => name,
            None => break,
        };
        if crate::token::text_is(name, "trait") {
            return Err(Diag {
                message: String::from_str(
                    "batch-impl: constant name `@trait` is a reserved marker (segment-level substitution into a trait path); please rename",
                ),
            });
        }
        if crate::token::text_is(name, "all") || starts_with(name.as_str(), "all_") {
            return Err(Diag {
                message: cat3(
                    "batch-impl: constant name `@",
                    name.as_str(),
                    "` is a reserved `@all` selector; please rename",
                ),
            });
        }
        if builtin_named(name.as_str()).is_some() {
            return Err(Diag {
                message: cat3(
                    "batch-impl: user constant `@",
                    name.as_str(),
                    "` collides with a built-in constant name; please rename",
                ),
            });
        }
        let mut j = i + 3;
        while j < n && !is_punct(&tokens[j], ';')
            invariant
                n == tokens@.len(),
                i + 3 <= j <= n,
                s == tvs(tokens@),
                semi_from(s, i + 3) == semi_from(s, j as int),
            decreases n - j,
        {
            j += 1;
        }
        let end = if j < n {
            j
        } else {
            {
                return Err(Diag {
                    message: cat3(
                        "batch-impl: constant definition `@",
                        name.as_str(),
                        "=...` is missing the trailing `;`",
                    ),
                });
            }
        };
        let value = copy_range(tokens, i + 3, end);
        match check_value_refs(value.as_slice(), &table, name.as_str()) {
            Err(e) => return Err(e),
            Ok(_) => {},
        }
        table.insert(name.clone(), value);
        i = end + 1;
    }
    let rest = copy_range(tokens, i, n);
    Ok((rest, table))
}

} // verus!

verus! {

/// No `@` punctuation anywhere in `s` from `i` on (groups included).
pub open spec fn no_at_from(s: Seq<TokV>, i: int) -> bool
    decreases s, s.len() - i,
{
    if i < 0 || i >= s.len() {
        true
    } else {
        !punct_v(s[i], '@') && match s[i] {
            TokV::Group(_, inner) => no_at_from(inner, 0),
            _ => true,
        } && no_at_from(s, i + 1)
    }
}

proof fn lemma_consts_identity(s: Seq<TokV>, ctx: ConstCtx, depth: nat)
    requires
        no_at_from(s, 0),
        consts_spec(s, ctx, depth) is Ok,
    ensures
        consts_spec(s, ctx, depth)->Ok_0 == s,
    decreases MAX_NEST_DEPTH + 1 - depth, s.len() + 1,
{
    lemma_consts_identity_from(s, 0, ctx, depth);
    assert(s.subrange(0, s.len() as int) =~= s);
}

proof fn lemma_no_at_suffix(s: Seq<TokV>, i: int, k: int)
    requires
        0 <= i <= k,
        no_at_from(s, i),
    ensures
        no_at_from(s, k),
    decreases k - i,
{
    if i < k && i < s.len() {
        lemma_no_at_suffix(s, i + 1, k);
    }
}

proof fn lemma_consts_identity_from(s: Seq<TokV>, i: int, ctx: ConstCtx, depth: nat)
    requires
        0 <= i <= s.len(),
        no_at_from(s, i),
        consts_from(s, i, ctx, depth) is Ok,
    ensures
        consts_from(s, i, ctx, depth)->Ok_0 == s.subrange(i, s.len() as int),
    decreases MAX_NEST_DEPTH + 1 - depth, s.len() - i,
{
    if depth <= MAX_NEST_DEPTH && i < s.len() {
        let o = consts_from(s, i, ctx, depth)->Ok_0;
        match s[i] {
            TokV::Group(d, inner) => {
                lemma_consts_identity_from(s, i + 1, ctx, depth);
                if d != Delim::Brace && !passthrough_at(s, i) {
                    lemma_consts_identity(inner, ctx, depth + 1);
                }
                assert(o =~= s.subrange(i, s.len() as int));
            },
            TokV::Ident(w) => {
                if (w == "where"@ || impl_template_at(s, i)) && group_at(s, i + 1, Delim::Brace) {
                    assert(no_at_from(s, i + 1));
                    assert(no_at_from(inner_v(s[i + 1]), 0));
                    lemma_no_at_suffix(s, i + 1, i + 2);
                    lemma_consts_identity_from(s, i + 2, ctx, depth);
                    lemma_consts_identity(inner_v(s[i + 1]), ctx, depth + 1);
                    assert(o =~= s.subrange(i, s.len() as int));
                } else {
                    lemma_consts_identity_from(s, i + 1, ctx, depth);
                    assert(o =~= s.subrange(i, s.len() as int));
                }
            },
            _ => {
                lemma_consts_identity_from(s, i + 1, ctx, depth);
                assert(o =~= s.subrange(i, s.len() as int));
            },
        }
    }
}

/// Constant expansion is lexical substitution of `@` references only: a
/// token list without any `@` comes back unchanged.
pub proof fn law_consts_only_touch_references(s: Seq<TokV>, ctx: ConstCtx)
    requires
        no_at_from(s, 0),
        consts_spec(s, ctx, 0) is Ok,
    ensures
        consts_spec(s, ctx, 0)->Ok_0 == s,
{
    lemma_consts_identity(s, ctx, 0);
}

/// Every `@` in `s` from `i` on (groups included) is one that constant
/// expansion keeps as it is: the head of a carrier `@{..}`, or an `@` whose
/// reference [`try_expand_spec`] leaves in place (a position reference
/// `@N`, `@all_fresh`, or `batch_trait!`'s `@trait`).
pub open spec fn kept_refs_from(s: Seq<TokV>, i: int, ctx: ConstCtx) -> bool
    decreases s, s.len() - i,
{
    if i < 0 || i >= s.len() {
        true
    } else if punct_v(s[i], '@') {
        if group_at(s, i + 1, Delim::Brace) {
            kept_refs_from(s, i + 2, ctx)
        } else {
            try_expand_spec(s.subrange(i, s.len() as int), ctx) == Ok::<
                Option<(Seq<TokV>, int)>,
                Seq<char>,
            >(None) && kept_refs_from(s, i + 1, ctx)
        }
    } else {
        match s[i] {
            TokV::Group(_, inner) => kept_refs_from(inner, 0, ctx) && kept_refs_from(s, i + 1, ctx),
            _ => kept_refs_from(s, i + 1, ctx),
        }
    }
}

proof fn lemma_kept_identity(s: Seq<TokV>, ctx: ConstCtx, depth: nat)
    requires
        kept_refs_from(s, 0, ctx),
        consts_spec(s, ctx, depth) is Ok,
    ensures
        consts_spec(s, ctx, depth)->Ok_0 == s,
    decreases MAX_NEST_DEPTH + 1 - depth, s.len() + 1,
{
    lemma_kept_identity_from(s, 0, ctx, depth);
    assert(s.subrange(0, s.len() as int) =~= s);
}

proof fn lemma_kept_identity_from(s: Seq<TokV>, i: int, ctx: ConstCtx, depth: nat)
    requires
        0 <= i <= s.len(),
        kept_refs_from(s, i, ctx),
        consts_from(s, i, ctx, depth) is Ok,
    ensures
        consts_from(s, i, ctx, depth)->Ok_0 == s.subrange(i, s.len() as int),
    decreases MAX_NEST_DEPTH + 1 - depth, s.len() - i,
{
    if depth <= MAX_NEST_DEPTH && i < s.len() {
        let o = consts_from(s, i, ctx, depth)->Ok_0;
        if punct_v(s[i], '@') {
            if group_at(s, i + 1, Delim::Brace) {
                lemma_kept_identity_from(s, i + 2, ctx, depth);
                assert(o =~= s.subrange(i, s.len() as int));
            } else {
                lemma_kept_identity_from(s, i + 1, ctx, depth);
                assert(o =~= s.subrange(i, s.len() as int));
            }
        } else {
            match s[i] {
                TokV::Group(d, inner) => {
                    lemma_kept_identity_from(s, i + 1, ctx, depth);
                    if d != Delim::Brace && !passthrough_at(s, i) {
                        lemma_kept_identity(inner, ctx, depth + 1);
                    }
                    assert(o =~= s.subrange(i, s.len() as int));
                },
                TokV::Ident(w) => {
                    if (w == "where"@ || impl_template_at(s, i)) && group_at(s, i + 1, Delim::Brace) {
                        let g = s[i + 1];
                        assert(kept_refs_from(s, i + 1, ctx));
                        assert(!punct_v(g, '@'));
                        assert(kept_refs_from(inner_v(g), 0, ctx));
                        assert(kept_refs_from(s, i + 2, ctx));
                        lemma_kept_identity_from(s, i + 2, ctx, depth);
                        lemma_kept_identity(inner_v(g), ctx, depth + 1);
                        assert(o =~= s.subrange(i, s.len() as int));
                    } else {
                        lemma_kept_identity_from(s, i + 1, ctx, depth);
                        assert(o =~= s.subrange(i, s.len() as int));
                    }
                },
                _ => {
                    lemma_kept_identity_from(s, i + 1, ctx, depth);
                    assert(o =~= s.subrange(i, s.len() as int));
                },
            }
        }
    }
}

/// A second constant expansion changes nothing where the first one's
/// output holds only `@` references that expansion keeps (carriers
/// `@{..}`, position references `@N`, `@all_fresh`, `batch_trait!`'s
/// `@trait`): whenever expanding that output again succeeds (for such an
/// output only the nesting limit can stop it), it gives the output back
/// unchanged. Without that premise a second expansion can differ: a
/// `batch_trait!` constant whose value is `where`, written before a
/// `{...}` block, leaves `where {...}` behind, whose block the next
/// expansion enters.
pub proof fn law_second_expansion_keeps_output(s: Seq<TokV>, ctx: ConstCtx)
    requires
        consts_spec(s, ctx, 0) is Ok,
        kept_refs_from(consts_spec(s, ctx, 0)->Ok_0, 0, ctx),
        consts_spec(consts_spec(s, ctx, 0)->Ok_0, ctx, 0) is Ok,
    ensures
        consts_spec(consts_spec(s, ctx, 0)->Ok_0, ctx, 0) == consts_spec(s, ctx, 0),
{
    lemma_kept_identity(consts_spec(s, ctx, 0)->Ok_0, ctx, 0);
}

/// A name the table can hold: not the `@trait` marker, not an `@all`
/// selector, not a built-in constant.
pub open spec fn definable(name: Seq<char>) -> bool {
    name != "trait"@ && !reserved_all(name) && named_spec(name) is None
}

proof fn lemma_user_table_names(s: Seq<TokV>, i: int, table: Map<Seq<char>, Seq<TokV>>)
    requires
        forall|k: Seq<char>| #[trigger] table.contains_key(k) ==> definable(k),
        user_consts_from(s, i, table) is Ok,
    ensures
        forall|k: Seq<char>| #[trigger] user_consts_from(s, i, table)->Ok_0.1.contains_key(k)
            ==> definable(k),
    decreases s.len() - i,
{
    if 0 <= i <= s.len() && punct_at(s, i, '@') && ident_in(s, i + 1) && punct_at(s, i + 2, '=') {
        let name = ident_text(s[i + 1]);
        let j = semi_from(s, i + 3)->Some_0;
        let t2 = table.insert(name, s.subrange(i + 3, j));
        assert forall|k: Seq<char>| #[trigger] t2.contains_key(k) implies definable(k) by {
            if k != name {
                assert(table.contains_key(k));
            }
        }
        lemma_user_table_names(s, j + 1, t2);
    }
}

/// The user table never holds a reserved or built-in name: `@trait`, the
/// `@all` selectors and the built-in families cannot be overridden.
pub proof fn law_user_table_avoids_reserved_names(s: Seq<TokV>)
    requires
        user_consts_from(s, 0, Map::<Seq<char>, Seq<TokV>>::empty()) is Ok,
    ensures
        forall|k: Seq<char>| #[trigger] user_consts_from(
            s,
            0,
            Map::<Seq<char>, Seq<TokV>>::empty(),
        )->Ok_0.1.contains_key(k) ==> definable(k),
{
    lemma_user_table_names(s, 0, Map::<Seq<char>, Seq<TokV>>::empty());
}

} // verus!
