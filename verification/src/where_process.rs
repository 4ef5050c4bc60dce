//! Bare-keyword preprocessing: the bare `where predicate {code block}` and
//! bare `impl template {code block}` forms both collect their region up to a
//! shared boundary and rewrite it into the `kw{...}` suffix.
//!
//! [`where_process`] and [`impl_process`] are the same collector
//! parameterized by keyword and boundary rule: `where` stops at a following
//! `impl{...}` attachment, `impl` stops at any bare `impl` ident. Both stop
//! at a `{...}` code block, an ident `where`, a depth-0 `;`, or the stream
//! end; `where` also stops at a depth-0 `,` whose following chunk is not a
//! predicate. A bare keyword with no trailing code block is legal (the
//! region rides into a body-less suffix).
use vstd::prelude::*;

use crate::diag::{Diag, diag, lemma_seq_then_assoc, res_view, seq_then};
use crate::token::{
    Delim, Tok, TokV, bracket_is_passthrough, copy_range, copy_tok, group_at, group_tok_view,
    ident_at, ident_v, impl_template_at, is_group_at, is_ident_at, is_ident_text,
    is_impl_template, is_punct, lemma_tvs_push, lemma_tvs_subrange, passthrough_at, punct_at,
    punct_v, tv, tvs,
};

verus! {

broadcast use group_tok_view;

/// The two bare keywords the collector rewrites.
#[derive(Clone, Copy, PartialEq, Eq, Structural, Debug)]
pub enum Keyword {
    Where,
    Impl,
}

pub open spec fn kw_text(kw: Keyword) -> Seq<char> {
    match kw {
        Keyword::Where => "where"@,
        Keyword::Impl => "impl"@,
    }
}

/// `s[k]` is the body of a macro call `ident ! {...}`.
pub open spec fn macro_body_at(s: Seq<TokV>, k: int) -> bool {
    k >= 2 && punct_at(s, k - 1, '!') && s[k - 2] is Ident
}

/// A code-block boundary at `k`: a brace group that is neither a macro body
/// nor an `@{...}` carrier.
pub open spec fn body_at(s: Seq<TokV>, k: int) -> bool {
    group_at(s, k, Delim::Brace) && !macro_body_at(s, k) && !punct_at(s, k - 1, '@')
}

/// Whether the chunk from `k` up to the next depth-0 `,` or region boundary
/// contains a `:` (a predicate continuation).
pub open spec fn chunk_pred_from(s: Seq<TokV>, k: int) -> bool
    decreases s.len() - k,
{
    if k < 1 || k >= s.len() {
        false
    } else if punct_v(s[k], ',') {
        false
    } else if punct_v(s[k], ':') {
        true
    } else if body_at(s, k) || ident_v(s[k], "where"@) || punct_v(s[k], ';') {
        false
    } else {
        chunk_pred_from(s, k + 1)
    }
}

/// The keyword-specific boundary at an identifier `j`.
pub open spec fn kw_boundary(kw: Keyword, s: Seq<TokV>, j: int) -> bool {
    match kw {
        Keyword::Where => impl_template_at(s, j),
        Keyword::Impl => ident_at(s, j, "impl"@),
    }
}

/// The keyword-specific comma boundary at `j`.
pub open spec fn comma_boundary(kw: Keyword, s: Seq<TokV>, j: int) -> bool {
    match kw {
        Keyword::Where => !chunk_pred_from(s, j + 1),
        Keyword::Impl => false,
    }
}

/// Scanning a region from `j`: the index of its boundary, or the stream end
/// when the region is non-empty; `None` for an empty region at the end.
pub open spec fn scan_from(kw: Keyword, t: Seq<TokV>, j: int) -> Option<int>
    decreases t.len() - j,
{
    if j < 0 {
        None
    } else if j >= t.len() {
        if j > 0 {
            Some(j)
        } else {
            None
        }
    } else if body_at(t, j) || ident_v(t[j], "where"@) || (t[j] is Ident && kw_boundary(kw, t, j))
        || punct_v(t[j], ';') || (punct_v(t[j], ',') && comma_boundary(kw, t, j)) {
        Some(j)
    } else {
        scan_from(kw, t, j + 1)
    }
}

/// A collected bare-`impl` region that is an impl-Trait target type: an
/// fn-family / `dyn` / `for` head, or a `+` bound chain.
pub open spec fn impl_trait_region(r: Seq<TokV>) -> bool {
    ||| r.len() > 0 && (ident_v(r[0], "Fn"@) || ident_v(r[0], "FnMut"@) || ident_v(r[0], "FnOnce"@)
        || ident_v(r[0], "AsyncFn"@) || ident_v(r[0], "AsyncFnMut"@) || ident_v(
        r[0],
        "AsyncFnOnce"@,
    ) || ident_v(r[0], "dyn"@) || ident_v(r[0], "for"@))
    ||| exists|k: int| 0 <= k < r.len() && punct_v(#[trigger] r[k], '+')
}

pub open spec fn missing_msg(kw: Keyword) -> Seq<char> {
    match kw {
        Keyword::Where => "batch-impl: `where` predicates are missing a code block {...}"@,
        Keyword::Impl => "batch-impl: `impl` is missing a template or code block {...}"@,
    }
}

pub open spec fn impl_trait_msg() -> Seq<char> {
    "batch-impl: a bare `impl` in the spec is a shape template — an `impl <trait-object>` target type is not supported; write the trait object directly (e.g. `dyn Fn() -> u8`) or use an `impl{...}` template"@
}

/// The rewrite of a whole token list.
pub open spec fn kw_spec(kw: Keyword, s: Seq<TokV>) -> Result<Seq<TokV>, Seq<char>>
    decreases s, s.len() + 1,
{
    kw_from(kw, s, 0)
}

pub open spec fn kw_from(kw: Keyword, s: Seq<TokV>, i: int) -> Result<Seq<TokV>, Seq<char>>
    decreases s, s.len() - i,
{
    if i < 0 || i >= s.len() {
        Ok(Seq::empty())
    } else if ident_v(s[i], kw_text(kw)) && !group_at(s, i + 1, Delim::Brace) {
        let t = s.subrange(i + 1, s.len() as int);
        match scan_from(kw, t, 0) {
            None => Err(missing_msg(kw)),
            Some(j) => if 0 <= j <= t.len() {
                let region = t.subrange(0, j);
                if kw == Keyword::Impl && impl_trait_region(region) {
                    Err(impl_trait_msg())
                } else {
                    seq_then(
                        seq![s[i], TokV::Group(Delim::Brace, region)],
                        kw_from(kw, s, i + 1 + j),
                    )
                }
            } else {
                Err(missing_msg(kw))
            },
        }
    } else {
        match s[i] {
            TokV::Group(d, inner) => if d == Delim::Bracket && !passthrough_at(s, i) {
                match kw_spec(kw, inner) {
                    Err(e) => Err(e),
                    Ok(x) => seq_then(
                        seq![TokV::Group(Delim::Bracket, x)],
                        kw_from(kw, s, i + 1),
                    ),
                }
            } else {
                seq_then(seq![s[i]], kw_from(kw, s, i + 1))
            },
            _ => seq_then(seq![s[i]], kw_from(kw, s, i + 1)),
        }
    }
}

/// Bare `where` preprocessing: `where predicates {body}` →
/// `where{predicates} {body}`. A depth-0 `,` ends the region when the chunk
/// after it is not a predicate (`usize where T: Clone, isize` splits into
/// two specs; `where A: Clone, B: Copy` keeps scanning).
pub fn where_process(tokens: &[Tok]) -> (r: Result<Vec<Tok>, Diag>)
    ensures
        res_view(r) == kw_spec(Keyword::Where, tvs(tokens@)),
{
    kw_process(tokens, Keyword::Where)
}

/// Bare `impl` preprocessing: `impl template {body}` → `impl{template}
/// {body}`. An impl-Trait target region (`impl Fn() -> u8`, `impl dyn ..`,
/// `impl Iterator + Clone`) is reported instead of being collected.
pub fn impl_process(tokens: &[Tok]) -> (r: Result<Vec<Tok>, Diag>)
    ensures
        res_view(r) == kw_spec(Keyword::Impl, tvs(tokens@)),
{
    kw_process(tokens, Keyword::Impl)
}

/// Whether `tokens[index]` is the body of a macro call `ident ! {...}`.
pub fn is_macro_body(tokens: &[Tok], index: usize) -> (b: bool)
    requires
        index < tokens@.len(),
    ensures
        b == macro_body_at(tvs(tokens@), index as int),
{
    index >= 2 && is_punct(&tokens[index - 1], '!') && matches!(&tokens[index - 2], Tok::Ident(_))
}

fn is_body_at(tokens: &[Tok], k: usize) -> (b: bool)
    requires
        k < tokens@.len(),
    ensures
        b == body_at(tvs(tokens@), k as int),
{
    is_group_at(tokens, k, Delim::Brace) && !is_macro_body(tokens, k) && !(k > 0 && is_punct(
        &tokens[k - 1],
        '@',
    ))
}

/// Whether the chunk after a depth-0 `,` (starting at `start`) is a
/// predicate continuation: it holds a `:` before its end.
pub fn chunk_is_predicate(tokens: &[Tok], start: usize) -> (b: bool)
    requires
        start >= 1,
    ensures
        b == chunk_pred_from(tvs(tokens@), start as int),
{
    let ghost s = tvs(tokens@);
    let mut k = start;
    while k < tokens.len()
        invariant
            k >= 1,
            s == tvs(tokens@),
            chunk_pred_from(s, start as int) == chunk_pred_from(s, k as int),
        decreases tokens@.len() - k,
    {
        if is_punct(&tokens[k], ',') {
            return false;
        }
        if is_punct(&tokens[k], ':') {
            return true;
        }
        if is_body_at(tokens, k) || is_ident_text(&tokens[k], "where") || is_punct(&tokens[k], ';') {
            return false;
        }
        k += 1;
    }
    false
}

/// Whether a collected bare-`impl` region is an impl-Trait target type.
pub fn region_is_impl_trait(region: &[Tok]) -> (b: bool)
    ensures
        b == impl_trait_region(tvs(region@)),
{
    let ghost r = tvs(region@);
    let head = region.len() > 0 && (is_ident_text(&region[0], "Fn") || is_ident_text(&region[0], "FnMut")
        || is_ident_text(&region[0], "FnOnce") || is_ident_text(&region[0], "AsyncFn")
        || is_ident_text(&region[0], "AsyncFnMut") || is_ident_text(&region[0], "AsyncFnOnce")
        || is_ident_text(&region[0], "dyn") || is_ident_text(&region[0], "for"));
    if head {
        return true;
    }
    let mut k: usize = 0;
    while k < region.len()
        invariant
            k <= region@.len(),
            r == tvs(region@),
            forall|m: int| 0 <= m < k ==> !punct_v(#[trigger] r[m], '+'),
        decreases region@.len() - k,
    {
        if is_punct(&region[k], '+') {
            assert(punct_v(r[k as int], '+'));
            return true;
        }
        k += 1;
    }
    false
}

fn is_kw_boundary(kw: Keyword, tokens: &[Tok], j: usize) -> (b: bool)
    ensures
        b == kw_boundary(kw, tvs(tokens@), j as int),
{
    match kw {
        Keyword::Where => is_impl_template(tokens, j),
        Keyword::Impl => is_ident_at(tokens, j, "impl"),
    }
}

fn is_comma_boundary(kw: Keyword, tokens: &[Tok], j: usize) -> (b: bool)
    requires
        j < tokens@.len(),
    ensures
        b == comma_boundary(kw, tvs(tokens@), j as int),
{
    let n = tokens.len();
    match kw {
        Keyword::Where => !chunk_is_predicate(tokens, j + 1),
        Keyword::Impl => false,
    }
}

/// The region boundary: the first code block, ident `where`, keyword
/// boundary, depth-0 `;`, or comma boundary; or the end of the stream when
/// the region is non-empty. Returns the raw region and the boundary index.
pub fn scan_body_boundary(tokens: &[Tok], kw: Keyword) -> (r: Option<(Vec<Tok>, usize)>)
    ensures
        r matches Some((region, j)) ==> scan_from(kw, tvs(tokens@), 0) == Some(j as int) && j
            <= tokens@.len() && tvs(region@) == tvs(tokens@).subrange(0, j as int),
        r is None ==> scan_from(kw, tvs(tokens@), 0) is None,
{
    let ghost s = tvs(tokens@);
    let mut j: usize = 0;
    while j < tokens.len()
        invariant
            j <= tokens@.len(),
            s == tvs(tokens@),
            scan_from(kw, s, 0) == scan_from(kw, s, j as int),
        decreases tokens@.len() - j,
    {
        let stop = is_body_at(tokens, j) || is_ident_text(&tokens[j], "where") || (matches!(
            &tokens[j],
            Tok::Ident(_)
        ) && is_kw_boundary(kw, tokens, j)) || is_punct(&tokens[j], ';') || (is_punct(
            &tokens[j],
            ',',
        ) && is_comma_boundary(kw, tokens, j));
        if stop {
            let region = copy_range(tokens, 0, j);
            return Some((region, j));
        }
        j += 1;
    }
    if j > 0 {
        let region = copy_range(tokens, 0, j);
        return Some((region, j));
    }
    None
}

/// The shared keyword collector: a bare `kw` (not directly followed by a
/// `{...}` group, which is the suffix form and passes through) has its
/// region collected and rewritten into a `kw{...}` group; non-passthrough
/// bracket groups are processed recursively.
fn kw_process(tokens: &[Tok], kw: Keyword) -> (r: Result<Vec<Tok>, Diag>)
    ensures
        res_view(r) == kw_spec(kw, tvs(tokens@)),
    decreases tvs(tokens@),
{
    let ghost s = tvs(tokens@);
    let kw_lit = match kw {
        Keyword::Where => "where",
        Keyword::Impl => "impl",
    };
    let mut out: Vec<Tok> = Vec::new();
    let mut i: usize = 0;
    while i < tokens.len()
        invariant
            i <= tokens@.len(),
            s == tvs(tokens@),
            kw_lit@ == kw_text(kw),
            kw_spec(kw, s) == seq_then(tvs(out@), kw_from(kw, s, i as int)),
        decreases tokens@.len() - i,
    {
        let ghost old_out = out@;
        if is_ident_text(&tokens[i], kw_lit) && !(i + 1 < tokens.len() && is_group_at(
            tokens,
            i + 1,
            Delim::Brace,
        )) {
            let rest = copy_range(tokens, i + 1, tokens.len());
            match scan_body_boundary(rest.as_slice(), kw) {
                None => {
                    let msg = match kw {
                        Keyword::Where => "batch-impl: `where` predicates are missing a code block {...}",
                        Keyword::Impl => "batch-impl: `impl` is missing a template or code block {...}",
                    };
                    return Err(diag(msg));
                },
                Some((region, rest_index)) => {
                    proof {
                        lemma_tvs_subrange(tokens@, i + 1, tokens@.len() as int);
                    }
                    if kw == Keyword::Impl && region_is_impl_trait(region.as_slice()) {
                        return Err(diag("batch-impl: a bare `impl` in the spec is a shape template — an `impl <trait-object>` target type is not supported; write the trait object directly (e.g. `dyn Fn() -> u8`) or use an `impl{...}` template"));
                    }
                    let kw_tok = copy_tok(&tokens[i]);
                    let g = Tok::Group(Delim::Brace, region);
                    out.push(kw_tok);
                    let ghost mid = out@;
                    out.push(g);
                    proof {
                        lemma_tvs_push(old_out, kw_tok);
                        lemma_tvs_push(mid, g);
                        assert(tvs(out@) =~= tvs(old_out) + seq![tv(kw_tok), tv(g)]);
                        lemma_seq_then_assoc(
                            tvs(old_out),
                            seq![tv(kw_tok), tv(g)],
                            kw_from(kw, s, i + 1 + rest_index),
                        );
                    }
                    i = i + 1 + rest_index;
                },
            }
        } else {
            match &tokens[i] {
                Tok::Group(Delim::Bracket, v) => {
                    if !bracket_is_passthrough(tokens, i) {
                        proof {
                            assert(decreases_to!(s => s[i as int]));
                        }
                        match kw_process(v.as_slice(), kw) {
                            Err(e) => return Err(e),
                            Ok(x) => {
                                let g = Tok::Group(Delim::Bracket, x);
                                out.push(g);
                                proof {
                                    lemma_tvs_push(old_out, g);
                                    lemma_seq_then_assoc(
                                        tvs(old_out),
                                        seq![tv(g)],
                                        kw_from(kw, s, i + 1),
                                    );
                                }
                            },
                        }
                    } else {
                        let t = copy_tok(&tokens[i]);
                        out.push(t);
                        proof {
                            lemma_tvs_push(old_out, t);
                            lemma_seq_then_assoc(tvs(old_out), seq![tv(t)], kw_from(kw, s, i + 1));
                        }
                    }
                },
                _ => {
                    let t = copy_tok(&tokens[i]);
                    out.push(t);
                    proof {
                        lemma_tvs_push(old_out, t);
                        lemma_seq_then_assoc(tvs(old_out), seq![tv(t)], kw_from(kw, s, i + 1));
                    }
                },
            }
            i += 1;
        }
    }
    Ok(out)
}

} // verus!

verus! {

/// Every `kw` at the top level of `s` is directly followed by a `{...}`
/// group (the suffix form).
pub open spec fn kw_settled(kw: Keyword, s: Seq<TokV>) -> bool {
    forall|k: int| #[trigger] ident_at(s, k, kw_text(kw)) ==> group_at(s, k + 1, Delim::Brace)
}

proof fn lemma_kw_head_brace(kw: Keyword, s: Seq<TokV>, j: int)
    requires
        group_at(s, j, Delim::Brace),
        kw_from(kw, s, j) is Ok,
    ensures
        kw_from(kw, s, j)->Ok_0.len() > 0,
        kw_from(kw, s, j)->Ok_0[0] == s[j],
{
    let r = kw_from(kw, s, j + 1)->Ok_0;
    assert(kw_from(kw, s, j)->Ok_0 == seq![s[j]] + r);
}

proof fn lemma_kw_settled_from(kw: Keyword, s: Seq<TokV>, i: int)
    requires
        i >= 0,
        kw_from(kw, s, i) is Ok,
    ensures
        kw_settled(kw, kw_from(kw, s, i)->Ok_0),
    decreases s.len() - i,
{
    let o = kw_from(kw, s, i)->Ok_0;
    if i >= s.len() {
        assert(o.len() == 0);
    } else if ident_v(s[i], kw_text(kw)) && !group_at(s, i + 1, Delim::Brace) {
        let t = s.subrange(i + 1, s.len() as int);
        let j = scan_from(kw, t, 0)->Some_0;
        let region = t.subrange(0, j);
        let piece = seq![s[i], TokV::Group(Delim::Brace, region)];
        lemma_kw_settled_from(kw, s, i + 1 + j);
        let r = kw_from(kw, s, i + 1 + j)->Ok_0;
        assert(o == piece + r);
        assert forall|k: int| #[trigger] ident_at(o, k, kw_text(kw)) implies group_at(
            o,
            k + 1,
            Delim::Brace,
        ) by {
            if k >= 2 {
                assert(o[k] == r[k - 2]);
                assert(ident_at(r, k - 2, kw_text(kw)));
                if k + 1 < o.len() {
                    assert(o[k + 1] == r[k - 1]);
                }
            } else if k == 1 {
                assert(o[1] == TokV::Group(Delim::Brace, region));
            }
        }
    } else {
        lemma_kw_settled_from(kw, s, i + 1);
        let r = kw_from(kw, s, i + 1)->Ok_0;
        let head = match s[i] {
            TokV::Group(d, inner) => if d == Delim::Bracket && !passthrough_at(s, i) {
                TokV::Group(Delim::Bracket, kw_spec(kw, inner)->Ok_0)
            } else {
                s[i]
            },
            _ => s[i],
        };
        assert(o == seq![head] + r);
        assert forall|k: int| #[trigger] ident_at(o, k, kw_text(kw)) implies group_at(
            o,
            k + 1,
            Delim::Brace,
        ) by {
            if k >= 1 {
                assert(o[k] == r[k - 1]);
                assert(ident_at(r, k - 1, kw_text(kw)));
                if k + 1 < o.len() {
                    assert(o[k + 1] == r[k]);
                }
            } else if k == 0 {
                assert(head == s[i]);
                assert(group_at(s, i + 1, Delim::Brace));
                lemma_kw_head_brace(kw, s, i + 1);
                assert(o[1] == r[0]);
            }
        }
    }
}

/// After the rewrite, every bare keyword has become the suffix form: each
/// `where` (resp. `impl`) at the top level of the output is directly
/// followed by a `{...}` group.
pub proof fn law_keyword_followed_by_block(kw: Keyword, s: Seq<TokV>)
    requires
        kw_spec(kw, s) is Ok,
    ensures
        kw_settled(kw, kw_spec(kw, s)->Ok_0),
{
    lemma_kw_settled_from(kw, s, 0);
}

} // verus!
