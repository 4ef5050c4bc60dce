//! Angle group collection.
//!
//! A tokenizer groups only `()`/`[]`/`{}`; `<>` stays as flat punctuation.
//! Before DSL parsing, [`angle_collect`] pairs flat `<...>` into angle
//! groups (carried by the transparent delimiter), so downstream layers need
//! no `<>` depth tracking; [`render_angles`] is the output-side mirror.
use vstd::prelude::*;

use crate::diag::{Diag, depth_err, depth_msg, diag, lemma_seq_then_assoc, res_view, seq_then};
use crate::token::{
    Delim, MAX_NEST_DEPTH, Spacing, Tok, TokV, arrow_at, bracket_is_passthrough, copy_range,
    copy_tok, group_tok_view, is_arrow, is_punct, lemma_tvs_concat, lemma_tvs_push,
    passthrough_at, punct_v, tv, tvs,
};

verus! {

broadcast use group_tok_view;

pub open spec fn unclosed_msg() -> Seq<char> {
    "batch-impl: unclosed `<` (missing matching `>`)"@
}

pub open spec fn extra_close_msg() -> Seq<char> {
    "batch-impl: extra `>` (missing matching `<`)"@
}

/// Scanning from `j` with `open` unmatched `<` seen: the index of the `>`
/// that closes the opening one (the `>` of `->` does not count).
pub open spec fn angle_close_from(s: Seq<TokV>, j: int, open: nat) -> Option<int>
    decreases s.len() - j,
{
    if j < 0 || j >= s.len() {
        None
    } else if punct_v(s[j], '<') {
        angle_close_from(s, j + 1, open + 1)
    } else if punct_v(s[j], '>') && !arrow_at(s, j) {
        if open == 0 {
            Some(j)
        } else {
            angle_close_from(s, j + 1, (open - 1) as nat)
        }
    } else {
        angle_close_from(s, j + 1, open)
    }
}

/// The matching `>` of the `<` at `open`.
pub open spec fn angle_close_spec(s: Seq<TokV>, open: int) -> Option<int> {
    angle_close_from(s, open + 1, 0)
}

/// Pairing of a whole token list at nesting `depth`.
pub open spec fn collect_spec(s: Seq<TokV>, depth: nat) -> Result<Seq<TokV>, Seq<char>>
    decreases s, s.len() + 1,
{
    if depth > MAX_NEST_DEPTH {
        Err(depth_msg(""@))
    } else {
        collect_from(s, 0, depth)
    }
}

/// Pairing of the tokens from index `i` on.
pub open spec fn collect_from(s: Seq<TokV>, i: int, depth: nat) -> Result<
    Seq<TokV>,
    Seq<char>,
>
    decreases s, s.len() - i,
{
    if i < 0 || i >= s.len() {
        Ok(Seq::empty())
    } else {
        let t = s[i];
        match t {
            TokV::Group(d, inner) => {
                if d == Delim::Brace || ((d == Delim::Bracket || d == Delim::Paren) && passthrough_at(s, i)) {
                    seq_then(seq![t], collect_from(s, i + 1, depth))
                } else {
                    match collect_spec(inner, depth + 1) {
                        Err(e) => Err(e),
                        Ok(x) => if d == Delim::Invisible {
                            seq_then(x, collect_from(s, i + 1, depth))
                        } else {
                            seq_then(seq![TokV::Group(d, x)], collect_from(s, i + 1, depth))
                        },
                    }
                }
            },
            TokV::Punct(c, _) => {
                if c == '<' {
                    match angle_close_spec(s, i) {
                        None => Err(unclosed_msg()),
                        Some(close) => if i < close < s.len() {
                            match collect_spec(s.subrange(i + 1, close), depth + 1) {
                                Err(e) => Err(e),
                                Ok(x) => seq_then(
                                    seq![TokV::Group(Delim::Invisible, x)],
                                    collect_from(s, close + 1, depth),
                                ),
                            }
                        } else {
                            Err(unclosed_msg())
                        },
                    }
                } else if c == '>' && !arrow_at(s, i) {
                    Err(extra_close_msg())
                } else {
                    seq_then(seq![t], collect_from(s, i + 1, depth))
                }
            },
            _ => seq_then(seq![t], collect_from(s, i + 1, depth)),
        }
    }
}

/// Restoring angle groups to flat `<` + content + `>` (spacing `Alone`);
/// paren/bracket groups are rebuilt recursively, everything else is kept.
pub open spec fn render_spec(s: Seq<TokV>) -> Seq<TokV>
    decreases s, s.len() + 1,
{
    render_from(s, 0)
}

pub open spec fn render_from(s: Seq<TokV>, i: int) -> Seq<TokV>
    decreases s, s.len() - i,
{
    if i < 0 || i >= s.len() {
        Seq::empty()
    } else {
        let piece = match s[i] {
            TokV::Group(d, inner) => if d == Delim::Invisible {
                seq![TokV::Punct('<', Spacing::Alone)] + render_spec(inner) + seq![
                    TokV::Punct('>', Spacing::Alone),
                ]
            } else if d == Delim::Paren || d == Delim::Bracket {
                seq![TokV::Group(d, render_spec(inner))]
            } else {
                seq![s[i]]
            },
            _ => seq![s[i]],
        };
        piece + render_from(s, i + 1)
    }
}

/// Finds the matching `>` for `tokens[open]` (a `<`): tracks nested `<`
/// depth; the `>` of a `->` arrow does not close.
pub fn find_angle_close(tokens: &[Tok], open: usize) -> (r: Option<usize>)
    requires
        open < tokens@.len(),
    ensures
        r matches Some(c) ==> angle_close_spec(tvs(tokens@), open as int) == Some(c as int),
        r is None ==> angle_close_spec(tvs(tokens@), open as int) is None,
{
    let ghost s = tvs(tokens@);
    let n = tokens.len();
    let mut depth: usize = 0;
    let mut idx: usize = open + 1;
    while idx < tokens.len()
        invariant
            open < idx <= tokens@.len(),
            s == tvs(tokens@),
            depth <= idx,
            angle_close_spec(s, open as int) == angle_close_from(s, idx as int, depth as nat),
        decreases tokens@.len() - idx,
    {
        if is_punct(&tokens[idx], '<') {
            depth += 1;
        } else if is_punct(&tokens[idx], '>') && !is_arrow(tokens, idx) {
            if depth == 0 {
                return Some(idx);
            }
            depth -= 1;
        }
        idx += 1;
    }
    None
}

/// Pairs flat `<...>` into angle groups in one pass, flattening real
/// transparent groups: brace groups (code) are not entered; paren and
/// bracket groups recurse unless they are a macro body (`m!(..)`,
/// `m![..]`) or an attribute (`#[..]`); every flat `<`/`>` must pair (the `>` of `->` does not take
/// part) — an orphan is an error.
pub fn angle_collect(tokens: &[Tok]) -> (r: Result<Vec<Tok>, Diag>)
    ensures
        res_view(r) == collect_spec(tvs(tokens@), 0),
{
    angle_collect_at(tokens, 0)
}

fn angle_collect_at(tokens: &[Tok], depth: usize) -> (r: Result<Vec<Tok>, Diag>)
    ensures
        res_view(r) == collect_spec(tvs(tokens@), depth as nat),
    decreases MAX_NEST_DEPTH + 1 - depth,
{
    if depth > MAX_NEST_DEPTH {
        return Err(depth_err(""));
    }
    let ghost s = tvs(tokens@);
    let mut out: Vec<Tok> = Vec::new();
    let mut i: usize = 0;
    while i < tokens.len()
        invariant
            i <= tokens@.len(),
            depth <= MAX_NEST_DEPTH,
            s == tvs(tokens@),
            collect_spec(s, depth as nat) == seq_then(tvs(out@), collect_from(s, i as int, depth as nat)),
        decreases tokens@.len() - i,
    {
        let ghost old_out = out@;
        match &tokens[i] {
            Tok::Group(d, inner) => {
                if *d == Delim::Brace || ((*d == Delim::Bracket || *d == Delim::Paren) && bracket_is_passthrough(tokens, i)) {
                    let c = copy_tok(&tokens[i]);
                    out.push(c);
                    proof {
                        lemma_tvs_push(old_out, c);
                        lemma_seq_then_assoc(tvs(old_out), seq![tv(c)], collect_from(s, i + 1, depth as nat));
                        assert(collect_from(s, i as int, depth as nat) == seq_then(seq![tv(c)], collect_from(s, i + 1, depth as nat)));
                    }
                    i += 1;
                } else {
                    match angle_collect_at(inner.as_slice(), depth + 1) {
                        Err(e) => {
                            return Err(e);
                        },
                        Ok(x) => {
                            if *d == Delim::Invisible {
                                let mut x = x;
                                let ghost xv = x@;
                                out.append(&mut x);
                                proof {
                                    lemma_tvs_concat(old_out, xv);
                                    lemma_seq_then_assoc(tvs(old_out), tvs(xv), collect_from(s, i + 1, depth as nat));
                                    assert(collect_from(s, i as int, depth as nat) == seq_then(tvs(xv), collect_from(s, i + 1, depth as nat)));
                                }
                            } else {
                                let g = Tok::Group(*d, x);
                                out.push(g);
                                proof {
                                    lemma_tvs_push(old_out, g);
                                    lemma_seq_then_assoc(tvs(old_out), seq![tv(g)], collect_from(s, i + 1, depth as nat));
                                    assert(collect_from(s, i as int, depth as nat) == seq_then(seq![tv(g)], collect_from(s, i + 1, depth as nat)));
                                }
                            }
                            i += 1;
                        },
                    }
                }
            },
            Tok::Punct(c, _) => {
                if *c == '<' {
                    match find_angle_close(tokens, i) {
                        None => {
                            return Err(diag("batch-impl: unclosed `<` (missing matching `>`)"));
                        },
                        Some(close) => {
                            proof {
                                lemma_close_after(s, i as int);
                            }
                            let inner = copy_range(tokens, i + 1, close);
                            match angle_collect_at(inner.as_slice(), depth + 1) {
                                Err(e) => {
                                    return Err(e);
                                },
                                Ok(x) => {
                                    let g = Tok::Group(Delim::Invisible, x);
                                    out.push(g);
                                    proof {
                                        lemma_tvs_push(old_out, g);
                                        lemma_seq_then_assoc(tvs(old_out), seq![tv(g)], collect_from(s, close + 1, depth as nat));
                                        assert(collect_from(s, i as int, depth as nat) == seq_then(seq![tv(g)], collect_from(s, close + 1, depth as nat)));
                                    }
                                    i = close + 1;
                                },
                            }
                        },
                    }
                } else if *c == '>' && !is_arrow(tokens, i) {
                    return Err(diag("batch-impl: extra `>` (missing matching `<`)"));
                } else {
                    let t = copy_tok(&tokens[i]);
                    out.push(t);
                    proof {
                        lemma_tvs_push(old_out, t);
                        lemma_seq_then_assoc(tvs(old_out), seq![tv(t)], collect_from(s, i + 1, depth as nat));
                    }
                    i += 1;
                }
            },
            _ => {
                let t = copy_tok(&tokens[i]);
                out.push(t);
                proof {
                    lemma_tvs_push(old_out, t);
                    lemma_seq_then_assoc(tvs(old_out), seq![tv(t)], collect_from(s, i + 1, depth as nat));
                }
                i += 1;
            },
        }
    }
    Ok(out)
}

proof fn lemma_close_from_bounds(s: Seq<TokV>, j: int, open: nat)
    requires
        j >= 0,
    ensures
        angle_close_from(s, j, open) matches Some(c) ==> j <= c < s.len(),
    decreases s.len() - j,
{
    if j < s.len() {
        lemma_close_from_bounds(s, j + 1, open + 1);
        if open > 0 {
            lemma_close_from_bounds(s, j + 1, (open - 1) as nat);
        }
        lemma_close_from_bounds(s, j + 1, open);
    }
}

proof fn lemma_close_after(s: Seq<TokV>, i: int)
    requires
        0 <= i,
    ensures
        angle_close_spec(s, i) matches Some(c) ==> i < c < s.len(),
{
    lemma_close_from_bounds(s, i + 1, 0);
}

/// Restores angle groups to flat `<` + content + `>`: used on the final
/// output of the macro entries. Paren/bracket groups (entered by pairing)
/// are rebuilt; brace groups (never entered) pass through as they are.
pub fn render_angles(stream: &[Tok]) -> (out: Vec<Tok>)
    ensures
        tvs(out@) == render_spec(tvs(stream@)),
    decreases tvs(stream@),
{
    let ghost s = tvs(stream@);
    let mut out: Vec<Tok> = Vec::new();
    let mut i: usize = 0;
    while i < stream.len()
        invariant
            i <= stream@.len(),
            s == tvs(stream@),
            render_spec(s) == tvs(out@) + render_from(s, i as int),
        decreases stream@.len() - i,
    {
        let ghost old_out = out@;
        proof {
            assert(decreases_to!(s => s[i as int]));
        }
        match &stream[i] {
            Tok::Group(d, inner) => {
                if *d == Delim::Invisible {
                    let mut r = render_angles(inner.as_slice());
                    let lt = Tok::Punct('<', Spacing::Alone);
                    let gt = Tok::Punct('>', Spacing::Alone);
                    out.push(lt);
                    let ghost mid = out@;
                    let ghost rv = r@;
                    out.append(&mut r);
                    let ghost mid2 = out@;
                    out.push(gt);
                    proof {
                        lemma_tvs_push(old_out, lt);
                        lemma_tvs_concat(mid, rv);
                        lemma_tvs_push(mid2, gt);
                        assert(tvs(out@) =~= tvs(old_out) + (seq![TokV::Punct('<', Spacing::Alone)]
                            + render_spec(tvs(inner@)) + seq![TokV::Punct('>', Spacing::Alone)]));
                    }
                } else if *d == Delim::Paren || *d == Delim::Bracket {
                    let r = render_angles(inner.as_slice());
                    let g = Tok::Group(*d, r);
                    out.push(g);
                    proof {
                        lemma_tvs_push(old_out, g);
                    }
                } else {
                    let t = copy_tok(&stream[i]);
                    out.push(t);
                    proof {
                        lemma_tvs_push(old_out, t);
                    }
                }
            },
            _ => {
                let t = copy_tok(&stream[i]);
                out.push(t);
                proof {
                    lemma_tvs_push(old_out, t);
                }
            },
        }
        i += 1;
    }
    out
}

} // verus!

verus! {

/// What pairing and rendering give back for a token list: angle
/// punctuation re-spaced `Alone`, real transparent groups flattened, paren
/// and bracket groups treated recursively, brace groups unchanged, and the
/// content of a passthrough group (macro body / attribute) rendered.
pub open spec fn flat_spec(s: Seq<TokV>) -> Seq<TokV>
    decreases s, s.len() + 1,
{
    flat_from(s, 0)
}

pub open spec fn flat_from(s: Seq<TokV>, i: int) -> Seq<TokV>
    decreases s, s.len() - i,
{
    if i < 0 || i >= s.len() {
        Seq::empty()
    } else {
        let piece = match s[i] {
            TokV::Group(d, inner) => if d == Delim::Brace {
                seq![s[i]]
            } else if (d == Delim::Bracket || d == Delim::Paren) && passthrough_at(s, i) {
                seq![TokV::Group(d, render_spec(inner))]
            } else if d == Delim::Invisible {
                flat_spec(inner)
            } else {
                seq![TokV::Group(d, flat_spec(inner))]
            },
            TokV::Punct(c, _) => if c == '<' || (c == '>' && !arrow_at(s, i)) {
                seq![TokV::Punct(c, Spacing::Alone)]
            } else {
                seq![s[i]]
            },
            _ => seq![s[i]],
        };
        piece + flat_from(s, i + 1)
    }
}

proof fn lemma_render_shift(a: Seq<TokV>, b: Seq<TokV>, k: int)
    requires
        0 <= k <= b.len(),
    ensures
        render_from(a + b, a.len() + k) == render_from(b, k),
    decreases b.len() - k,
{
    if k < b.len() {
        lemma_render_shift(a, b, k + 1);
        assert((a + b)[a.len() + k] == b[k]);
    }
}

proof fn lemma_render_concat_from(a: Seq<TokV>, b: Seq<TokV>, i: int)
    requires
        0 <= i <= a.len(),
    ensures
        render_from(a + b, i) == render_from(a, i) + render_spec(b),
    decreases a.len() - i,
{
    if i < a.len() {
        lemma_render_concat_from(a, b, i + 1);
        assert((a + b)[i] == a[i]);
        let piece = match a[i] {
            TokV::Group(d, inner) => if d == Delim::Invisible {
                seq![TokV::Punct('<', Spacing::Alone)] + render_spec(inner) + seq![
                    TokV::Punct('>', Spacing::Alone),
                ]
            } else if d == Delim::Paren || d == Delim::Bracket {
                seq![TokV::Group(d, render_spec(inner))]
            } else {
                seq![a[i]]
            },
            _ => seq![a[i]],
        };
        assert(render_from(a + b, i) == piece + render_from(a + b, i + 1));
        assert(render_from(a, i) == piece + render_from(a, i + 1));
        assert(piece + (render_from(a, i + 1) + render_spec(b)) =~= (piece + render_from(a, i + 1))
            + render_spec(b));
    } else {
        lemma_render_shift(a, b, 0);
        assert(render_from(a, i) =~= Seq::<TokV>::empty());
        assert(Seq::<TokV>::empty() + render_spec(b) =~= render_spec(b));
    }
}

/// Rendering distributes over concatenation.
pub proof fn lemma_render_concat(a: Seq<TokV>, b: Seq<TokV>)
    ensures
        render_spec(a + b) == render_spec(a) + render_spec(b),
{
    lemma_render_concat_from(a, b, 0);
}

proof fn lemma_render_single(t: TokV)
    ensures
        render_spec(seq![t]) == match t {
            TokV::Group(d, inner) => if d == Delim::Invisible {
                seq![TokV::Punct('<', Spacing::Alone)] + render_spec(inner) + seq![
                    TokV::Punct('>', Spacing::Alone),
                ]
            } else if d == Delim::Paren || d == Delim::Bracket {
                seq![TokV::Group(d, render_spec(inner))]
            } else {
                seq![t]
            },
            _ => seq![t],
        },
{
    let s = seq![t];
    assert(render_from(s, 1) =~= Seq::<TokV>::empty());
    assert(s[0] == t);
    let piece = match t {
        TokV::Group(d, inner) => if d == Delim::Invisible {
            seq![TokV::Punct('<', Spacing::Alone)] + render_spec(inner) + seq![
                TokV::Punct('>', Spacing::Alone),
            ]
        } else if d == Delim::Paren || d == Delim::Bracket {
            seq![TokV::Group(d, render_spec(inner))]
        } else {
            seq![t]
        },
        _ => seq![t],
    };
    assert(render_from(s, 0) == piece + render_from(s, 1));
    assert(piece + Seq::<TokV>::empty() =~= piece);
}

/// Flattening a sub-range whose left neighbour is a `<` (or that starts the
/// list) gives the same pieces as flattening them in place.
proof fn lemma_flat_split(s: Seq<TokV>, a: int, c: int, k: int)
    requires
        0 <= a <= k <= c <= s.len(),
        a == 0 || punct_v(s[a - 1], '<'),
    ensures
        flat_from(s, k) == flat_from(s.subrange(a, c), k - a) + flat_from(s, c),
    decreases c - k,
{
    let sub = s.subrange(a, c);
    if k < c {
        lemma_flat_split(s, a, c, k + 1);
        assert(sub[k - a] == s[k]);
        assert(arrow_at(sub, k - a) == arrow_at(s, k)) by {
            if k > a {
                assert(sub[k - a - 1] == s[k - 1]);
            }
        }
        assert(passthrough_at(sub, k - a) == passthrough_at(s, k)) by {
            if k > a {
                assert(sub[k - a - 1] == s[k - 1]);
            }
        }
        let piece = match s[k] {
            TokV::Group(d, inner) => if d == Delim::Brace {
                seq![s[k]]
            } else if (d == Delim::Bracket || d == Delim::Paren) && passthrough_at(s, k) {
                seq![TokV::Group(d, render_spec(inner))]
            } else if d == Delim::Invisible {
                flat_spec(inner)
            } else {
                seq![TokV::Group(d, flat_spec(inner))]
            },
            TokV::Punct(ch, _) => if ch == '<' || (ch == '>' && !arrow_at(s, k)) {
                seq![TokV::Punct(ch, Spacing::Alone)]
            } else {
                seq![s[k]]
            },
            _ => seq![s[k]],
        };
        assert(flat_from(s, k) == piece + flat_from(s, k + 1));
        assert(flat_from(sub, k - a) == piece + flat_from(sub, k - a + 1));
        assert(piece + (flat_from(sub, k - a + 1) + flat_from(s, c)) =~= (piece + flat_from(
            sub,
            k - a + 1,
        )) + flat_from(s, c));
    } else {
        assert(flat_from(sub, k - a) =~= Seq::<TokV>::empty());
        assert(Seq::<TokV>::empty() + flat_from(s, c) =~= flat_from(s, c));
    }
}

proof fn lemma_close_from_is_gt(s: Seq<TokV>, j: int, open: nat)
    requires
        j >= 0,
    ensures
        angle_close_from(s, j, open) matches Some(c) ==> punct_v(s[c], '>') && !arrow_at(s, c),
    decreases s.len() - j,
{
    if j < s.len() {
        lemma_close_from_is_gt(s, j + 1, open + 1);
        if open > 0 {
            lemma_close_from_is_gt(s, j + 1, (open - 1) as nat);
        }
        lemma_close_from_is_gt(s, j + 1, open);
    }
}

proof fn lemma_roundtrip(s: Seq<TokV>, depth: nat)
    ensures
        collect_spec(s, depth) matches Ok(x) ==> render_spec(x) == flat_spec(s),
    decreases s, s.len() + 1,
{
    if depth <= MAX_NEST_DEPTH {
        lemma_roundtrip_from(s, 0, depth);
    }
}

proof fn lemma_roundtrip_from(s: Seq<TokV>, i: int, depth: nat)
    requires
        i >= 0,
    ensures
        collect_from(s, i, depth) matches Ok(x) ==> render_spec(x) == flat_from(s, i),
    decreases s, s.len() - i,
{
    if i < s.len() {
        if let Ok(x) = collect_from(s, i, depth) {
            let t = s[i];
            match t {
                TokV::Group(d, inner) => {
                    lemma_roundtrip_from(s, i + 1, depth);
                    let r = collect_from(s, i + 1, depth)->Ok_0;
                    if d == Delim::Brace || ((d == Delim::Bracket || d == Delim::Paren) && passthrough_at(s, i)) {
                        lemma_render_concat(seq![t], r);
                        lemma_render_single(t);
                    } else {
                        lemma_roundtrip(inner, depth + 1);
                        let y = collect_spec(inner, depth + 1)->Ok_0;
                        if d == Delim::Invisible {
                            lemma_render_concat(y, r);
                        } else {
                            lemma_render_concat(seq![TokV::Group(d, y)], r);
                            lemma_render_single(TokV::Group(d, y));
                        }
                    }
                },
                TokV::Punct(c, sp) => {
                    if c == '<' {
                        let close = angle_close_spec(s, i)->Some_0;
                        lemma_close_after(s, i);
                        lemma_close_from_is_gt(s, i + 1, 0);
                        let sub = s.subrange(i + 1, close);
                        lemma_roundtrip(sub, depth + 1);
                        lemma_roundtrip_from(s, close + 1, depth);
                        let y = collect_spec(sub, depth + 1)->Ok_0;
                        let r = collect_from(s, close + 1, depth)->Ok_0;
                        let g = TokV::Group(Delim::Invisible, y);
                        lemma_render_concat(seq![g], r);
                        lemma_render_single(g);
                        lemma_flat_split(s, i + 1, close, i + 1);
                        assert(flat_from(s, close) == seq![TokV::Punct('>', Spacing::Alone)]
                            + flat_from(s, close + 1));
                        assert(flat_from(s, i) == seq![TokV::Punct('<', Spacing::Alone)]
                            + flat_from(s, i + 1));
                        assert(flat_spec(sub) == flat_from(sub, 0));
                        assert(render_spec(x) =~= flat_from(s, i));
                    } else {
                        lemma_roundtrip_from(s, i + 1, depth);
                        let r = collect_from(s, i + 1, depth)->Ok_0;
                        lemma_render_concat(seq![t], r);
                        lemma_render_single(t);
                    }
                },
                _ => {
                    lemma_roundtrip_from(s, i + 1, depth);
                    let r = collect_from(s, i + 1, depth)->Ok_0;
                    lemma_render_concat(seq![t], r);
                    lemma_render_single(t);
                },
            }
        }
    }
}

/// Pairing is undone by rendering: whenever [`angle_collect`] accepts a
/// token list, rendering its output gives the input back with the paired
/// `<`/`>` re-spaced, real transparent groups flattened, and the content of
/// passthrough groups rendered ([`flat_spec`]).
pub proof fn law_render_inverts_collect(s: Seq<TokV>)
    requires
        collect_spec(s, 0) is Ok,
    ensures
        render_spec(collect_spec(s, 0)->Ok_0) == flat_spec(s),
{
    lemma_roundtrip(s, 0);
}

/// No transparent group at any depth.
pub open spec fn visible_only(s: Seq<TokV>) -> bool
    decreases s, s.len() + 1,
{
    visible_from(s, 0)
}

pub open spec fn visible_from(s: Seq<TokV>, i: int) -> bool
    decreases s, s.len() - i,
{
    if i < 0 || i >= s.len() {
        true
    } else {
        (match s[i] {
            TokV::Group(d, inner) => d != Delim::Invisible && visible_only(inner),
            _ => true,
        }) && visible_from(s, i + 1)
    }
}

/// The tokens with every `<` and `>`, at any depth, spaced alone: what is
/// left of a token list when the spacing of angle brackets is ignored.
pub open spec fn angles_alone(s: Seq<TokV>) -> Seq<TokV>
    decreases s, s.len() + 1,
{
    angles_alone_from(s, 0)
}

pub open spec fn angles_alone_from(s: Seq<TokV>, i: int) -> Seq<TokV>
    decreases s, s.len() - i,
{
    if i < 0 || i >= s.len() {
        Seq::empty()
    } else {
        (match s[i] {
            TokV::Punct(c, _) => if c == '<' || c == '>' {
                seq![TokV::Punct(c, Spacing::Alone)]
            } else {
                seq![s[i]]
            },
            TokV::Group(d, inner) => seq![TokV::Group(d, angles_alone(inner))],
            _ => seq![s[i]],
        }) + angles_alone_from(s, i + 1)
    }
}

proof fn lemma_render_visible(s: Seq<TokV>)
    requires
        visible_only(s),
    ensures
        render_spec(s) == s,
    decreases s, s.len() + 1,
{
    lemma_render_visible_from(s, 0);
    assert(s.subrange(0, s.len() as int) =~= s);
}

proof fn lemma_render_visible_from(s: Seq<TokV>, i: int)
    requires
        0 <= i <= s.len(),
        visible_from(s, i),
    ensures
        render_from(s, i) == s.subrange(i, s.len() as int),
    decreases s, s.len() - i,
{
    if i < s.len() {
        lemma_render_visible_from(s, i + 1);
        match s[i] {
            TokV::Group(d, inner) => {
                lemma_render_visible(inner);
            },
            _ => {},
        }
        assert(s.subrange(i, s.len() as int) =~= seq![s[i]] + s.subrange(i + 1, s.len() as int));
    } else {
        assert(s.subrange(i, s.len() as int) =~= Seq::<TokV>::empty());
    }
}

proof fn lemma_angles_alone_shift(x: TokV, r: Seq<TokV>, k: int)
    requires
        0 <= k <= r.len(),
    ensures
        angles_alone_from(seq![x] + r, k + 1) == angles_alone_from(r, k),
    decreases r.len() - k,
{
    let t = seq![x] + r;
    if k < r.len() {
        assert(t[k + 1] == r[k]);
        lemma_angles_alone_shift(x, r, k + 1);
    }
}

proof fn lemma_flat_visible(s: Seq<TokV>)
    requires
        visible_only(s),
    ensures
        flat_spec(s).len() == s.len(),
        angles_alone(flat_spec(s)) == angles_alone(s),
    decreases s, s.len() + 1,
{
    lemma_flat_visible_from(s, 0);
}

proof fn lemma_flat_visible_from(s: Seq<TokV>, i: int)
    requires
        0 <= i <= s.len(),
        visible_from(s, i),
    ensures
        flat_from(s, i).len() == s.len() - i,
        angles_alone(flat_from(s, i)) == angles_alone_from(s, i),
    decreases s, s.len() - i,
{
    if i < s.len() {
        lemma_flat_visible_from(s, i + 1);
        let rest = flat_from(s, i + 1);
        let x = match s[i] {
            TokV::Group(d, inner) => if d == Delim::Brace {
                s[i]
            } else if (d == Delim::Bracket || d == Delim::Paren) && passthrough_at(s, i) {
                TokV::Group(d, render_spec(inner))
            } else {
                TokV::Group(d, flat_spec(inner))
            },
            TokV::Punct(c, _) => if c == '<' || (c == '>' && !arrow_at(s, i)) {
                TokV::Punct(c, Spacing::Alone)
            } else {
                s[i]
            },
            _ => s[i],
        };
        assert(flat_from(s, i) == seq![x] + rest);
        let f = seq![x] + rest;
        lemma_angles_alone_shift(x, rest, 0);
        assert(angles_alone(f) == angles_alone_from(f, 0));
        assert(f[0] == x);
        match s[i] {
            TokV::Group(d, inner) => {
                if d == Delim::Brace {
                } else if (d == Delim::Bracket || d == Delim::Paren) && passthrough_at(s, i) {
                    lemma_render_visible(inner);
                } else {
                    lemma_flat_visible(inner);
                }
            },
            _ => {},
        }
    }
}

/// Pairing then rendering gives a list without transparent groups back
/// token for token: the same tokens in the same order, only the spacing of
/// `<` and `>` may differ.
pub proof fn law_roundtrip_token_for_token(s: Seq<TokV>)
    requires
        collect_spec(s, 0) is Ok,
        visible_only(s),
    ensures
        render_spec(collect_spec(s, 0)->Ok_0).len() == s.len(),
        angles_alone(render_spec(collect_spec(s, 0)->Ok_0)) == angles_alone(s),
{
    lemma_roundtrip(s, 0);
    lemma_flat_visible(s);
}

} // verus!
