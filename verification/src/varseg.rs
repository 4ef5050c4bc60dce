//! Variadic-segment marking: `ident@..` inside an `impl{...}` shape template
//! is a DSL-only construct, replaced before the `@` constant stage by a
//! structural marker — the array type `[Prefix; ()]` (a unit-tuple length,
//! which no compilable code contains), decoded later by shape.
//!
//! Only `impl{...}` template groups are entered; every other brace group
//! stays passthrough.
use vstd::prelude::*;

use crate::diag::{Diag, depth_err, depth_msg, lemma_seq_then_assoc, res_view, seq_then};
use crate::token::{
    Delim, MAX_NEST_DEPTH, Spacing, Tok, TokV, bracket_is_passthrough, copy_tok, group_tok_view,
    impl_template_at, is_ident_at, is_punct, is_punct_at, lemma_tvs_push,
    passthrough_at, punct_at, punct_v, tok_at, tv, tvs,
};

verus! {

broadcast use group_tok_view;

/// `ident @ . .` starts at `i`: an unmarked variadic segment.
pub open spec fn segment_at(s: Seq<TokV>, i: int) -> bool {
    &&& 0 <= i < s.len()
    &&& s[i] is Ident
    &&& punct_at(s, i + 1, '@')
    &&& punct_at(s, i + 2, '.')
    &&& punct_at(s, i + 3, '.')
}

/// No unmarked segment anywhere at the top level of `s`.
pub open spec fn no_segment(s: Seq<TokV>) -> bool {
    forall|k: int| !(#[trigger] segment_at(s, k))
}

/// The marker `[Prefix; ()]` of a segment named `id`.
pub open spec fn marker_v(id: Seq<char>) -> TokV {
    TokV::Group(
        Delim::Bracket,
        seq![
            TokV::Ident(id),
            TokV::Punct(';', Spacing::Alone),
            TokV::Group(Delim::Paren, Seq::empty()),
        ],
    )
}

/// Marking inside one template, from index `i` (groups are entered; the
/// nesting check happens before each group).
pub open spec fn template_from(s: Seq<TokV>, i: int, depth: nat) -> Result<
    Seq<TokV>,
    Seq<char>,
>
    decreases s, s.len() - i,
{
    if i < 0 || i >= s.len() {
        Ok(Seq::empty())
    } else if segment_at(s, i) {
        let id = match s[i] {
            TokV::Ident(x) => x,
            _ => Seq::empty(),
        };
        let piece = if i + 4 >= s.len() {
            seq![marker_v(id), TokV::Punct(',', Spacing::Alone)]
        } else {
            seq![marker_v(id)]
        };
        seq_then(piece, template_from(s, i + 4, depth))
    } else {
        match s[i] {
            TokV::Group(d, inner) => if depth + 1 > MAX_NEST_DEPTH {
                Err(depth_msg(""@))
            } else {
                match template_from(inner, 0, depth + 1) {
                    Err(e) => Err(e),
                    Ok(x) => seq_then(seq![TokV::Group(d, x)], template_from(s, i + 1, depth)),
                }
            },
            _ => seq_then(seq![s[i]], template_from(s, i + 1, depth)),
        }
    }
}

/// [`mark_template`]'s result.
pub open spec fn mark_template_spec(s: Seq<TokV>, depth: nat) -> Result<Seq<TokV>, Seq<char>> {
    if depth > MAX_NEST_DEPTH {
        Err(depth_msg(""@))
    } else {
        template_from(s, 0, depth)
    }
}

/// [`mark_varseg`]'s result at nesting `depth`.
pub open spec fn varseg_spec(s: Seq<TokV>, depth: nat) -> Result<Seq<TokV>, Seq<char>>
    decreases s, s.len() + 1,
{
    if depth > MAX_NEST_DEPTH {
        Err(depth_msg(""@))
    } else {
        varseg_from(s, 0, depth)
    }
}

pub open spec fn varseg_from(s: Seq<TokV>, i: int, depth: nat) -> Result<Seq<TokV>, Seq<char>>
    decreases s, s.len() - i,
{
    if i < 0 || i >= s.len() {
        Ok(Seq::empty())
    } else if impl_template_at(s, i) {
        match s[i + 1] {
            TokV::Group(_, inner) => match mark_template_spec(inner, depth + 1) {
                Err(e) => Err(e),
                Ok(x) => seq_then(
                    seq![s[i], TokV::Group(Delim::Brace, x)],
                    varseg_from(s, i + 2, depth),
                ),
            },
            _ => Err(Seq::empty()),
        }
    } else {
        match s[i] {
            TokV::Group(d, inner) => if d == Delim::Brace || passthrough_at(s, i) {
                seq_then(seq![s[i]], varseg_from(s, i + 1, depth))
            } else if depth + 1 > MAX_NEST_DEPTH {
                Err(depth_msg(""@))
            } else {
                match varseg_spec(inner, depth + 1) {
                    Err(e) => Err(e),
                    Ok(x) => seq_then(seq![TokV::Group(d, x)], varseg_from(s, i + 1, depth)),
                }
            },
            _ => seq_then(seq![s[i]], varseg_from(s, i + 1, depth)),
        }
    }
}

/// The segment shape `mark_template` consumes: `ident @ . .`.
pub fn is_unmarked_segment_at(tokens: &[Tok], i: usize) -> (b: bool)
    requires
        i < tokens@.len(),
    ensures
        b == segment_at(tvs(tokens@), i as int),
{
    matches!(&tokens[i], Tok::Ident(_)) && i + 1 < tokens.len() && is_punct_at(tokens, i + 1, '@')
        && i + 2 < tokens.len() && is_punct_at(tokens, i + 2, '.') && i + 3 < tokens.len()
        && is_punct_at(tokens, i + 3, '.')
}

/// Whether `tokens` contains an unmarked segment at its top level.
pub fn contains_unmarked_segment(tokens: &[Tok]) -> (b: bool)
    ensures
        b == !no_segment(tvs(tokens@)),
{
    let n = tokens.len();
    let mut i: usize = 0;
    while i < n
        invariant
            i <= n,
            n == tokens@.len(),
            forall|k: int| 0 <= k < i ==> !segment_at(tvs(tokens@), k),
        decreases n - i,
    {
        if is_unmarked_segment_at(tokens, i) {
            return true;
        }
        i += 1;
    }
    assert forall|k: int| !(#[trigger] segment_at(tvs(tokens@), k)) by {
        if 0 <= k < n {
        }
    }
    false
}

fn make_marker(id: &String) -> (t: Tok)
    ensures
        t@ == marker_v(id@),
{
    let empty: Vec<Tok> = Vec::new();
    let unit = Tok::Group(Delim::Paren, empty);
    assert(tv(unit) == TokV::Group(Delim::Paren, Seq::empty())) by {
        assert(tvs(empty@) =~= Seq::<TokV>::empty());
    }
    let name = id.clone();
    let inner = vec![Tok::Ident(name), Tok::Punct(';', Spacing::Alone), unit];
    let t = Tok::Group(Delim::Bracket, inner);
    assert(tvs(inner@) =~= seq![
        TokV::Ident(id@),
        TokV::Punct(';', Spacing::Alone),
        TokV::Group(Delim::Paren, Seq::empty()),
    ]);
    t
}

/// Replaces every `ident@..` in `impl{...}` templates with its marker.
pub fn mark_varseg(tokens: &[Tok]) -> (r: Result<Vec<Tok>, Diag>)
    ensures
        res_view(r) == varseg_spec(tvs(tokens@), 0),
{
    mark_varseg_at(tokens, 0)
}

fn mark_varseg_at(tokens: &[Tok], depth: usize) -> (r: Result<Vec<Tok>, Diag>)
    ensures
        res_view(r) == varseg_spec(tvs(tokens@), depth as nat),
    decreases MAX_NEST_DEPTH + 1 - depth,
{
    if depth > MAX_NEST_DEPTH {
        return Err(depth_err(""));
    }
    let ghost s = tvs(tokens@);
    let mut out: Vec<Tok> = Vec::new();
    let mut i: usize = 0;
    while i < tokens.len()
        invariant
            i <= tokens@.len(),
            depth <= MAX_NEST_DEPTH,
            s == tvs(tokens@),
            varseg_spec(s, depth as nat) == seq_then(tvs(out@), varseg_from(s, i as int, depth as nat)),
        decreases tokens@.len() - i,
    {
        let ghost old_out = out@;
        let template: Option<&Vec<Tok>> = match tok_at(tokens, i, 1) {
            Some(Tok::Group(Delim::Brace, g)) if is_ident_at(tokens, i, "impl") => Some(g),
            _ => None,
        };
        assert(template is Some <==> impl_template_at(s, i as int));
        if let Some(g) = template {
            match mark_template(g.as_slice(), depth + 1) {
                Err(e) => return Err(e),
                Ok(marked) => {
                    let kw = copy_tok(&tokens[i]);
                    let ng = Tok::Group(Delim::Brace, marked);
                    out.push(kw);
                    let ghost mid = out@;
                    out.push(ng);
                    proof {
                        lemma_tvs_push(old_out, kw);
                        lemma_tvs_push(mid, ng);
                        assert(tvs(out@) =~= tvs(old_out) + seq![tv(kw), tv(ng)]);
                        lemma_seq_then_assoc(tvs(old_out), seq![tv(kw), tv(ng)], varseg_from(s, i + 2, depth as nat));
                    }
                    i += 2;
                },
            }
        } else {
            match &tokens[i] {
                Tok::Group(d, g) => {
                    if *d == Delim::Brace || bracket_is_passthrough(tokens, i) {
                        let t = copy_tok(&tokens[i]);
                        out.push(t);
                        proof {
                            lemma_tvs_push(old_out, t);
                            lemma_seq_then_assoc(tvs(old_out), seq![tv(t)], varseg_from(s, i + 1, depth as nat));
                        }
                    } else {
                        if depth + 1 > MAX_NEST_DEPTH {
                            return Err(depth_err(""));
                        }
                        match mark_varseg_at(g.as_slice(), depth + 1) {
                            Err(e) => return Err(e),
                            Ok(x) => {
                                let ng = Tok::Group(*d, x);
                                out.push(ng);
                                proof {
                                    lemma_tvs_push(old_out, ng);
                                    lemma_seq_then_assoc(tvs(old_out), seq![tv(ng)], varseg_from(s, i + 1, depth as nat));
                                }
                            },
                        }
                    }
                },
                _ => {
                    let t = copy_tok(&tokens[i]);
                    out.push(t);
                    proof {
                        lemma_tvs_push(old_out, t);
                        lemma_seq_then_assoc(tvs(old_out), seq![tv(t)], varseg_from(s, i + 1, depth as nat));
                    }
                },
            }
            i += 1;
        }
    }
    Ok(out)
}

/// Marks `ident@..` inside one template's tokens (every group is entered).
/// On success the output contains no unmarked segment at any depth (see
/// [`law_marked_template_has_no_segment`]).
pub fn mark_template(tokens: &[Tok], depth: usize) -> (r: Result<Vec<Tok>, Diag>)
    ensures
        res_view(r) == mark_template_spec(tvs(tokens@), depth as nat),
{
    if depth > MAX_NEST_DEPTH {
        return Err(depth_err(""));
    }
    mark_template_impl(tokens, depth)
}

fn mark_template_impl(tokens: &[Tok], depth: usize) -> (r: Result<Vec<Tok>, Diag>)
    requires
        depth <= MAX_NEST_DEPTH,
    ensures
        res_view(r) == template_from(tvs(tokens@), 0, depth as nat),
    decreases MAX_NEST_DEPTH + 1 - depth,
{
    let ghost s = tvs(tokens@);
    let mut out: Vec<Tok> = Vec::new();
    let mut i: usize = 0;
    while i < tokens.len()
        invariant
            i <= tokens@.len(),
            depth <= MAX_NEST_DEPTH,
            s == tvs(tokens@),
            template_from(s, 0, depth as nat) == seq_then(tvs(out@), template_from(s, i as int, depth as nat)),
        decreases tokens@.len() - i,
    {
        let ghost old_out = out@;
        if is_unmarked_segment_at(tokens, i) {
            match &tokens[i] {
                Tok::Ident(id) => {
                    let m = make_marker(id);
                    out.push(m);
                    proof {
                        lemma_tvs_push(old_out, m);
                    }
                    i += 4;
                    if i >= tokens.len() {
                        let comma = Tok::Punct(',', Spacing::Alone);
                        let ghost mid = out@;
                        out.push(comma);
                        proof {
                            lemma_tvs_push(mid, comma);
                            assert(tvs(out@) =~= tvs(old_out) + seq![tv(m), tv(comma)]);
                            lemma_seq_then_assoc(tvs(old_out), seq![tv(m), tv(comma)], template_from(s, i as int, depth as nat));
                        }
                    } else {
                        proof {
                            lemma_seq_then_assoc(tvs(old_out), seq![tv(m)], template_from(s, i as int, depth as nat));
                        }
                    }
                },
                _ => {
                    i += 1;
                },
            }
        } else {
            match &tokens[i] {
                Tok::Group(d, g) => {
                    if depth + 1 > MAX_NEST_DEPTH {
                        return Err(depth_err(""));
                    }
                    match mark_template_impl(g.as_slice(), depth + 1) {
                        Err(e) => return Err(e),
                        Ok(x) => {
                            let ng = Tok::Group(*d, x);
                            out.push(ng);
                            proof {
                                lemma_tvs_push(old_out, ng);
                                lemma_seq_then_assoc(tvs(old_out), seq![tv(ng)], template_from(s, i + 1, depth as nat));
                            }
                        },
                    }
                },
                _ => {
                    let t = copy_tok(&tokens[i]);
                    out.push(t);
                    proof {
                        lemma_tvs_push(old_out, t);
                        lemma_seq_then_assoc(tvs(old_out), seq![tv(t)], template_from(s, i + 1, depth as nat));
                    }
                },
            }
            i += 1;
        }
    }
    Ok(out)
}

} // verus!

verus! {

/// The first output token of marking from `j` is a punctuation only when
/// the input token at `j` is that same punctuation, which is then copied.
proof fn lemma_template_head_punct(s: Seq<TokV>, j: int, depth: nat)
    requires
        j >= 0,
        template_from(s, j, depth) is Ok,
        template_from(s, j, depth)->Ok_0.len() > 0,
        template_from(s, j, depth)->Ok_0[0] is Punct,
    ensures
        j < s.len(),
        s[j] == template_from(s, j, depth)->Ok_0[0],
        !segment_at(s, j),
        template_from(s, j + 1, depth) is Ok,
        template_from(s, j, depth)->Ok_0.drop_first() == template_from(s, j + 1, depth)->Ok_0,
{
    let o = template_from(s, j, depth)->Ok_0;
    if j >= s.len() {
        assert(o.len() == 0);
    }
    if segment_at(s, j) {
        let id = match s[j] {
            TokV::Ident(x) => x,
            _ => Seq::empty(),
        };
        let r = template_from(s, j + 4, depth)->Ok_0;
        if j + 4 >= s.len() {
            assert(o == seq![marker_v(id), TokV::Punct(',', Spacing::Alone)] + r);
        } else {
            assert(o == seq![marker_v(id)] + r);
        }
        assert(o[0] == marker_v(id));
    } else {
        match s[j] {
            TokV::Group(d, inner) => {
                let x = template_from(inner, 0, depth + 1)->Ok_0;
                let r = template_from(s, j + 1, depth)->Ok_0;
                assert(o == seq![TokV::Group(d, x)] + r);
                assert(o[0] == TokV::Group(d, x));
            },
            _ => {
                let r = template_from(s, j + 1, depth)->Ok_0;
                assert(o == seq![s[j]] + r);
                assert(o.drop_first() =~= r);
            },
        }
    }
}

proof fn lemma_template_no_segment(s: Seq<TokV>, j: int, depth: nat)
    requires
        j >= 0,
        template_from(s, j, depth) is Ok,
    ensures
        no_segment(template_from(s, j, depth)->Ok_0),
    decreases s.len() - j,
{
    let o = template_from(s, j, depth)->Ok_0;
    if j >= s.len() {
        assert forall|k: int| !(#[trigger] segment_at(o, k)) by {
            assert(o.len() == 0);
        }
    } else if segment_at(s, j) {
        let id = match s[j] {
            TokV::Ident(x) => x,
            _ => Seq::empty(),
        };
        let piece = if j + 4 >= s.len() {
            seq![marker_v(id), TokV::Punct(',', Spacing::Alone)]
        } else {
            seq![marker_v(id)]
        };
        lemma_template_no_segment(s, j + 4, depth);
        let r = template_from(s, j + 4, depth)->Ok_0;
        assert(o == piece + r);
        assert forall|k: int| !(#[trigger] segment_at(o, k)) by {
            if 0 <= k < piece.len() {
                assert(!(o[k] is Ident));
            } else if k >= piece.len() {
                assert(segment_at(o, k) ==> segment_at(r, k - piece.len())) by {
                    if segment_at(o, k) {
                        assert(o[k] == r[k - piece.len()]);
                        assert(o[k + 1] == r[k - piece.len() + 1]);
                        assert(o[k + 2] == r[k - piece.len() + 2]);
                        assert(o[k + 3] == r[k - piece.len() + 3]);
                    }
                }
            }
        }
    } else {
        lemma_template_no_segment(s, j + 1, depth);
        let r = template_from(s, j + 1, depth)->Ok_0;
        let t = o[0];
        assert(o == seq![t] + r) by {
            match s[j] {
                TokV::Group(d, inner) => {
                    let x = template_from(inner, 0, depth + 1)->Ok_0;
                    assert(o == seq![TokV::Group(d, x)] + r);
                },
                _ => {
                    assert(o == seq![s[j]] + r);
                },
            }
        }
        assert forall|k: int| !(#[trigger] segment_at(o, k)) by {
            if k >= 1 {
                if segment_at(o, k) {
                    assert(o[k] == r[k - 1]);
                    assert(o[k + 1] == r[k]);
                    assert(o[k + 2] == r[k + 1]);
                    assert(o[k + 3] == r[k + 2]);
                    assert(segment_at(r, k - 1));
                }
            } else if k == 0 {
                if segment_at(o, 0) {
                    // `o[0]` is a copied identifier: `s[j]` itself
                    assert(s[j] is Ident) by {
                        match s[j] {
                            TokV::Group(d, inner) => {
                                let x = template_from(inner, 0, depth + 1)->Ok_0;
                                assert(o[0] == TokV::Group(d, x));
                            },
                            _ => {},
                        }
                    }
                    assert(r[0] == o[1]);
                    lemma_template_head_punct(s, j + 1, depth);
                    let r2 = template_from(s, j + 2, depth)->Ok_0;
                    assert(r.drop_first() == r2);
                    assert(r2[0] == o[2]);
                    lemma_template_head_punct(s, j + 2, depth);
                    let r3 = template_from(s, j + 3, depth)->Ok_0;
                    assert(r2.drop_first() == r3);
                    assert(r3[0] == o[3]);
                    lemma_template_head_punct(s, j + 3, depth);
                    assert(segment_at(s, j));
                }
            }
        }
    }
}

/// No unmarked segment in `s` nor inside any of its groups, at any depth.
pub open spec fn no_segment_deep(s: Seq<TokV>) -> bool
    decreases s, s.len() + 1,
{
    no_segment(s) && deep_from(s, 0)
}

/// Every group of `s` from `i` on holds no unmarked segment at any depth.
pub open spec fn deep_from(s: Seq<TokV>, i: int) -> bool
    decreases s, s.len() - i,
{
    if i < 0 || i >= s.len() {
        true
    } else {
        (match s[i] {
            TokV::Group(_, inner) => no_segment_deep(inner),
            _ => true,
        }) && deep_from(s, i + 1)
    }
}

proof fn lemma_deep_shift(a: Seq<TokV>, b: Seq<TokV>, k: int)
    requires
        0 <= k <= b.len(),
    ensures
        deep_from(a + b, a.len() + k) == deep_from(b, k),
    decreases b.len() - k,
{
    if k < b.len() {
        assert((a + b)[a.len() + k] == b[k]);
        lemma_deep_shift(a, b, k + 1);
    }
}

proof fn lemma_deep_concat(a: Seq<TokV>, b: Seq<TokV>, i: int)
    requires
        0 <= i <= a.len(),
        deep_from(a, i),
        deep_from(b, 0),
    ensures
        deep_from(a + b, i),
    decreases a.len() - i,
{
    if i < a.len() {
        assert((a + b)[i] == a[i]);
        lemma_deep_concat(a, b, i + 1);
    } else {
        lemma_deep_shift(a, b, 0);
    }
}

proof fn lemma_marker_deep(id: Seq<char>)
    ensures
        deep_from(seq![marker_v(id)], 0),
{
    let inner = seq![
        TokV::Ident(id),
        TokV::Punct(';', Spacing::Alone),
        TokV::Group(Delim::Paren, Seq::empty()),
    ];
    let unit = Seq::<TokV>::empty();
    assert(no_segment(unit));
    assert(deep_from(unit, 0));
    assert(no_segment_deep(unit));
    assert(deep_from(inner, 3));
    assert(deep_from(inner, 2));
    assert(deep_from(inner, 1));
    assert(deep_from(inner, 0));
    assert forall|k: int| !(#[trigger] segment_at(inner, k)) by {
        if 0 <= k < 3 && segment_at(inner, k) {
            assert(punct_at(inner, k + 1, '@'));
        }
    }
    assert(no_segment_deep(inner));
    assert(deep_from(seq![marker_v(id)], 1));
}

proof fn lemma_template_deep(s: Seq<TokV>, j: int, depth: nat)
    requires
        j >= 0,
        template_from(s, j, depth) is Ok,
    ensures
        deep_from(template_from(s, j, depth)->Ok_0, 0),
    decreases s, s.len() - j,
{
    let o = template_from(s, j, depth)->Ok_0;
    if j >= s.len() {
    } else if segment_at(s, j) {
        let id = match s[j] {
            TokV::Ident(x) => x,
            _ => Seq::empty(),
        };
        lemma_template_deep(s, j + 4, depth);
        let r = template_from(s, j + 4, depth)->Ok_0;
        lemma_marker_deep(id);
        if j + 4 >= s.len() {
            let piece = seq![marker_v(id), TokV::Punct(',', Spacing::Alone)];
            assert(deep_from(piece, 2));
            assert(deep_from(piece, 1));
            assert(deep_from(piece, 0));
            lemma_deep_concat(piece, r, 0);
            assert(o == piece + r);
        } else {
            lemma_deep_concat(seq![marker_v(id)], r, 0);
            assert(o == seq![marker_v(id)] + r);
        }
    } else {
        lemma_template_deep(s, j + 1, depth);
        let r = template_from(s, j + 1, depth)->Ok_0;
        match s[j] {
            TokV::Group(d, inner) => {
                lemma_template_deep(inner, 0, depth + 1);
                lemma_template_no_segment(inner, 0, depth + 1);
                let x = template_from(inner, 0, depth + 1)->Ok_0;
                let g = seq![TokV::Group(d, x)];
                assert(no_segment_deep(x));
                assert(deep_from(g, 1));
                assert(deep_from(g, 0));
                lemma_deep_concat(g, r, 0);
                assert(o == g + r);
            },
            _ => {
                let g = seq![s[j]];
                assert(deep_from(g, 1));
                assert(deep_from(g, 0));
                lemma_deep_concat(g, r, 0);
                assert(o == g + r);
            },
        }
    }
}

/// Marking consumes every segment: a successful [`mark_template`] leaves no
/// `ident@..` in its output, at the top level nor inside any group.
pub proof fn law_marked_template_has_no_segment(s: Seq<TokV>, depth: nat)
    requires
        mark_template_spec(s, depth) is Ok,
    ensures
        no_segment(mark_template_spec(s, depth)->Ok_0),
        no_segment_deep(mark_template_spec(s, depth)->Ok_0),
{
    lemma_template_no_segment(s, 0, depth);
    lemma_template_deep(s, 0, depth);
}

} // verus!

verus! {

/// The segment name of a marker token `[Prefix; ()]`: a bracket group of a
/// single identifier, `;`, and the empty paren group (the unit length).
pub open spec fn varseg_prefix_spec(t: TokV) -> Option<Seq<char>> {
    match t {
        TokV::Group(d, v) => if d == Delim::Bracket && v.len() == 3 && v[0] is Ident && punct_v(
            v[1],
            ';',
        ) && v[2] == TokV::Group(Delim::Paren, Seq::empty()) {
            match v[0] {
                TokV::Ident(x) => Some(x),
                _ => None,
            }
        } else {
            None
        },
        _ => None,
    }
}

/// Whether an array length is the empty tuple `()`.
pub fn is_unit_len(t: &Tok) -> (b: bool)
    ensures
        b == (t@ == TokV::Group(Delim::Paren, Seq::empty())),
{
    broadcast use group_tok_view;

    match t {
        Tok::Group(Delim::Paren, v) => {
            assert(t@ == TokV::Group(Delim::Paren, tvs(v@)));
            assert(v@.len() == 0 ==> tvs(v@) =~= Seq::<TokV>::empty());
            assert(tvs(v@).len() == v@.len());
            v.len() == 0
        },
        _ => false,
    }
}

/// The variadic segment's name from its marker (`[A; ()]` → `A`).
pub fn varseg_prefix(t: &Tok) -> (r: Option<String>)
    ensures
        r matches Some(x) ==> varseg_prefix_spec(t@) == Some(x@),
        r is None ==> varseg_prefix_spec(t@) is None,
{
    broadcast use group_tok_view;

    match t {
        Tok::Group(Delim::Bracket, v) => {
            assert(t@ == TokV::Group(Delim::Bracket, tvs(v@)));
            if v.len() == 3 && is_punct(&v[1], ';') && is_unit_len(&v[2]) {
                assert(tvs(v@)[0] == tv(v@[0]));
                match &v[0] {
                    Tok::Ident(x) => Some(x.clone()),
                    _ => None,
                }
            } else {
                None
            }
        },
        _ => None,
    }
}

/// Whether a token is a variadic-segment marker.
pub fn is_varseg_type(t: &Tok) -> (b: bool)
    ensures
        b == (varseg_prefix_spec(t@) is Some),
{
    varseg_prefix(t).is_some()
}

/// A marker decodes to the name it was made from.
pub proof fn law_marker_prefix_roundtrip(id: Seq<char>)
    ensures
        varseg_prefix_spec(marker_v(id)) == Some(id),
{
}

} // verus!
