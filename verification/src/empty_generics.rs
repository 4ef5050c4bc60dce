//! `A<>` / `A<Item = T>`: copying the trait's generics. A top-level
//! identifier followed by an angle group that is empty or holds only
//! associated-type bindings expands to
//! `<formals> A <trait args, bindings>` (both angle groups), the shape
//! angle pairing produces, so the DSL layer reads it like any other.
use crate::token::{
    copy_tok, copy_toks, group_tok_view, lemma_tvs_concat, lemma_tvs_push, punct_v, tv, tvs, Delim,
    Spacing, Tok, TokV,
};
use crate::trait_items::comma_join;
use vstd::prelude::*;

verus! {

broadcast use group_tok_view;

/// Whether `s` holds a `c` at top level.
pub open spec fn has_punct(s: Seq<TokV>, c: char) -> bool {
    exists|k: int| 0 <= k < s.len() && punct_v(s[k], c)
}

/// The first top-level `,` at or after `i` (or the end).
pub open spec fn comma_at_or_after(s: Seq<TokV>, i: int) -> int
    decreases s.len() - i,
{
    if i >= s.len() {
        s.len() as int
    } else if punct_v(s[i], ',') {
        i
    } else {
        comma_at_or_after(s, i + 1)
    }
}

/// Every comma-separated part of `s` from `start` on holds an `=`.
pub open spec fn bindings_from(s: Seq<TokV>, start: int) -> bool
    decreases s.len() - start,
{
    if start < 0 || start > s.len() {
        true
    } else {
        let end = comma_at_or_after(s, start);
        &&& has_punct(s.subrange(start, end), '=')
        &&& (end >= s.len() || end < start || bindings_from(s, end + 1))
    }
}

proof fn lemma_comma_bounds(s: Seq<TokV>, i: int)
    requires
        0 <= i <= s.len(),
    ensures
        i <= comma_at_or_after(s, i) <= s.len(),
        comma_at_or_after(s, i) < s.len() ==> punct_v(s[comma_at_or_after(s, i)], ','),
        forall|j: int| i <= j < comma_at_or_after(s, i) ==> !punct_v(s[j], ','),
    decreases s.len() - i,
{
    if i < s.len() && !punct_v(s[i], ',') {
        lemma_comma_bounds(s, i + 1);
    }
}

proof fn lemma_comma_skip(s: Seq<TokV>, a: int, b: int)
    requires
        0 <= a <= b <= s.len(),
        forall|j: int| a <= j < b ==> !punct_v(s[j], ','),
    ensures
        comma_at_or_after(s, a) == comma_at_or_after(s, b),
    decreases b - a,
{
    if a < b {
        lemma_comma_skip(s, a + 1, b);
    }
}

/// Whether every top-level comma part of the arguments holds an `=`
/// (pure associated-type bindings: `Item = T, K = U`).
pub fn args_all_bindings(args: &[Tok]) -> (b: bool)
    ensures
        b == bindings_from(tvs(args@), 0),
{
    let ghost s = tvs(args@);
    let n = args.len();
    let mut start: usize = 0;
    let mut seen_eq = false;
    let mut i: usize = 0;
    while i < n
        invariant
            start <= i <= n,
            n == args@.len(),
            s == tvs(args@),
            forall|j: int| start <= j < i ==> !punct_v(s[j], ','),
            seen_eq == has_punct(s.subrange(start as int, i as int), '='),
            bindings_from(s, 0) == bindings_from(s, start as int),
        decreases n - i,
    {
        let is_comma = match &args[i] {
            Tok::Punct(c, _) => *c == ',',
            _ => false,
        };
        let is_eq = match &args[i] {
            Tok::Punct(c, _) => *c == '=',
            _ => false,
        };
        if is_comma {
            proof {
                lemma_comma_skip(s, start as int, i as int);
                assert(comma_at_or_after(s, i as int) == i);
            }
            if !seen_eq {
                return false;
            }
            start = i + 1;
            seen_eq = false;
            assert(s.subrange(start as int, start as int).len() == 0);
        } else {
            proof {
                let a = s.subrange(start as int, i as int);
                let b = s.subrange(start as int, i + 1);
                if is_eq {
                    assert(punct_v(b[i - start], '='));
                } else if has_punct(b, '=') {
                    let k = choose|k: int| 0 <= k < b.len() && punct_v(b[k], '=');
                    assert(k < a.len());
                    assert(a[k] == b[k]);
                }
                if has_punct(a, '=') {
                    let k = choose|k: int| 0 <= k < a.len() && punct_v(a[k], '=');
                    assert(b[k] == a[k]);
                }
            }
            seen_eq = seen_eq || is_eq;
        }
        i += 1;
    }
    proof {
        lemma_comma_skip(s, start as int, n as int);
    }
    seen_eq
}

/// The copy of `A<args>` at `i`, if it is one: `(formals group, A, args
/// group)`.
pub open spec fn copy_at(
    s: Seq<TokV>,
    i: int,
    formals: Seq<Seq<TokV>>,
    names: Seq<Seq<TokV>>,
) -> Option<Seq<TokV>> {
    if 0 <= i && i + 1 < s.len() && s[i] is Ident {
        match s[i + 1] {
            TokV::Group(Delim::Invisible, args) => if args.len() == 0 {
                Some(
                    seq![
                        TokV::Group(Delim::Invisible, comma_join(formals)),
                        s[i],
                        TokV::Group(Delim::Invisible, comma_join(names)),
                    ],
                )
            } else if bindings_from(args, 0) {
                Some(
                    seq![
                        TokV::Group(Delim::Invisible, comma_join(formals)),
                        s[i],
                        TokV::Group(
                            Delim::Invisible,
                            comma_join(names) + seq![TokV::Punct(',', Spacing::Alone)] + args,
                        ),
                    ],
                )
            } else {
                None
            },
            _ => None,
        }
    } else {
        None
    }
}

/// The expansion of the top level of `s` from `i` on.
pub open spec fn empty_generics_from(
    s: Seq<TokV>,
    i: int,
    formals: Seq<Seq<TokV>>,
    names: Seq<Seq<TokV>>,
) -> Seq<TokV>
    decreases s.len() - i,
{
    if i < 0 || i >= s.len() {
        Seq::empty()
    } else {
        match copy_at(s, i, formals, names) {
            Some(x) => x + empty_generics_from(s, i + 2, formals, names),
            None => seq![s[i]] + empty_generics_from(s, i + 1, formals, names),
        }
    }
}

pub open spec fn parts_view(v: Seq<Vec<Tok>>) -> Seq<Seq<TokV>> {
    Seq::new(v.len(), |k: int| tvs(v[k]@))
}

pub fn join_parts(parts: &[Vec<Tok>]) -> (out: Vec<Tok>)
    ensures
        tvs(out@) == comma_join(parts_view(parts@)),
{
    let ghost pv = parts_view(parts@);
    let mut out: Vec<Tok> = Vec::new();
    let mut k: usize = 0;
    assert(pv.subrange(0, 0) =~= Seq::<Seq<TokV>>::empty());
    while k < parts.len()
        invariant
            k <= parts@.len(),
            pv == parts_view(parts@),
            tvs(out@) == comma_join(pv.subrange(0, k as int)),
        decreases parts@.len() - k,
    {
        let ghost old_out = out@;
        if k > 0 {
            let comma = Tok::Punct(',', Spacing::Alone);
            out.push(comma);
            proof {
                lemma_tvs_push(old_out, comma);
            }
        }
        let ghost mid = out@;
        let mut d = copy_toks(parts[k].as_slice());
        let ghost dv = d@;
        out.append(&mut d);
        proof {
            lemma_tvs_concat(mid, dv);
            let np = pv.subrange(0, k + 1);
            assert(np.drop_last() =~= pv.subrange(0, k as int));
            assert(np.last() == tvs(parts@[k as int]@));
            if k == 0 {
                assert(tvs(out@) =~= comma_join(np));
            } else {
                assert(tvs(out@) =~= comma_join(np));
            }
        }
        k += 1;
    }
    assert(pv.subrange(0, parts@.len() as int) =~= pv);
    out
}

/// Expands top-level `A<>` / `A<bindings>` with the trait's formal
/// parameter list (`formals`, one entry per parameter, as declared with
/// their bounds) and argument names (`arg_names`, one per parameter).
/// A trait without generic parameters leaves the tokens unchanged.
pub fn expand_empty_trait_generics(
    tokens: &[Tok],
    formals: &[Vec<Tok>],
    arg_names: &[Vec<Tok>],
) -> (r: Vec<Tok>)
    ensures
        tvs(r@) == (if formals@.len() == 0 {
            tvs(tokens@)
        } else {
            empty_generics_from(tvs(tokens@), 0, parts_view(formals@), parts_view(arg_names@))
        }),
{
    if formals.len() == 0 {
        return copy_toks(tokens);
    }
    let ghost s = tvs(tokens@);
    let ghost fv = parts_view(formals@);
    let ghost nv = parts_view(arg_names@);
    let mut out: Vec<Tok> = Vec::new();
    let mut i: usize = 0;
    while i < tokens.len()
        invariant
            i <= tokens@.len(),
            s == tvs(tokens@),
            fv == parts_view(formals@),
            nv == parts_view(arg_names@),
            empty_generics_from(s, 0, fv, nv) == tvs(out@) + empty_generics_from(s, i as int, fv, nv),
        decreases tokens@.len() - i,
    {
        let ghost prev = out@;
        let mut expanded = false;
        if i + 1 < tokens.len() {
            match (&tokens[i], &tokens[i + 1]) {
                (Tok::Ident(_), Tok::Group(Delim::Invisible, args)) => {
                    let empty = args.len() == 0;
                    if empty || args_all_bindings(args.as_slice()) {
                        let fg = Tok::Group(Delim::Invisible, join_parts(formals));
                        let id = copy_tok(&tokens[i]);
                        let mut a = join_parts(arg_names);
                        if !empty {
                            let ghost a0 = a@;
                            let comma = Tok::Punct(',', Spacing::Alone);
                            a.push(comma);
                            let ghost a1 = a@;
                            let mut b = copy_toks(args.as_slice());
                            let ghost bv = b@;
                            a.append(&mut b);
                            proof {
                                lemma_tvs_push(a0, comma);
                                lemma_tvs_concat(a1, bv);
                            }
                        }
                        let ag = Tok::Group(Delim::Invisible, a);
                        out.push(fg);
                        out.push(id);
                        out.push(ag);
                        proof {
                            assert(tvs(out@) =~= tvs(prev) + seq![tv(fg), tv(id), tv(ag)]);
                            assert(copy_at(s, i as int, fv, nv) == Some(seq![tv(fg), tv(id), tv(ag)]));
                            assert(tvs(prev) + (seq![tv(fg), tv(id), tv(ag)] + empty_generics_from(
                                s,
                                i + 2,
                                fv,
                                nv,
                            )) =~= tvs(out@) + empty_generics_from(s, i + 2, fv, nv));
                        }
                        expanded = true;
                    }
                },
                _ => {},
            }
        }
        if expanded {
            i += 2;
        } else {
            assert(copy_at(s, i as int, fv, nv) is None);
            let t = copy_tok(&tokens[i]);
            out.push(t);
            proof {
                lemma_tvs_push(prev, t);
                assert(tvs(prev) + (seq![tv(t)] + empty_generics_from(s, i + 1, fv, nv)) =~= tvs(out@)
                    + empty_generics_from(s, i + 1, fv, nv));
            }
            i += 1;
        }
    }
    assert(tvs(out@) + Seq::<TokV>::empty() =~= tvs(out@));
    out
}

} // verus!
