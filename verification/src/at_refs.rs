//! Position references inside a token chunk that is not parsed as a type
//! (angle-group contents, where predicates): every `@N`, `@L_N`, `@N..`,
//! `@N..M` and `@N..=M` comes out as a structured [`FreshRef`], groups are
//! entered, and an `@` followed by anything else is an input error. A
//! reference already in carrier form (`@` followed by a brace group) is
//! atomic and passes through as written.
use crate::diag::{diag, Diag};
use crate::refs::{
    parse_range_literal, parse_single_ref_token, parse_usize, parse_usize_exec, range_literal_spec,
    single_ref_spec, FreshEnd, FreshRef,
};
use crate::token::{
    copy_tok, group_tok_view, joint_punct_at, punct_at, punct_v, tok_at, tv, tvs, Delim, Spacing, Tok,
    TokV,
};
use vstd::prelude::*;

verus! {

broadcast use group_tok_view;

/// A token of a resolved chunk: a token kept as written, a reference, or a
/// group whose content was resolved.
#[derive(Debug)]
pub enum RefTok {
    Tok(Tok),
    Ref(FreshRef),
    Group(Delim, Vec<RefTok>),
}

/// The mathematical view of a resolved token.
pub enum RefTokV {
    Tok(TokV),
    Ref(FreshRef),
    Group(Delim, Seq<RefTokV>),
}

pub open spec fn rv(t: RefTok) -> RefTokV
    decreases t,
{
    match t {
        RefTok::Tok(x) => RefTokV::Tok(tv(x)),
        RefTok::Ref(r) => RefTokV::Ref(r),
        RefTok::Group(d, v) => RefTokV::Group(d, rvs(v@)),
    }
}

pub open spec fn rvs(s: Seq<RefTok>) -> Seq<RefTokV>
    decreases s,
{
    Seq::new(
        s.len(),
        |i: int|
            if 0 <= i < s.len() {
                rv(s[i])
            } else {
                RefTokV::Tok(TokV::Punct(' ', Spacing::Alone))
            },
    )
}

proof fn lemma_rvs_push(s: Seq<RefTok>, t: RefTok)
    ensures
        rvs(s.push(t)) == rvs(s) + seq![rv(t)],
{
    assert(rvs(s.push(t)) =~= rvs(s) + seq![rv(t)]);
}

/// `x` followed by the output of `r` (errors pass through).
pub open spec fn ref_then(x: Seq<RefTokV>, r: Result<Seq<RefTokV>, Seq<char>>) -> Result<
    Seq<RefTokV>,
    Seq<char>,
> {
    match r {
        Ok(v) => Ok(x + v),
        Err(e) => Err(e),
    }
}

proof fn lemma_ref_then_assoc(a: Seq<RefTokV>, b: Seq<RefTokV>, r: Result<Seq<RefTokV>, Seq<char>>)
    ensures
        ref_then(a, ref_then(b, r)) == ref_then(a + b, r),
{
    if let Ok(v) = r {
        assert(a + (b + v) =~= (a + b) + v);
    }
}

pub open spec fn range_end_msg() -> Seq<char> {
    "batch-impl: a `@N..M` range must end with a number (e.g. `@0..=2`)"@
}

pub open spec fn empty_range_msg() -> Seq<char> {
    "batch-impl: empty exclusive range `@{}..{}` (start not below end)"@
}

pub open spec fn follow_digit_msg() -> Seq<char> {
    "batch-impl: `@` in a type must be followed by a position digit (e.g. `@0` or `@0_1`)"@
}

pub open spec fn be_digit_msg() -> Seq<char> {
    "batch-impl: `@` in a type must be a position digit (e.g. `@0` or `@0_1`)"@
}

/// `..=` at `k`: both dots joint, then `=`.
pub open spec fn dotdoteq_at(t: Seq<TokV>, k: int) -> bool {
    joint_punct_at(t, k, '.') && joint_punct_at(t, k + 1, '.') && punct_at(t, k + 2, '=')
}

/// `..` at `k` (not followed by a glued `=`).
pub open spec fn dotdot_only_at(t: Seq<TokV>, k: int) -> bool {
    joint_punct_at(t, k, '.') && punct_at(t, k + 1, '.') && !dotdoteq_at(t, k)
}

/// The literal text at `k`, if `t[k]` is a literal.
pub open spec fn lit_at(t: Seq<TokV>, k: int) -> Option<Seq<char>> {
    if 0 <= k < t.len() {
        match t[k] {
            TokV::Literal(l) => Some(l),
            _ => None,
        }
    } else {
        None
    }
}

/// The reference starting with the `@` at `t[0]`: what it resolves to and
/// how many tokens it takes.
///
/// - `@{...}` (a carrier): both tokens as written;
/// - `@` literal `..` / `..=` where the literal is `N` or `L_N`: a range
///   from `N`; a number literal after the operator closes it (`..M` is
///   `..=M-1`, and needs `N < M`), otherwise it is open;
/// - `@` literal `N` / `L_N`: one position;
/// - anything else: an error.
pub open spec fn at_ref_spec(t: Seq<TokV>) -> Result<(Seq<RefTokV>, int), Seq<char>> {
    if t.len() > 1 && t[1] matches TokV::Group(Delim::Brace, _) {
        Ok((seq![RefTokV::Tok(t[0]), RefTokV::Tok(t[1])], 2))
    } else if lit_at(t, 1) is Some {
        let lit = lit_at(t, 1)->0;
        if range_literal_spec(lit) is Some && (dotdoteq_at(t, 2) || dotdot_only_at(t, 2)) {
            let (group, start) = range_literal_spec(lit)->0;
            let inclusive = dotdoteq_at(t, 2);
            let c: int = if inclusive {
                5
            } else {
                4
            };
            if lit_at(t, c) is Some {
                match parse_usize(lit_at(t, c)->0) {
                    None => Err(range_end_msg()),
                    Some(e) => if inclusive || start < e {
                        let end = if inclusive {
                            e
                        } else {
                            (e - 1) as usize
                        };
                        Ok((seq![RefTokV::Ref(FreshRef { group, start, end: FreshEnd::Closed(end) })], c + 1))
                    } else {
                        Err(empty_range_msg())
                    },
                }
            } else {
                Ok((seq![RefTokV::Ref(FreshRef { group, start, end: FreshEnd::Open })], c))
            }
        } else {
            match single_ref_spec(lit) {
                Some(r) => Ok((seq![RefTokV::Ref(r)], 2)),
                None => Err(follow_digit_msg()),
            }
        }
    } else {
        Err(be_digit_msg())
    }
}

/// Every `@` reference of `s`, at any depth, resolved (see
/// [`at_ref_spec`]); every other token kept, groups rebuilt around their
/// resolved content.
pub open spec fn resolve_spec(s: Seq<TokV>) -> Result<Seq<RefTokV>, Seq<char>>
    decreases s,
{
    if s.len() == 0 {
        Ok(Seq::empty())
    } else if punct_v(s[0], '@') {
        match at_ref_spec(s) {
            Err(e) => Err(e),
            Ok((x, n)) => if 1 <= n <= s.len() {
                ref_then(x, resolve_spec(s.subrange(n, s.len() as int)))
            } else {
                Ok(x)
            },
        }
    } else {
        match s[0] {
            TokV::Group(d, inner) => match resolve_spec(inner) {
                Err(e) => Err(e),
                Ok(x) => ref_then(
                    seq![RefTokV::Group(d, x)],
                    resolve_spec(s.subrange(1, s.len() as int)),
                ),
            },
            _ => ref_then(seq![RefTokV::Tok(s[0])], resolve_spec(s.subrange(1, s.len() as int))),
        }
    }
}

proof fn lemma_at_ref_len(t: Seq<TokV>)
    ensures
        at_ref_spec(t) matches Ok((_, n)) ==> 2 <= n <= t.len(),
{
}

/// The suffix of `s` from `i`.
pub open spec fn from_v(s: Seq<TokV>, i: int) -> Seq<TokV> {
    s.subrange(i, s.len() as int)
}

proof fn lemma_from_skip(s: Seq<TokV>, i: int, k: int)
    requires
        0 <= i <= s.len(),
        0 <= k <= s.len() - i,
    ensures
        from_v(from_v(s, i), k) == from_v(s, i + k),
{
    assert(from_v(from_v(s, i), k) =~= from_v(s, i + k));
}

fn lit_text(tokens: &[Tok], i: usize, k: usize) -> (r: Option<&String>)
    requires
        i <= tokens@.len(),
    ensures
        match r {
            Some(l) => lit_at(from_v(tvs(tokens@), i as int), k as int) == Some(l@),
            None => lit_at(from_v(tvs(tokens@), i as int), k as int) is None,
        },
{
    match tok_at(tokens, i, k) {
        Some(Tok::Literal(l)) => Some(l),
        _ => None,
    }
}

fn joint_at(tokens: &[Tok], i: usize, k: usize, c: char) -> (b: bool)
    requires
        i <= tokens@.len(),
    ensures
        b == joint_punct_at(from_v(tvs(tokens@), i as int), k as int, c),
{
    match tok_at(tokens, i, k) {
        Some(Tok::Punct(x, Spacing::Joint)) => *x == c,
        _ => false,
    }
}

fn punct_rel(tokens: &[Tok], i: usize, k: usize, c: char) -> (b: bool)
    requires
        i <= tokens@.len(),
    ensures
        b == punct_at(from_v(tvs(tokens@), i as int), k as int, c),
{
    match tok_at(tokens, i, k) {
        Some(Tok::Punct(x, _)) => *x == c,
        _ => false,
    }
}

/// The reference at `tokens[i]` (an `@`), with the number of tokens it
/// takes.
fn at_ref(tokens: &[Tok], i: usize) -> (r: Result<(Vec<RefTok>, usize), Diag>)
    requires
        i < tokens@.len(),
    ensures
        match r {
            Ok((v, n)) => at_ref_spec(from_v(tvs(tokens@), i as int)) == Ok::<
                (Seq<RefTokV>, int),
                Seq<char>,
            >((rvs(v@), n as int)),
            Err(d) => at_ref_spec(from_v(tvs(tokens@), i as int)) == Err::<
                (Seq<RefTokV>, int),
                Seq<char>,
            >(d@),
        },
{
    let ghost t = from_v(tvs(tokens@), i as int);
    if let Some(Tok::Group(Delim::Brace, _)) = tok_at(tokens, i, 1) {
        let mut v: Vec<RefTok> = Vec::new();
        v.push(RefTok::Tok(copy_tok(&tokens[i])));
        v.push(RefTok::Tok(copy_tok(&tokens[i + 1])));
        assert(rvs(v@) =~= seq![RefTokV::Tok(t[0]), RefTokV::Tok(t[1])]);
        return Ok((v, 2));
    }
    let lit = match lit_text(tokens, i, 1) {
        Some(l) => l,
        None => {
            return Err(diag("batch-impl: `@` in a type must be a position digit (e.g. `@0` or `@0_1`)"));
        },
    };
    let inclusive = joint_at(tokens, i, 2, '.') && joint_at(tokens, i, 3, '.') && punct_rel(
        tokens,
        i,
        4,
        '=',
    );
    let dotdot = !inclusive && joint_at(tokens, i, 2, '.') && punct_rel(tokens, i, 3, '.');
    assert(inclusive == dotdoteq_at(t, 2));
    assert(dotdot == dotdot_only_at(t, 2));
    if let Some((group, start)) = parse_range_literal(lit.as_str()) {
        if inclusive || dotdot {
            let c: usize = if inclusive { 5 } else { 4 };
            let mut v: Vec<RefTok> = Vec::new();
            match lit_text(tokens, i, c) {
                Some(el) => {
                    match parse_usize_exec(el.as_str()) {
                        None => {
                            return Err(
                                diag(
                                    "batch-impl: a `@N..M` range must end with a number (e.g. `@0..=2`)",
                                ),
                            );
                        },
                        Some(e) => {
                            if inclusive || start < e {
                                let end = if inclusive { e } else { e - 1 };
                                v.push(RefTok::Ref(FreshRef { group, start, end: FreshEnd::Closed(end) }));
                                assert(rvs(v@) =~= seq![RefTokV::Ref(FreshRef { group, start, end: FreshEnd::Closed(end) })]);
                                return Ok((v, c + 1));
                            } else {
                                return Err(
                                    diag(
                                        "batch-impl: empty exclusive range `@{}..{}` (start not below end)",
                                    ),
                                );
                            }
                        },
                    }
                },
                None => {
                    v.push(RefTok::Ref(FreshRef { group, start, end: FreshEnd::Open }));
                    assert(rvs(v@) =~= seq![RefTokV::Ref(FreshRef { group, start, end: FreshEnd::Open })]);
                    return Ok((v, c));
                },
            }
        }
    }
    match parse_single_ref_token(lit.as_str()) {
        Some(r) => {
            let mut v: Vec<RefTok> = Vec::new();
            v.push(RefTok::Ref(r));
            assert(rvs(v@) =~= seq![RefTokV::Ref(r)]);
            Ok((v, 2))
        },
        None => Err(
            diag(
                "batch-impl: `@` in a type must be followed by a position digit (e.g. `@0` or `@0_1`)",
            ),
        ),
    }
}

/// Resolves every `@` position reference of a token chunk, at any depth
/// (see [`resolve_spec`]).
pub fn resolve_at_refs(tokens: &[Tok]) -> (r: Result<Vec<RefTok>, Diag>)
    ensures
        match r {
            Ok(v) => resolve_spec(tvs(tokens@)) == Ok::<Seq<RefTokV>, Seq<char>>(rvs(v@)),
            Err(d) => resolve_spec(tvs(tokens@)) == Err::<Seq<RefTokV>, Seq<char>>(d@),
        },
    decreases tokens@,
{
    let ghost s = tvs(tokens@);
    let mut out: Vec<RefTok> = Vec::new();
    let mut i: usize = 0;
    assert(from_v(s, 0) =~= s);
    while i < tokens.len()
        invariant
            i <= tokens@.len(),
            s == tvs(tokens@),
            resolve_spec(s) == ref_then(rvs(out@), resolve_spec(from_v(s, i as int))),
        decreases tokens@.len() - i,
    {
        let ghost t = from_v(s, i as int);
        let ghost before = rvs(out@);
        assert(t[0] == s[i as int]);
        match &tokens[i] {
            Tok::Punct(c, _) if *c == '@' => {
                proof {
                    lemma_at_ref_len(t);
                }
                match at_ref(tokens, i) {
                    Err(d) => {
                        return Err(d);
                    },
                    Ok((v, n)) => {
                        let ghost x = rvs(v@);
                        proof {
                            lemma_from_skip(s, i as int, n as int);
                            lemma_ref_then_assoc(before, x, resolve_spec(from_v(s, i + n)));
                        }
                        let mut v = v;
                        out.append(&mut v);
                        assert(rvs(out@) =~= before + x);
                        i += n;
                    },
                }
            },
            Tok::Group(d, inner) => {
                proof {
                    assert(decreases_to!(tokens@ => tokens@[i as int]));
                    lemma_from_skip(s, i as int, 1);
                }
                match resolve_at_refs(inner.as_slice()) {
                    Err(e) => {
                        return Err(e);
                    },
                    Ok(v) => {
                        let g = RefTok::Group(*d, v);
                        let ghost prev = out@;
                        out.push(g);
                        proof {
                            lemma_rvs_push(prev, g);
                            lemma_ref_then_assoc(
                                before,
                                seq![rv(g)],
                                resolve_spec(from_v(s, i + 1)),
                            );
                        }
                        i += 1;
                    },
                }
            },
            _ => {
                let g = RefTok::Tok(copy_tok(&tokens[i]));
                let ghost prev = out@;
                out.push(g);
                proof {
                    lemma_from_skip(s, i as int, 1);
                    lemma_rvs_push(prev, g);
                    lemma_ref_then_assoc(before, seq![rv(g)], resolve_spec(from_v(s, i + 1)));
                }
                i += 1;
            },
        }
    }
    assert(from_v(s, i as int) =~= Seq::<TokV>::empty());
    assert(rvs(out@) + Seq::<RefTokV>::empty() =~= rvs(out@));
    Ok(out)
}

} // verus!
