//! The token model the DSL passes work on.
//!
//! A macro input is a forest of tokens: identifiers, punctuation with its
//! spacing, literals, and delimited groups. `<...>` pairs are carried by the
//! transparent delimiter once `angle_collect` has paired them (the same
//! carrier a macro-variable expansion produces).
//!
//! Exec values are [`Tok`]; contracts speak of their mathematical view
//! [`TokV`] (`tv` / `tvs`), where texts are character sequences.
use vstd::prelude::*;

verus! {

/// Recursion guard shared by every recursive pass: deeper nesting is an
/// input error, not a stack overflow.
pub const MAX_NEST_DEPTH: usize = 128;

/// Group delimiters; `Invisible` is the transparent delimiter (a real
/// macro-variable group before pairing, an angle group after it).
#[derive(Clone, Copy, PartialEq, Eq, Structural, Debug)]
pub enum Delim {
    Paren,
    Bracket,
    Brace,
    Invisible,
}

/// Whether a punctuation character is glued to the next one.
#[derive(Clone, Copy, PartialEq, Eq, Structural, Debug)]
pub enum Spacing {
    Alone,
    Joint,
}

/// One token tree.
#[derive(Debug)]
pub enum Tok {
    Ident(String),
    Punct(char, Spacing),
    Literal(String),
    Group(Delim, Vec<Tok>),
}

/// The mathematical view of a token tree.
pub enum TokV {
    Ident(Seq<char>),
    Punct(char, Spacing),
    Literal(Seq<char>),
    Group(Delim, Seq<TokV>),
}

pub open spec fn tv(t: Tok) -> TokV
    decreases t,
{
    match t {
        Tok::Ident(s) => TokV::Ident(s@),
        Tok::Punct(c, sp) => TokV::Punct(c, sp),
        Tok::Literal(s) => TokV::Literal(s@),
        Tok::Group(d, v) => TokV::Group(d, tvs(v@)),
    }
}

pub open spec fn tvs(s: Seq<Tok>) -> Seq<TokV>
    decreases s,
{
    Seq::new(
        s.len(),
        |i: int|
            if 0 <= i < s.len() {
                tv(s[i])
            } else {
                TokV::Punct(' ', Spacing::Alone)
            },
    )
}

impl View for Tok {
    type V = TokV;

    open spec fn view(&self) -> TokV {
        tv(*self)
    }
}

pub broadcast proof fn lemma_tvs_index(s: Seq<Tok>, i: int)
    requires
        0 <= i < s.len(),
    ensures
        #[trigger] tvs(s)[i] == tv(s[i]),
{
}

pub broadcast proof fn lemma_tvs_len(s: Seq<Tok>)
    ensures
        #[trigger] tvs(s).len() == s.len(),
{
}

pub broadcast group group_tok_view {
    lemma_tvs_index,
    lemma_tvs_len,
}

pub proof fn lemma_tvs_push(s: Seq<Tok>, t: Tok)
    ensures
        tvs(s.push(t)) == tvs(s).push(tv(t)),
        tvs(s.push(t)) == tvs(s) + seq![tv(t)],
{
    assert(tvs(s.push(t)) =~= tvs(s).push(tv(t)));
    assert(tvs(s.push(t)) =~= tvs(s) + seq![tv(t)]);
}

pub proof fn lemma_tvs_concat(a: Seq<Tok>, b: Seq<Tok>)
    ensures
        tvs(a + b) == tvs(a) + tvs(b),
{
    assert(tvs(a + b) =~= tvs(a) + tvs(b));
}

pub proof fn lemma_tvs_subrange(s: Seq<Tok>, a: int, b: int)
    requires
        0 <= a <= b <= s.len(),
    ensures
        tvs(s.subrange(a, b)) == tvs(s).subrange(a, b),
{
    assert(tvs(s.subrange(a, b)) =~= tvs(s).subrange(a, b));
}

// ------------------------------------------------------------------
// Token-shape predicates (spec side, over the view)
// ------------------------------------------------------------------

pub open spec fn punct_v(t: TokV, c: char) -> bool {
    t matches TokV::Punct(x, _) && x == c
}

pub open spec fn punct_at(s: Seq<TokV>, i: int, c: char) -> bool {
    0 <= i < s.len() && punct_v(s[i], c)
}

pub open spec fn joint_punct_at(s: Seq<TokV>, i: int, c: char) -> bool {
    0 <= i < s.len() && s[i] == TokV::Punct(c, Spacing::Joint)
}

pub open spec fn ident_v(t: TokV, w: Seq<char>) -> bool {
    t matches TokV::Ident(x) && x == w
}

pub open spec fn ident_at(s: Seq<TokV>, i: int, w: Seq<char>) -> bool {
    0 <= i < s.len() && ident_v(s[i], w)
}

pub open spec fn is_ident_v(t: TokV) -> bool {
    t is Ident
}

pub open spec fn group_at(s: Seq<TokV>, i: int, d: Delim) -> bool {
    &&& 0 <= i < s.len()
    &&& s[i] matches TokV::Group(x, _) && x == d
}

/// `s[i]` is the `>` of a `->` arrow: the previous token is a joint `-`.
pub open spec fn arrow_at(s: Seq<TokV>, i: int) -> bool {
    i > 0 && joint_punct_at(s, i - 1, '-')
}

/// A group at `i` is a macro body (`m![...]`) or an attribute (`#[...]`):
/// its content is arbitrary Rust that no pass enters.
pub open spec fn passthrough_at(s: Seq<TokV>, i: int) -> bool {
    i > 0 && (punct_at(s, i - 1, '!') || punct_at(s, i - 1, '#'))
}

/// `impl{...}`: the shape-template attachment (ident `impl` directly
/// followed by a brace group).
pub open spec fn impl_template_at(s: Seq<TokV>, i: int) -> bool {
    ident_at(s, i, "impl"@) && group_at(s, i + 1, Delim::Brace)
}

/// `..` starting at `k`: a joint `.` followed by a `.`.
pub open spec fn dotdot_at(s: Seq<TokV>, k: int) -> bool {
    joint_punct_at(s, k, '.') && punct_at(s, k + 1, '.')
}

/// The inner tokens of a group view (empty for a non-group).
pub open spec fn inner_v(t: TokV) -> Seq<TokV> {
    match t {
        TokV::Group(_, v) => v,
        _ => Seq::empty(),
    }
}

// ------------------------------------------------------------------
// Exec side
// ------------------------------------------------------------------

/// Whether `s` spells exactly `lit`.
pub fn text_is(s: &String, lit: &str) -> (b: bool)
    ensures
        b == (s@ == lit@),
{
    let t = String::from_str(lit);
    *s == t
}

/// Whether a token is the punctuation character `c`.
pub fn is_punct(t: &Tok, c: char) -> (b: bool)
    ensures
        b == punct_v(t@, c),
{
    match t {
        Tok::Punct(x, _) => *x == c,
        _ => false,
    }
}

/// The token at `i + k`, if it exists (no overflow for any `i`, `k`).
pub fn tok_at(tokens: &[Tok], i: usize, k: usize) -> (r: Option<&Tok>)
    ensures
        i + k < tokens@.len() ==> r == Some(&tokens@[i + k]),
        i + k >= tokens@.len() ==> r is None,
{
    if i < tokens.len() && k < tokens.len() - i {
        Some(&tokens[i + k])
    } else {
        None
    }
}

pub fn is_punct_at(tokens: &[Tok], i: usize, c: char) -> (b: bool)
    ensures
        b == punct_at(tvs(tokens@), i as int, c),
{
    broadcast use group_tok_view;

    if i < tokens.len() {
        is_punct(&tokens[i], c)
    } else {
        false
    }
}

pub fn is_joint_punct_at(tokens: &[Tok], i: usize, c: char) -> (b: bool)
    ensures
        b == joint_punct_at(tvs(tokens@), i as int, c),
{
    broadcast use group_tok_view;

    if i < tokens.len() {
        match &tokens[i] {
            Tok::Punct(x, Spacing::Joint) => *x == c,
            _ => false,
        }
    } else {
        false
    }
}

pub fn is_ident_text(t: &Tok, lit: &str) -> (b: bool)
    ensures
        b == ident_v(t@, lit@),
{
    match t {
        Tok::Ident(s) => text_is(s, lit),
        _ => false,
    }
}

pub fn is_ident_at(tokens: &[Tok], i: usize, lit: &str) -> (b: bool)
    ensures
        b == ident_at(tvs(tokens@), i as int, lit@),
{
    broadcast use group_tok_view;

    if i < tokens.len() {
        is_ident_text(&tokens[i], lit)
    } else {
        false
    }
}

pub fn is_group_at(tokens: &[Tok], i: usize, d: Delim) -> (b: bool)
    ensures
        b == group_at(tvs(tokens@), i as int, d),
{
    broadcast use group_tok_view;

    if i < tokens.len() {
        match &tokens[i] {
            Tok::Group(x, _) => *x == d,
            _ => false,
        }
    } else {
        false
    }
}

/// Whether `tokens[index]` is the `>` of a `->` arrow.
pub fn is_arrow(tokens: &[Tok], index: usize) -> (b: bool)
    requires
        index <= tokens@.len(),
    ensures
        b == arrow_at(tvs(tokens@), index as int),
{
    index > 0 && is_joint_punct_at(tokens, index - 1, '-')
}

/// Whether the group at `i` is a macro body or an attribute.
pub fn bracket_is_passthrough(tokens: &[Tok], i: usize) -> (b: bool)
    requires
        i <= tokens@.len(),
    ensures
        b == passthrough_at(tvs(tokens@), i as int),
{
    i > 0 && (is_punct_at(tokens, i - 1, '!') || is_punct_at(tokens, i - 1, '#'))
}

/// Whether `tokens[i]` starts an `impl{...}` shape-template attachment.
pub fn is_impl_template(tokens: &[Tok], i: usize) -> (b: bool)
    ensures
        b == impl_template_at(tvs(tokens@), i as int),
{
    i < tokens.len() && is_ident_at(tokens, i, "impl") && i + 1 < tokens.len()
        && is_group_at(tokens, i + 1, Delim::Brace)
}

/// Whether `..` starts at `k`.
pub fn is_dotdot_at(tokens: &[Tok], k: usize) -> (b: bool)
    ensures
        b == dotdot_at(tvs(tokens@), k as int),
{
    k < tokens.len() && is_joint_punct_at(tokens, k, '.') && k + 1 < tokens.len()
        && is_punct_at(tokens, k + 1, '.')
}

/// A deep copy of one token tree.
pub fn copy_tok(t: &Tok) -> (r: Tok)
    ensures
        r@ == t@,
    decreases t, 1nat,
{
    match t {
        Tok::Ident(s) => {
            let c = s.clone();
            let r = Tok::Ident(c);
            assert(tv(r) == tv(*t));
            r
        },
        Tok::Punct(c, sp) => Tok::Punct(*c, *sp),
        Tok::Literal(s) => {
            let c = s.clone();
            let r = Tok::Literal(c);
            assert(tv(r) == tv(*t));
            r
        },
        Tok::Group(d, v) => {
            let out = copy_toks_bounded(t, v.as_slice());
            let r = Tok::Group(*d, out);
            assert(tvs(out@) =~= tvs(v@));
            r
        },
    }
}

fn copy_toks_bounded(outer: &Tok, v: &[Tok]) -> (out: Vec<Tok>)
    requires
        outer matches Tok::Group(_, w) && w@ == v@,
    ensures
        tvs(out@) == tvs(v@),
    decreases outer, 0nat,
{
    broadcast use group_tok_view;

    let mut out: Vec<Tok> = Vec::new();
    let mut i: usize = 0;
    while i < v.len()
        invariant
            i <= v@.len(),
            outer matches Tok::Group(_, w) && w@ == v@,
            out@.len() == i,
            forall|j: int| 0 <= j < i ==> tv(#[trigger] out@[j]) == tv(v@[j]),
        decreases v.len() - i,
    {
        proof {
            let w = outer->Group_1;
            assert(decreases_to!(*outer => outer->Group_1));
            assert(decreases_to!(w => w[i as int]));
        }
        let c = copy_tok(&v[i]);
        out.push(c);
        i += 1;
    }
    assert(tvs(out@) =~= tvs(v@));
    out
}

/// A deep copy of a token list.
pub fn copy_toks(v: &[Tok]) -> (out: Vec<Tok>)
    ensures
        tvs(out@) == tvs(v@),
{
    copy_range(v, 0, v.len())
}

/// A deep copy of `v[a..b]`.
pub fn copy_range(v: &[Tok], a: usize, b: usize) -> (out: Vec<Tok>)
    requires
        a <= b <= v@.len(),
    ensures
        tvs(out@) == tvs(v@).subrange(a as int, b as int),
{
    broadcast use group_tok_view;

    let mut out: Vec<Tok> = Vec::new();
    let mut i: usize = a;
    while i < b
        invariant
            a <= i <= b <= v@.len(),
            out@.len() == i - a,
            forall|j: int| 0 <= j < i - a ==> tv(#[trigger] out@[j]) == tv(v@[a + j]),
        decreases b - i,
    {
        let c = copy_tok(&v[i]);
        out.push(c);
        i += 1;
    }
    assert(tvs(out@) =~= tvs(v@).subrange(a as int, b as int));
    out
}

} // verus!
