//! The wrapper list of `#blanket`: comma-separated elements, each an
//! arbitrary type expression, an optional `:N` deref depth, and an optional
//! trailing `where{...}` with bound predicates.
use crate::diag::{diag, Diag};
use crate::display::{dec, tok_display, tok_text, usize_text};
use crate::refs::parse_usize;
use crate::scan::{is_single_colon, single_colon_at};
use crate::text::{cat3, parse_unsigned_exec};
use crate::token::{
    copy_range, copy_tok, group_tok_view, ident_v, is_ident_text, lemma_tvs_push, punct_v, tv, tvs,
    Delim, Spacing, Tok, TokV,
};
use vstd::prelude::*;

verus! {

broadcast use group_tok_view;

/// Bound of the `:N` deref depth: the delegation body holds `N + 1` derefs.
pub const MAX_BLANKET_DEPTH: usize = 128;

/// One wrapper of the list.
#[derive(Debug)]
pub struct BlanketWrapper {
    /// The wrapper type expression, without the `:N` annotation.
    pub ty: Vec<Tok>,
    /// Deref depth of the delegation body (`:N`, or 1).
    pub depth: usize,
    /// The content of a trailing `where{...}`.
    pub where_preds: Option<Vec<Tok>>,
}

/// The mathematical view of a wrapper.
pub struct WrapperV {
    pub ty: Seq<TokV>,
    pub depth: nat,
    pub where_preds: Option<Seq<TokV>>,
}

pub open spec fn wrapper_view(w: BlanketWrapper) -> WrapperV {
    WrapperV {
        ty: tvs(w.ty@),
        depth: w.depth as nat,
        where_preds: match w.where_preds {
            Some(p) => Some(tvs(p@)),
            None => None,
        },
    }
}

pub open spec fn wrappers_view(v: Seq<BlanketWrapper>) -> Seq<WrapperV> {
    Seq::new(v.len(), |i: int| wrapper_view(v[i]))
}

pub open spec fn list_view(r: Result<Vec<BlanketWrapper>, Diag>) -> Result<
    Seq<WrapperV>,
    Seq<char>,
> {
    match r {
        Ok(v) => Ok(wrappers_view(v@)),
        Err(d) => Err(d@),
    }
}

// ------------------------------------------------------------------
// Messages

pub open spec fn empty_element_msg() -> Seq<char> {
    "batch-impl: #blanket wrapper list contains an empty element (e.g. `&,Box`); separate elements with `,`"@
}

pub open spec fn invalid_depth_msg(lit: Seq<char>) -> Seq<char> {
    "batch-impl: #blanket `:"@ + lit
        + "` has an invalid depth (must be a positive integer, e.g. `Box^Arc:2`)"@
}

pub open spec fn zero_depth_msg() -> Seq<char> {
    "batch-impl: #blanket `:0` is meaningless (deref depth must be ≥ 1)"@
}

pub open spec fn large_depth_msg(d: nat) -> Seq<char> {
    "batch-impl: #blanket `:"@ + dec(d) + "` is too large (deref depth must be ≤ 128)"@
}

pub open spec fn not_number_msg(t: TokV) -> Seq<char> {
    "batch-impl: after #blanket `:"@ + tok_text(t) + "` must come a number (e.g. `Box^Arc:2`)"@
}

pub open spec fn nothing_after_colon_msg() -> Seq<char> {
    "batch-impl: after #blanket `:` must come a number (e.g. `Box^Arc:2`)"@
}

pub open spec fn missing_type_msg() -> Seq<char> {
    "batch-impl: #blanket `:N` is missing the wrapper type before it (e.g. `Box^Arc:2`)"@
}

pub open spec fn raw_pointer_msg() -> Seq<char> {
    "batch-impl: #blanket does not support `*const`/`*mut` wrappers (deref is unsafe, cannot delegate); write #delegate by hand"@
}

pub open spec fn self_wrapper_msg() -> Seq<char> {
    "batch-impl: #blanket does not support `self` wrappers (delegation is meaningless); write #delegate by hand"@
}

// ------------------------------------------------------------------
// One element

/// The element split from its trailing `where{...}`: the element's last
/// two tokens are the ident `where` and a brace group.
pub open spec fn where_split(e: Seq<TokV>) -> (Seq<TokV>, Option<Seq<TokV>>) {
    if e.len() >= 2 && ident_v(e[e.len() - 2], "where"@) {
        match e[e.len() - 1] {
            TokV::Group(Delim::Brace, g) => (e.subrange(0, e.len() - 2), Some(g)),
            _ => (e, None),
        }
    } else {
        (e, None)
    }
}

/// The last lone `:` among the first `n` tokens of `c`.
pub open spec fn last_colon_below(c: Seq<TokV>, n: int) -> Option<int>
    decreases n,
{
    if n <= 0 {
        None
    } else if single_colon_at(c, n - 1) {
        Some(n - 1)
    } else {
        last_colon_below(c, n - 1)
    }
}

/// The depth annotation: `Ok((depth, end of the type))`.
pub open spec fn depth_spec(c: Seq<TokV>) -> Result<(nat, int), Seq<char>> {
    match last_colon_below(c, c.len() as int) {
        None => Ok((1, c.len() as int)),
        Some(i) => if i + 1 < c.len() {
            match c[i + 1] {
                TokV::Literal(text) => match parse_usize(text) {
                    None => Err(invalid_depth_msg(text)),
                    Some(d) => if d == 0 {
                        Err(zero_depth_msg())
                    } else if d > 128 {
                        Err(large_depth_msg(d as nat))
                    } else {
                        Ok((d as nat, i))
                    },
                },
                other => Err(not_number_msg(other)),
            }
        } else {
            Err(nothing_after_colon_msg())
        },
    }
}

/// The type of the built-in `@Cow` wrapper: `Cow<'_>`.
pub open spec fn cow_type() -> Seq<TokV> {
    seq![
        TokV::Ident("Cow"@),
        TokV::Group(
            Delim::Invisible,
            seq![TokV::Punct('\'', Spacing::Joint), TokV::Ident("_"@)],
        ),
    ]
}

/// The bound predicates of `@Cow`: `@0: ToOwned + ?Sized, @0::Owned: @trait`.
pub open spec fn cow_preds() -> Seq<TokV> {
    seq![
        TokV::Punct('@', Spacing::Alone),
        TokV::Literal("0"@),
        TokV::Punct(':', Spacing::Alone),
        TokV::Ident("ToOwned"@),
        TokV::Punct('+', Spacing::Alone),
        TokV::Punct('?', Spacing::Alone),
        TokV::Ident("Sized"@),
        TokV::Punct(',', Spacing::Alone),
        TokV::Punct('@', Spacing::Alone),
        TokV::Literal("0"@),
        TokV::Punct(':', Spacing::Joint),
        TokV::Punct(':', Spacing::Alone),
        TokV::Ident("Owned"@),
        TokV::Punct(':', Spacing::Alone),
        TokV::Punct('@', Spacing::Alone),
        TokV::Ident("trait"@),
    ]
}

/// One wrapper element.
pub open spec fn element_spec(e: Seq<TokV>) -> Result<WrapperV, Seq<char>> {
    if e.len() == 0 {
        Err(empty_element_msg())
    } else {
        let (c, preds) = where_split(e);
        match depth_spec(c) {
            Err(m) => Err(m),
            Ok((depth, end)) => {
                let ty = c.subrange(0, end);
                if ty.len() == 0 {
                    Err(missing_type_msg())
                } else if ty.len() == 2 && punct_v(ty[0], '@') && ident_v(ty[1], "Cow"@) {
                    Ok(WrapperV { ty: cow_type(), depth, where_preds: Some(cow_preds()) })
                } else if ty.len() == 2 && punct_v(ty[0], '*') && (ident_v(ty[1], "const"@)
                    || ident_v(ty[1], "mut"@)) {
                    Err(raw_pointer_msg())
                } else if ty.len() == 1 && ident_v(ty[0], "self"@) {
                    Err(self_wrapper_msg())
                } else {
                    Ok(WrapperV { ty, depth, where_preds: preds })
                }
            },
        }
    }
}

// ------------------------------------------------------------------
// The list

/// The first top-level `,` at or after `i` (or the end).
pub open spec fn next_comma(s: Seq<TokV>, i: int) -> int
    decreases s.len() - i,
{
    if i >= s.len() {
        s.len() as int
    } else if punct_v(s[i], ',') {
        i
    } else {
        next_comma(s, i + 1)
    }
}

/// The wrappers of the elements starting at `start`; the first failing
/// element decides the error.
pub open spec fn wrappers_from(s: Seq<TokV>, start: int) -> Result<Seq<WrapperV>, Seq<char>>
    decreases s.len() - start,
{
    if start < 0 || start > s.len() {
        Ok(Seq::empty())
    } else {
        let end = next_comma(s, start);
        match element_spec(s.subrange(start, end)) {
            Err(m) => Err(m),
            Ok(w) => if end >= s.len() || end < start {
                Ok(seq![w])
            } else {
                match wrappers_from(s, end + 1) {
                    Err(m) => Err(m),
                    Ok(ws) => Ok(seq![w] + ws),
                }
            },
        }
    }
}

proof fn lemma_next_comma_bounds(s: Seq<TokV>, i: int)
    requires
        0 <= i <= s.len(),
    ensures
        i <= next_comma(s, i) <= s.len(),
        next_comma(s, i) < s.len() ==> punct_v(s[next_comma(s, i)], ','),
        forall|j: int| i <= j < next_comma(s, i) ==> !punct_v(s[j], ','),
    decreases s.len() - i,
{
    if i < s.len() && !punct_v(s[i], ',') {
        lemma_next_comma_bounds(s, i + 1);
    }
}

proof fn lemma_next_comma_skip(s: Seq<TokV>, a: int, b: int)
    requires
        0 <= a <= b <= s.len(),
        forall|j: int| a <= j < b ==> !punct_v(s[j], ','),
    ensures
        next_comma(s, a) == next_comma(s, b),
    decreases b - a,
{
    if a < b {
        lemma_next_comma_skip(s, a + 1, b);
    }
}

/// The last lone `:` of `c`, searched from the end.
fn last_single_colon(c: &[Tok]) -> (r: Option<usize>)
    ensures
        match r {
            Some(i) => last_colon_below(tvs(c@), c@.len() as int) == Some(i as int) && i < c@.len(),
            None => last_colon_below(tvs(c@), c@.len() as int) is None,
        },
{
    let ghost s = tvs(c@);
    let mut n: usize = c.len();
    while n > 0
        invariant
            n <= c@.len(),
            s == tvs(c@),
            last_colon_below(s, c@.len() as int) == last_colon_below(s, n as int),
        decreases n,
    {
        if is_single_colon(c, n - 1) {
            return Some(n - 1);
        }
        n -= 1;
    }
    None
}

/// The depth annotation of an element (`Ok((depth, end of the type))`).
fn depth_of(c: &[Tok]) -> (r: Result<(usize, usize), Diag>)
    ensures
        match r {
            Ok((d, end)) => depth_spec(tvs(c@)) == Ok::<(nat, int), Seq<char>>(
                (d as nat, end as int),
            ) && end <= c@.len(),
            Err(m) => depth_spec(tvs(c@)) == Err::<(nat, int), Seq<char>>(m@),
        },
{
    match last_single_colon(c) {
        None => Ok((1, c.len())),
        Some(i) => {
            if i < c.len() - 1 {
                match &c[i + 1] {
                    Tok::Literal(text) => {
                        match parse_unsigned_exec(text.as_str(), usize::MAX as u64) {
                            None => Err(
                                Diag {
                                    message: cat3(
                                        "batch-impl: #blanket `:",
                                        text.as_str(),
                                        "` has an invalid depth (must be a positive integer, e.g. `Box^Arc:2`)",
                                    ),
                                },
                            ),
                            Some(v) => {
                                let d = v as usize;
                                if d == 0 {
                                    Err(
                                        diag(
                                            "batch-impl: #blanket `:0` is meaningless (deref depth must be ≥ 1)",
                                        ),
                                    )
                                } else if d > MAX_BLANKET_DEPTH {
                                    let n = usize_text(d);
                                    Err(
                                        Diag {
                                            message: cat3(
                                                "batch-impl: #blanket `:",
                                                n.as_str(),
                                                "` is too large (deref depth must be ≤ 128)",
                                            ),
                                        },
                                    )
                                } else {
                                    Ok((d, i))
                                }
                            },
                        }
                    },
                    other => {
                        let t = tok_display(other);
                        Err(
                            Diag {
                                message: cat3(
                                    "batch-impl: after #blanket `:",
                                    t.as_str(),
                                    "` must come a number (e.g. `Box^Arc:2`)",
                                ),
                            },
                        )
                    },
                }
            } else {
                Err(diag("batch-impl: after #blanket `:` must come a number (e.g. `Box^Arc:2`)"))
            }
        },
    }
}

fn cow_type_exec() -> (v: Vec<Tok>)
    ensures
        tvs(v@) == cow_type(),
{
    let args = vec![Tok::Punct('\'', Spacing::Joint), Tok::Ident(String::from_str("_"))];
    let v = vec![Tok::Ident(String::from_str("Cow")), Tok::Group(Delim::Invisible, args)];
    assert(tvs(args@) =~= seq![TokV::Punct('\'', Spacing::Joint), TokV::Ident("_"@)]);
    assert(tvs(v@) =~= cow_type());
    v
}

fn cow_preds_exec() -> (v: Vec<Tok>)
    ensures
        tvs(v@) == cow_preds(),
{
    let v = vec![
        Tok::Punct('@', Spacing::Alone),
        Tok::Literal(String::from_str("0")),
        Tok::Punct(':', Spacing::Alone),
        Tok::Ident(String::from_str("ToOwned")),
        Tok::Punct('+', Spacing::Alone),
        Tok::Punct('?', Spacing::Alone),
        Tok::Ident(String::from_str("Sized")),
        Tok::Punct(',', Spacing::Alone),
        Tok::Punct('@', Spacing::Alone),
        Tok::Literal(String::from_str("0")),
        Tok::Punct(':', Spacing::Joint),
        Tok::Punct(':', Spacing::Alone),
        Tok::Ident(String::from_str("Owned")),
        Tok::Punct(':', Spacing::Alone),
        Tok::Punct('@', Spacing::Alone),
        Tok::Ident(String::from_str("trait")),
    ];
    assert(tvs(v@) =~= cow_preds());
    v
}

/// One element of the list.
fn parse_element(e: &[Tok]) -> (r: Result<BlanketWrapper, Diag>)
    ensures
        match r {
            Ok(w) => element_spec(tvs(e@)) == Ok::<WrapperV, Seq<char>>(wrapper_view(w)),
            Err(m) => element_spec(tvs(e@)) == Err::<WrapperV, Seq<char>>(m@),
        },
{
    let ghost s = tvs(e@);
    if e.len() == 0 {
        return Err(
            diag(
                "batch-impl: #blanket wrapper list contains an empty element (e.g. `&,Box`); separate elements with `,`",
            ),
        );
    }
    let n = e.len();
    let mut core_end = n;
    let mut where_preds: Option<Vec<Tok>> = None;
    if n >= 2 && is_ident_text(&e[n - 2], "where") {
        if let Tok::Group(Delim::Brace, g) = &e[n - 1] {
            where_preds = Some(copy_range(g.as_slice(), 0, g.len()));
            core_end = n - 2;
            proof {
                assert(tvs(g@).subrange(0, g@.len() as int) =~= tvs(g@));
            }
        }
    }
    let core = copy_range(e, 0, core_end);
    proof {
        let (c, p) = where_split(s);
        assert(tvs(core@) =~= c);
        assert(p == match where_preds {
            Some(x) => Some(tvs(x@)),
            None => None::<Seq<TokV>>,
        });
    }
    let (depth, end) = match depth_of(core.as_slice()) {
        Err(m) => {
            return Err(m);
        },
        Ok(x) => x,
    };
    let ty = copy_range(core.as_slice(), 0, end);
    let ghost tyv = tvs(core@).subrange(0, end as int);
    assert(tvs(ty@) == tyv);
    if end == 0 {
        return Err(
            diag(
                "batch-impl: #blanket `:N` is missing the wrapper type before it (e.g. `Box^Arc:2`)",
            ),
        );
    }
    if end == 2 {
        let at_cow = match (&ty[0], &ty[1]) {
            (Tok::Punct(c, _), Tok::Ident(_)) => *c == '@' && is_ident_text(&ty[1], "Cow"),
            _ => false,
        };
        if at_cow {
            assert(punct_v(tyv[0], '@') && ident_v(tyv[1], "Cow"@));
            let ty2 = cow_type_exec();
            let preds = cow_preds_exec();
            return Ok(BlanketWrapper { ty: ty2, depth, where_preds: Some(preds) });
        }
        let raw = match &ty[0] {
            Tok::Punct(c, _) => *c == '*' && (is_ident_text(&ty[1], "const") || is_ident_text(
                &ty[1],
                "mut",
            )),
            _ => false,
        };
        assert(raw == (punct_v(tyv[0], '*') && (ident_v(tyv[1], "const"@) || ident_v(
            tyv[1],
            "mut"@,
        ))));
        if raw {
            return Err(
                diag(
                    "batch-impl: #blanket does not support `*const`/`*mut` wrappers (deref is unsafe, cannot delegate); write #delegate by hand",
                ),
            );
        }
    }
    if end == 1 && is_ident_text(&ty[0], "self") {
        return Err(
            diag(
                "batch-impl: #blanket does not support `self` wrappers (delegation is meaningless); write #delegate by hand",
            ),
        );
    }
    Ok(BlanketWrapper { ty, depth, where_preds })
}

/// Parses the `#blanket` wrapper list (comma-separated elements).
pub fn parse_blanket_wrappers(tokens: &[Tok]) -> (r: Result<Vec<BlanketWrapper>, Diag>)
    ensures
        list_view(r) == wrappers_from(tvs(tokens@), 0),
{
    let ghost s = tvs(tokens@);
    let mut wrappers: Vec<BlanketWrapper> = Vec::new();
    let mut start: usize = 0;
    let mut i: usize = 0;
    proof {
        lemma_next_comma_bounds(s, 0);
    }
    while i < tokens.len()
        invariant
            start <= i <= tokens@.len(),
            s == tvs(tokens@),
            forall|j: int| start <= j < i ==> !punct_v(s[j], ','),
            wrappers_from(s, 0) == match wrappers_from(s, start as int) {
                Ok(ws) => Ok(wrappers_view(wrappers@) + ws),
                Err(m) => Err(m),
            },
        decreases tokens@.len() - i,
    {
        let is_comma = match &tokens[i] {
            Tok::Punct(c, _) => *c == ',',
            _ => false,
        };
        if is_comma {
            proof {
                lemma_next_comma_skip(s, start as int, i as int);
                assert(next_comma(s, i as int) == i);
                assert(tvs(tokens@.subrange(start as int, i as int)) =~= s.subrange(
                    start as int,
                    i as int,
                ));
            }
            let current = vstd::slice::slice_subrange(tokens, start, i);
            match parse_element(current) {
                Err(m) => {
                    return Err(m);
                },
                Ok(w) => {
                    let ghost before = wrappers@;
                    wrappers.push(w);
                    proof {
                        assert(wrappers_view(wrappers@) =~= wrappers_view(before) + seq![
                            wrapper_view(w),
                        ]);
                        match wrappers_from(s, i + 1) {
                            Ok(ws) => {
                                assert(wrappers_view(before) + (seq![wrapper_view(w)] + ws)
                                    =~= wrappers_view(wrappers@) + ws);
                            },
                            Err(_) => {},
                        }
                    }
                    start = i + 1;
                },
            }
        }
        i += 1;
    }
    proof {
        lemma_next_comma_skip(s, start as int, i as int);
        assert(tvs(tokens@.subrange(start as int, i as int)) =~= s.subrange(start as int, i as int));
    }
    let current = vstd::slice::slice_subrange(tokens, start, i);
    match parse_element(current) {
        Err(m) => Err(m),
        Ok(w) => {
            let ghost before = wrappers@;
            wrappers.push(w);
            assert(wrappers_view(wrappers@) =~= wrappers_view(before) + seq![wrapper_view(w)]);
            Ok(wrappers)
        },
    }
}

} // verus!

verus! {

/// The number of top-level `,` from `i` on.
pub open spec fn commas_from(s: Seq<TokV>, i: int) -> nat
    decreases s.len() - i,
{
    if i < 0 || i >= s.len() {
        0
    } else {
        (if punct_v(s[i], ',') {
            1nat
        } else {
            0nat
        }) + commas_from(s, i + 1)
    }
}

proof fn lemma_commas_skip(s: Seq<TokV>, a: int, b: int)
    requires
        0 <= a <= b <= s.len(),
        forall|j: int| a <= j < b ==> !punct_v(s[j], ','),
    ensures
        commas_from(s, a) == commas_from(s, b),
    decreases b - a,
{
    if a < b {
        lemma_commas_skip(s, a + 1, b);
    }
}

proof fn lemma_element_depth(e: Seq<TokV>)
    ensures
        element_spec(e) matches Ok(w) ==> 1 <= w.depth <= MAX_BLANKET_DEPTH,
{
}

proof fn lemma_wrappers_count(s: Seq<TokV>, start: int)
    requires
        0 <= start <= s.len(),
    ensures
        wrappers_from(s, start) matches Ok(ws) ==> ws.len() == commas_from(s, start) + 1 && forall|k: int|
            0 <= k < ws.len() ==> 1 <= #[trigger] ws[k].depth <= MAX_BLANKET_DEPTH,
    decreases s.len() - start,
{
    lemma_next_comma_bounds(s, start);
    let end = next_comma(s, start);
    lemma_commas_skip(s, start, end);
    lemma_element_depth(s.subrange(start, end));
    if end < s.len() {
        lemma_wrappers_count(s, end + 1);
        if let Ok(ws) = wrappers_from(s, start) {
            let w = element_spec(s.subrange(start, end))->Ok_0;
            let more = wrappers_from(s, end + 1)->Ok_0;
            assert(ws == seq![w] + more);
            assert forall|k: int| 0 <= k < ws.len() implies 1 <= #[trigger] ws[k].depth
                <= MAX_BLANKET_DEPTH by {
                if k > 0 {
                    assert(ws[k] == more[k - 1]);
                }
            }
        }
    } else {
        assert(commas_from(s, end) == 0);
    }
}

/// An accepted wrapper list has one wrapper per comma-separated element
/// (top-level commas + 1), each with a deref depth between 1 and the bound.
pub proof fn law_one_wrapper_per_element(s: Seq<TokV>)
    requires
        wrappers_from(s, 0) is Ok,
    ensures
        wrappers_from(s, 0)->Ok_0.len() == commas_from(s, 0) + 1,
        forall|k: int|
            0 <= k < wrappers_from(s, 0)->Ok_0.len() ==> 1 <= #[trigger] wrappers_from(
                s,
                0,
            )->Ok_0[k].depth <= MAX_BLANKET_DEPTH,
{
    lemma_wrappers_count(s, 0);
}

} // verus!
