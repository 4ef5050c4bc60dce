//! Directive argument name lists: identifiers, `[a, b]` lists (the shape
//! the `@all` markers expand to), commas between them, and `-name` /
//! `-[a, b]` exclusions.
use crate::diag::{diag, Diag};
use crate::display::{tok_display, tok_text};
use crate::text::{cat3, cat5, strs_view};
use crate::token::{group_tok_view, tvs, Delim, Tok, TokV};
use crate::trait_items::TraitDef;
use vstd::prelude::*;

verus! {

broadcast use group_tok_view;

pub open spec fn names_empty_msg(what: Seq<char>) -> Seq<char> {
    "batch-impl: "@ + what + " cannot be empty"@
}

pub open spec fn comma_msg(what: Seq<char>) -> Seq<char> {
    "batch-impl: in "@ + what
        + ", a comma is in an illegal position (no leading/trailing/consecutive commas)"@
}

pub open spec fn unexpected_msg(what: Seq<char>, t: TokV) -> Seq<char> {
    "batch-impl: in "@ + what
        + ", expected an identifier, comma, `[...]` list, or `-` exclusion, got `"@ + tok_text(t)
        + "`"@
}

pub open spec fn minus_msg(what: Seq<char>) -> Seq<char> {
    "batch-impl: in "@ + what
        + ", after `-` expected an identifier or `[...]` list (e.g. `-foo`, `-[a,b]`)"@
}

pub open spec fn args_empty_msg() -> Seq<char> {
    "batch-impl: the directive's argument list cannot be empty"@
}

/// The kept names in first-occurrence order, without duplicates and
/// without the excluded ones.
pub open spec fn select(keep: Seq<Seq<char>>, excl: Seq<Seq<char>>) -> Seq<Seq<char>>
    decreases keep.len(),
{
    if keep.len() == 0 {
        Seq::empty()
    } else {
        let prev = select(keep.drop_last(), excl);
        let x = keep.last();
        if keep.drop_last().contains(x) || excl.contains(x) {
            prev
        } else {
            prev.push(x)
        }
    }
}

/// The end of a list: no trailing comma, and something left to name.
pub open spec fn names_finish(
    what: Seq<char>,
    keep: Seq<Seq<char>>,
    excl: Seq<Seq<char>>,
    prev_comma: bool,
) -> Result<Seq<Seq<char>>, Seq<char>> {
    if prev_comma {
        Err(comma_msg(what))
    } else if select(keep, excl).len() == 0 {
        Err(names_empty_msg(what))
    } else {
        Ok(select(keep, excl))
    }
}

/// The names of a list (`what` names the list in diagnostics).
pub open spec fn names_spec(s: Seq<TokV>, what: Seq<char>) -> Result<Seq<Seq<char>>, Seq<char>>
    decreases s, 1int, 0int,
{
    if s.len() == 0 {
        Err(names_empty_msg(what))
    } else {
        names_loop(s, what, 0, Seq::empty(), Seq::empty(), true)
    }
}

/// The list from position `i` on, with the names kept and excluded so far
/// and whether the previous item was a comma.
pub open spec fn names_loop(
    s: Seq<TokV>,
    what: Seq<char>,
    i: int,
    keep: Seq<Seq<char>>,
    excl: Seq<Seq<char>>,
    prev_comma: bool,
) -> Result<Seq<Seq<char>>, Seq<char>>
    decreases s, 0int, s.len() - i,
{
    if i < 0 || i >= s.len() {
        names_finish(what, keep, excl, prev_comma)
    } else {
        match s[i] {
            TokV::Ident(w) => names_loop(s, what, i + 1, keep.push(w), excl, false),
            TokV::Group(Delim::Bracket, inner) => match names_spec(inner, what) {
                Err(e) => Err(e),
                Ok(ids) => names_loop(s, what, i + 1, keep + ids, excl, false),
            },
            TokV::Punct(',', _) => if prev_comma {
                Err(comma_msg(what))
            } else {
                names_loop(s, what, i + 1, keep, excl, true)
            },
            TokV::Punct('-', _) => if i + 1 < s.len() {
                match s[i + 1] {
                    TokV::Ident(w) => names_loop(s, what, i + 2, keep, excl.push(w), false),
                    TokV::Group(Delim::Bracket, inner) => match names_spec(inner, what) {
                        Err(e) => Err(e),
                        Ok(ids) => names_loop(s, what, i + 2, keep, excl + ids, false),
                    },
                    _ => Err(minus_msg(what)),
                }
            } else {
                Err(minus_msg(what))
            },
            _ => Err(unexpected_msg(what, s[i])),
        }
    }
}

pub open spec fn names_view(r: Result<Vec<String>, Diag>) -> Result<Seq<Seq<char>>, Seq<char>> {
    match r {
        Ok(v) => Ok(strs_view(v@)),
        Err(d) => Err(d@),
    }
}

fn contains_text(v: &Vec<String>, upto: usize, x: &String) -> (b: bool)
    requires
        upto <= v@.len(),
    ensures
        b == strs_view(v@).subrange(0, upto as int).contains(x@),
{
    let ghost sv = strs_view(v@).subrange(0, upto as int);
    let mut j: usize = 0;
    while j < upto
        invariant
            j <= upto <= v@.len(),
            sv == strs_view(v@).subrange(0, upto as int),
            forall|k: int| 0 <= k < j ==> sv[k] != x@,
        decreases upto - j,
    {
        if v[j] == *x {
            assert(sv[j as int] == x@);
            return true;
        }
        j += 1;
    }
    false
}

proof fn lemma_select_step(keep: Seq<Seq<char>>, excl: Seq<Seq<char>>, j: int)
    requires
        0 <= j < keep.len(),
    ensures
        select(keep.subrange(0, j + 1), excl) == (if keep.subrange(0, j).contains(keep[j])
            || excl.contains(keep[j]) {
            select(keep.subrange(0, j), excl)
        } else {
            select(keep.subrange(0, j), excl).push(keep[j])
        }),
{
    let p = keep.subrange(0, j + 1);
    assert(p.drop_last() =~= keep.subrange(0, j));
}

/// The selected names (see [`select`]).
fn select_names(keep: &Vec<String>, excl: &Vec<String>) -> (r: Vec<String>)
    ensures
        strs_view(r@) == select(strs_view(keep@), strs_view(excl@)),
{
    let ghost k = strs_view(keep@);
    let ghost e = strs_view(excl@);
    let mut out: Vec<String> = Vec::new();
    let mut j: usize = 0;
    assert(k.subrange(0, 0) =~= Seq::<Seq<char>>::empty());
    while j < keep.len()
        invariant
            j <= keep@.len(),
            k == strs_view(keep@),
            e == strs_view(excl@),
            strs_view(out@) == select(k.subrange(0, j as int), e),
        decreases keep@.len() - j,
    {
        proof {
            lemma_select_step(k, e, j as int);
        }
        let dup = contains_text(keep, j, &keep[j]);
        let out_excl = contains_text(excl, excl.len(), &keep[j]);
        assert(e.subrange(0, excl@.len() as int) =~= e);
        if !dup && !out_excl {
            let ghost before = out@;
            out.push(keep[j].clone());
            assert(strs_view(out@) =~= strs_view(before).push(k[j as int]));
        }
        j += 1;
    }
    assert(k.subrange(0, keep@.len() as int) =~= k);
    out
}

fn push_all(dst: &mut Vec<String>, src: Vec<String>)
    ensures
        strs_view(final(dst)@) == strs_view(old(dst)@) + strs_view(src@),
{
    let ghost d0 = strs_view(dst@);
    let mut j: usize = 0;
    while j < src.len()
        invariant
            j <= src@.len(),
            strs_view(dst@) == d0 + strs_view(src@).subrange(0, j as int),
        decreases src@.len() - j,
    {
        let ghost before = dst@;
        dst.push(src[j].clone());
        assert(strs_view(dst@) =~= strs_view(before).push(src@[j as int]@));
        assert(strs_view(src@).subrange(0, j + 1) =~= strs_view(src@).subrange(0, j as int).push(
            src@[j as int]@,
        ));
        j += 1;
    }
    assert(strs_view(src@).subrange(0, src@.len() as int) =~= strs_view(src@));
}

/// Parses a name list: identifiers and `[...]` lists kept, `-name` /
/// `-[...]` excluded; commas only between items; the result is the kept
/// names in first-occurrence order, without duplicates and exclusions.
pub fn parse_name_tokens(tokens: &[Tok], trait_def: &TraitDef, what: &str) -> (r: Result<
    Vec<String>,
    Diag,
>)
    ensures
        names_view(r) == names_spec(tvs(tokens@), what@),
    decreases tokens@,
{
    let ghost s = tvs(tokens@);
    if tokens.len() == 0 {
        return Err(Diag { message: cat3("batch-impl: ", what, " cannot be empty") });
    }
    let mut keep: Vec<String> = Vec::new();
    let mut excl: Vec<String> = Vec::new();
    let mut prev_comma = true;
    let mut i: usize = 0;
    assert(strs_view(keep@) =~= Seq::<Seq<char>>::empty());
    assert(strs_view(excl@) =~= Seq::<Seq<char>>::empty());
    while i < tokens.len()
        invariant
            i <= tokens@.len(),
            s == tvs(tokens@),
            s.len() > 0,
            names_spec(s, what@) == names_loop(
                s,
                what@,
                i as int,
                strs_view(keep@),
                strs_view(excl@),
                prev_comma,
            ),
        decreases tokens@.len() - i,
    {
        proof {
            assert(decreases_to!(tokens@ => tokens@[i as int]));
        }
        match &tokens[i] {
            Tok::Ident(w) => {
                let ghost before = keep@;
                keep.push(w.clone());
                assert(strs_view(keep@) =~= strs_view(before).push(w@));
                prev_comma = false;
                i += 1;
            },
            Tok::Group(Delim::Bracket, inner) => {
                let ids = parse_name_tokens(inner.as_slice(), trait_def, what);
                match ids {
                    Err(e) => {
                        return Err(e);
                    },
                    Ok(v) => {
                        push_all(&mut keep, v);
                        prev_comma = false;
                        i += 1;
                    },
                }
            },
            Tok::Punct(',', _) => {
                if prev_comma {
                    return Err(
                        Diag {
                            message: cat3(
                                "batch-impl: in ",
                                what,
                                ", a comma is in an illegal position (no leading/trailing/consecutive commas)",
                            ),
                        },
                    );
                }
                prev_comma = true;
                i += 1;
            },
            Tok::Punct('-', _) => {
                if i + 1 < tokens.len() {
                    proof {
                        assert(decreases_to!(tokens@ => tokens@[i + 1]));
                    }
                    match &tokens[i + 1] {
                        Tok::Ident(w) => {
                            let ghost before = excl@;
                            excl.push(w.clone());
                            assert(strs_view(excl@) =~= strs_view(before).push(w@));
                            prev_comma = false;
                            i += 2;
                        },
                        Tok::Group(Delim::Bracket, inner) => {
                            let ids = parse_name_tokens(inner.as_slice(), trait_def, what);
                            match ids {
                                Err(e) => {
                                    return Err(e);
                                },
                                Ok(v) => {
                                    push_all(&mut excl, v);
                                    prev_comma = false;
                                    i += 2;
                                },
                            }
                        },
                        _ => {
                            return Err(
                                Diag {
                                    message: cat3(
                                        "batch-impl: in ",
                                        what,
                                        ", after `-` expected an identifier or `[...]` list (e.g. `-foo`, `-[a,b]`)",
                                    ),
                                },
                            );
                        },
                    }
                } else {
                    return Err(
                        Diag {
                            message: cat3(
                                "batch-impl: in ",
                                what,
                                ", after `-` expected an identifier or `[...]` list (e.g. `-foo`, `-[a,b]`)",
                            ),
                        },
                    );
                }
            },
            other => {
                let t = tok_display(other);
                return Err(
                    Diag {
                        message: cat5(
                            "batch-impl: in ",
                            what,
                            ", expected an identifier, comma, `[...]` list, or `-` exclusion, got `",
                            t.as_str(),
                            "`",
                        ),
                    },
                );
            },
        }
    }
    if prev_comma {
        return Err(
            Diag {
                message: cat3(
                    "batch-impl: in ",
                    what,
                    ", a comma is in an illegal position (no leading/trailing/consecutive commas)",
                ),
            },
        );
    }
    let names = select_names(&keep, &excl);
    if names.len() == 0 {
        return Err(Diag { message: cat3("batch-impl: ", what, " cannot be empty") });
    }
    Ok(names)
}

/// The item names a directive's arguments select.
pub fn parse_names_from_tokens(tokens: &[Tok], trait_def: &TraitDef) -> (r: Result<
    Vec<String>,
    Diag,
>)
    ensures
        names_view(r) == (if tokens@.len() == 0 {
            Err(args_empty_msg())
        } else {
            names_spec(tvs(tokens@), "directive arguments"@)
        }),
{
    if tokens.len() == 0 {
        return Err(diag("batch-impl: the directive's argument list cannot be empty"));
    }
    parse_name_tokens(tokens, trait_def, "directive arguments")
}

} // verus!

verus! {

/// The selected names are exactly the kept names that are not excluded,
/// each once: a name is selected iff it was kept and not excluded, and no
/// name is selected twice.
pub proof fn law_selection_is_kept_minus_excluded(keep: Seq<Seq<char>>, excl: Seq<Seq<char>>)
    ensures
        forall|x: Seq<char>|
            #![trigger select(keep, excl).contains(x)]
            select(keep, excl).contains(x) <==> (keep.contains(x) && !excl.contains(x)),
        select(keep, excl).no_duplicates(),
    decreases keep.len(),
{
    if keep.len() > 0 {
        let init = keep.drop_last();
        let x = keep.last();
        law_selection_is_kept_minus_excluded(init, excl);
        let prev = select(init, excl);
        assert forall|y: Seq<char>| keep.contains(y) <==> (init.contains(y) || y == x) by {
            if keep.contains(y) {
                let k = choose|k: int| 0 <= k < keep.len() && keep[k] == y;
                if k < init.len() {
                    assert(init[k] == y);
                }
            }
            if init.contains(y) {
                let k = choose|k: int| 0 <= k < init.len() && init[k] == y;
                assert(keep[k] == y);
            }
            if y == x {
                assert(keep[keep.len() - 1] == y);
            }
        }
        if !(init.contains(x) || excl.contains(x)) {
            let next = prev.push(x);
            assert forall|y: Seq<char>| next.contains(y) <==> (prev.contains(y) || y == x) by {
                if next.contains(y) {
                    let k = choose|k: int| 0 <= k < next.len() && next[k] == y;
                    if k < prev.len() {
                        assert(prev[k] == y);
                    }
                }
                if prev.contains(y) {
                    let k = choose|k: int| 0 <= k < prev.len() && prev[k] == y;
                    assert(next[k] == y);
                }
                if y == x {
                    assert(next[next.len() - 1] == y);
                }
            }
            assert(!prev.contains(x));
            assert forall|i: int, j: int| 0 <= i < next.len() && 0 <= j < next.len() && i != j implies next[i]
                != next[j] by {
                if i < prev.len() && j < prev.len() {
                    assert(next[i] == prev[i] && next[j] == prev[j]);
                } else if i < prev.len() {
                    assert(next[i] == prev[i]);
                    assert(prev.contains(prev[i]));
                } else if j < prev.len() {
                    assert(next[j] == prev[j]);
                    assert(prev.contains(prev[j]));
                }
            }
        }
    }
}

} // verus!

verus! {

/// A one-name list selects exactly that name, bracketed (`#fill([foo])`,
/// the long form of `#foo{body}`) or not (`#fill(foo)`).
pub proof fn law_one_name_list_selects_it(w: Seq<char>, what: Seq<char>)
    ensures
        names_spec(seq![TokV::Ident(w)], what) == Ok::<Seq<Seq<char>>, Seq<char>>(seq![w]),
        names_spec(seq![TokV::Group(Delim::Bracket, seq![TokV::Ident(w)])], what) == Ok::<
            Seq<Seq<char>>,
            Seq<char>,
        >(seq![w]),
{
    let e = Seq::<Seq<char>>::empty();
    let one = seq![TokV::Ident(w)];
    reveal_with_fuel(select, 2);
    assert(seq![w].drop_last() =~= e);
    assert(select(seq![w], e) =~= seq![w]);
    assert(e.push(w) =~= seq![w]);
    assert(names_loop(one, what, 1, seq![w], e, false) == names_finish(what, seq![w], e, false));
    assert(names_loop(one, what, 0, e, e, true) == names_loop(one, what, 1, e.push(w), e, false));
    assert(names_spec(one, what) == Ok::<Seq<Seq<char>>, Seq<char>>(seq![w]));
    let br = seq![TokV::Group(Delim::Bracket, one)];
    assert(e + seq![w] =~= seq![w]);
    assert(names_loop(br, what, 1, seq![w], e, false) == names_finish(what, seq![w], e, false));
    assert(names_loop(br, what, 0, e, e, true) == names_loop(br, what, 1, e + seq![w], e, false));
}

} // verus!
