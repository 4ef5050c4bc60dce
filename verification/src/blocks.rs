//! Lexical recognition of the spec grammar's blocks: which tokens open a
//! block, the fixed suffixes a block looks ahead for (`->`, `'a`, `..`),
//! where a chain stops (an attachment), the `#[...]` attribute prefix, the
//! lone-splat group content, the type prefixes, the `N..M` range atom and
//! the checks on stray punctuation in a type position.
use crate::diag::{Diag, diag};
use crate::refs::{parse_usize, parse_usize_exec};
use crate::scan::Cursor;
use crate::ty::TyPrefix;
use crate::token::{
    group_tok_view, ident_at, is_ident_at, is_joint_punct_at, is_punct_at, joint_punct_at, punct_at, tvs,
    Delim, Spacing, Tok, TokV, copy_toks,
};
use vstd::prelude::*;

verus! {

broadcast use {group_tok_view, Cursor::lemma_at_nonneg};

/// A token opens a block: an identifier, a literal, a group, or one of the
/// block-opening punctuation characters `&` `*` `?` `!` `@` `'` `#`.
pub open spec fn starts_block_spec(t: TokV) -> bool {
    match t {
        TokV::Punct(c, _) => c == '&' || c == '*' || c == '?' || c == '!' || c == '@' || c == '\''
            || c == '#',
        _ => true,
    }
}

/// Whether the token opens a new block (operators and separators such as
/// `.` `,` `;` `-` `:` `+` `>` `=` do not).
pub fn starts_block(t: &Tok) -> (b: bool)
    ensures
        b == starts_block_spec(t@),
{
    match t {
        Tok::Punct(c, _) => *c == '&' || *c == '*' || *c == '?' || *c == '!' || *c == '@' || *c
            == '\'' || *c == '#',
        _ => true,
    }
}

/// The view of the cursor's tokens (its position is read through
/// `at()`).
pub open spec fn cur_v(c: Cursor) -> Seq<TokV> {
    tvs(c.toks())
}

/// Whether the cursor sits on a `->` fn arrow (a joint `-`, then `>`).
pub fn cursor_is_arrow(cursor: &Cursor) -> (b: bool)
    ensures
        b == (joint_punct_at(cur_v(*cursor), cursor.at(), '-') && punct_at(
            cur_v(*cursor),
            cursor.at() + 1,
            '>',
        )),
{
    let here = match cursor.peek() {
        Some(Tok::Punct(c, Spacing::Joint)) => *c == '-',
        _ => false,
    };
    let next = match cursor.peek_at(1) {
        Some(Tok::Punct(c, _)) => *c == '>',
        _ => false,
    };
    here && next
}

/// Whether the cursor sits on a `'` followed by an identifier (a lifetime).
pub fn cursor_is_lifetime(cursor: &Cursor) -> (b: bool)
    ensures
        b == (punct_at(cur_v(*cursor), cursor.at(), '\'') && 0 <= cursor.at() + 1 < cur_v(
            *cursor,
        ).len() && cur_v(*cursor)[cursor.at() + 1] is Ident),
{
    let here = match cursor.peek() {
        Some(Tok::Punct(c, _)) => *c == '\'',
        _ => false,
    };
    let next = match cursor.peek_at(1) {
        Some(Tok::Ident(_)) => true,
        _ => false,
    };
    here && next
}

/// Whether the cursor sits on the first `.` of a `..` (a joint `.`, then
/// another `.`).
pub fn cursor_is_dotdot(cursor: &Cursor) -> (b: bool)
    ensures
        b == (joint_punct_at(cur_v(*cursor), cursor.at(), '.') && punct_at(
            cur_v(*cursor),
            cursor.at() + 1,
            '.',
        )),
{
    let here = match cursor.peek() {
        Some(Tok::Punct(c, Spacing::Joint)) => *c == '.',
        _ => false,
    };
    let next = match cursor.peek_at(1) {
        Some(Tok::Punct(c, _)) => *c == '.',
        _ => false,
    };
    here && next
}

/// Whether the token `off` places past the cursor is the identifier `name`.
pub fn peek_ident_at(cursor: &Cursor, off: usize, name: &str) -> (b: bool)
    ensures
        b == ident_at(cur_v(*cursor), cursor.at() + off, name@),
{
    match cursor.peek_at(off) {
        Some(t) => crate::token::is_ident_text(t, name),
        None => false,
    }
}

pub open spec fn brace_at(s: Seq<TokV>, i: int) -> bool {
    0 <= i < s.len() && s[i] matches TokV::Group(Delim::Brace, _)
}

/// The next tokens open an attachment: a brace group, or `where` / `impl`
/// directly followed by one.
pub open spec fn at_attachment_spec(s: Seq<TokV>, i: int) -> bool {
    brace_at(s, i) || ((ident_at(s, i, "where"@) || ident_at(s, i, "impl"@)) && brace_at(s, i + 1))
}

/// Whether the cursor sits on an attachment (`{...}`, `where{...}`,
/// `impl{...}`): a return-expression chain stops there.
pub fn cursor_at_attachment(cursor: &Cursor) -> (b: bool)
    ensures
        b == at_attachment_spec(cur_v(*cursor), cursor.at()),
{
    let next_brace = match cursor.peek_at(1) {
        Some(Tok::Group(Delim::Brace, _)) => true,
        _ => false,
    };
    match cursor.peek() {
        Some(Tok::Group(Delim::Brace, _)) => true,
        Some(t) => (crate::token::is_ident_text(t, "where") || crate::token::is_ident_text(t, "impl"))
            && next_brace,
        None => false,
    }
}

/// A group's content is a lone splat: exactly a `*` and then a paren or
/// bracket group.
pub open spec fn lone_splat_spec(s: Seq<TokV>) -> bool {
    &&& s.len() == 2
    &&& s[0] matches TokV::Punct(c, _) && c == '*'
    &&& s[1] matches TokV::Group(d, _) && (d == Delim::Paren || d == Delim::Bracket)
}

/// Whether a group's content is a lone splat (`(*(a,b))`, `[*[a,b]]`): it
/// parses as the matching container holding the splat as one element.
pub fn lone_splat(contents: &[Tok]) -> (b: bool)
    ensures
        b == lone_splat_spec(tvs(contents@)),
{
    if contents.len() != 2 {
        return false;
    }
    let star = match &contents[0] {
        Tok::Punct(c, _) => *c == '*',
        _ => false,
    };
    let group = match &contents[1] {
        Tok::Group(d, _) => *d == Delim::Paren || *d == Delim::Bracket,
        _ => false,
    };
    star && group
}

/// `#[...]` at the start: the attribute's content and the length of what
/// follows it.
pub open spec fn attribute_spec(s: Seq<TokV>) -> Option<(Seq<TokV>, int)> {
    if s.len() >= 2 && punct_at(s, 0, '#') {
        match s[1] {
            TokV::Group(Delim::Bracket, inner) => Some((inner, s.len() - 2)),
            _ => None,
        }
    } else {
        None
    }
}

/// Splits a leading `#[...]` attribute off `tokens`: its content, and the
/// index where the rest starts (always 2).
pub fn parse_attribute(tokens: &[Tok]) -> (r: Option<(Vec<Tok>, usize)>)
    ensures
        match r {
            Some((content, k)) => k == 2 && attribute_spec(tvs(tokens@)) == Some(
                (tvs(content@), tokens@.len() - 2),
            ),
            None => attribute_spec(tvs(tokens@)) is None,
        },
{
    if tokens.len() < 2 {
        return None;
    }
    let hash = match &tokens[0] {
        Tok::Punct(c, _) => *c == '#',
        _ => false,
    };
    if !hash {
        return None;
    }
    match &tokens[1] {
        Tok::Group(Delim::Bracket, inner) => Some((copy_toks(inner.as_slice()), 2)),
        _ => None,
    }
}

/// A leading type prefix and the number of tokens it takes: `& mut`,
/// `&`, `* const`, `* mut`, `self`, `unsafe`.
pub open spec fn prefix_at_spec(s: Seq<TokV>) -> Option<(TyPrefix, int)> {
    if punct_at(s, 0, '&') && ident_at(s, 1, "mut"@) {
        Some((TyPrefix::RefMut, 2))
    } else if punct_at(s, 0, '&') {
        Some((TyPrefix::Ref, 1))
    } else if punct_at(s, 0, '*') && ident_at(s, 1, "const"@) {
        Some((TyPrefix::PtrConst, 2))
    } else if punct_at(s, 0, '*') && ident_at(s, 1, "mut"@) {
        Some((TyPrefix::PtrMut, 2))
    } else if ident_at(s, 0, "self"@) {
        Some((TyPrefix::SelfType, 1))
    } else if ident_at(s, 0, "unsafe"@) {
        Some((TyPrefix::Unsafe, 1))
    } else {
        None
    }
}

/// Splits a leading prefix off `tokens`: the prefix and the index where
/// the rest starts.
pub fn parse_prefix(tokens: &[Tok]) -> (r: Option<(TyPrefix, usize)>)
    ensures
        match r {
            Some((p, k)) => prefix_at_spec(tvs(tokens@)) == Some((p, k as int)),
            None => prefix_at_spec(tvs(tokens@)) is None,
        },
{
    if is_punct_at(tokens, 0, '&') && is_ident_at(tokens, 1, "mut") {
        Some((TyPrefix::RefMut, 2))
    } else if is_punct_at(tokens, 0, '&') {
        Some((TyPrefix::Ref, 1))
    } else if is_punct_at(tokens, 0, '*') && is_ident_at(tokens, 1, "const") {
        Some((TyPrefix::PtrConst, 2))
    } else if is_punct_at(tokens, 0, '*') && is_ident_at(tokens, 1, "mut") {
        Some((TyPrefix::PtrMut, 2))
    } else if is_ident_at(tokens, 0, "self") {
        Some((TyPrefix::SelfType, 1))
    } else if is_ident_at(tokens, 0, "unsafe") {
        Some((TyPrefix::Unsafe, 1))
    } else {
        None
    }
}

pub open spec fn range_start_msg() -> Seq<char> {
    "batch-impl: range start must be an integer"@
}

pub open spec fn range_end_msg() -> Seq<char> {
    "batch-impl: range end must be an integer"@
}

pub open spec fn lit_text(t: TokV) -> Seq<char> {
    match t {
        TokV::Literal(x) => x,
        _ => Seq::empty(),
    }
}

/// The range atom `N..M` / `N..=M` spanning the whole token list: `None`
/// when the tokens do not have that shape, an error when an endpoint is not
/// a `usize`, else `(start, end, inclusive)`. The start is read before the
/// end's shape is looked at.
pub open spec fn range_atom_spec(s: Seq<TokV>) -> Option<Result<(usize, usize, bool), Seq<char>>> {
    if !(s.len() >= 3 && s[0] is Literal && joint_punct_at(s, 1, '.') && punct_at(s, 2, '.')) {
        None
    } else {
        match parse_usize(lit_text(s[0])) {
            None => Some(Err(range_start_msg())),
            Some(start) => {
                let shape: Option<(bool, int)> = if s.len() == 4 && s[3] is Literal {
                    Some((false, 3))
                } else if s.len() == 5 && punct_at(s, 3, '=') && s[4] is Literal && joint_punct_at(
                    s,
                    2,
                    '.',
                ) {
                    Some((true, 4))
                } else {
                    None
                };
                match shape {
                    None => None,
                    Some((inclusive, k)) => match parse_usize(lit_text(s[k])) {
                        None => Some(Err(range_end_msg())),
                        Some(end) => Some(Ok((start, end, inclusive))),
                    },
                }
            },
        }
    }
}

pub open spec fn range_atom_view(r: Option<Result<(usize, usize, bool), Diag>>) -> Option<
    Result<(usize, usize, bool), Seq<char>>,
> {
    match r {
        None => None,
        Some(Ok(x)) => Some(Ok(x)),
        Some(Err(d)) => Some(Err(d@)),
    }
}

/// The range atom of a type position (see [`range_atom_spec`]).
pub fn parse_range(tokens: &[Tok]) -> (r: Option<Result<(usize, usize, bool), Diag>>)
    ensures
        range_atom_view(r) == range_atom_spec(tvs(tokens@)),
{
    let n = tokens.len();
    if n < 3 || !is_joint_punct_at(tokens, 1, '.') || !is_punct_at(tokens, 2, '.') {
        return None;
    }
    let start_text = match &tokens[0] {
        Tok::Literal(x) => x,
        _ => {
            return None;
        },
    };
    let start = match parse_usize_exec(start_text.as_str()) {
        None => {
            return Some(Err(diag("batch-impl: range start must be an integer")));
        },
        Some(v) => v,
    };
    let (inclusive, k) = if n == 4 && matches!(tokens[3], Tok::Literal(_)) {
        (false, 3usize)
    } else if n == 5 && is_punct_at(tokens, 3, '=') && matches!(tokens[4], Tok::Literal(_))
        && is_joint_punct_at(tokens, 2, '.') {
        (true, 4usize)
    } else {
        return None;
    };
    let end_text = match &tokens[k] {
        Tok::Literal(x) => x,
        _ => {
            return None;
        },
    };
    match parse_usize_exec(end_text.as_str()) {
        None => Some(Err(diag("batch-impl: range end must be an integer"))),
        Some(end) => Some(Ok((start, end, inclusive))),
    }
}

pub open spec fn range_position_msg() -> Seq<char> {
    "batch-impl: a range (`..`/`..=`) in a type position needs integer endpoints (e.g. `0..=3`)"@
}

/// A `.` left in a type position (one the range atom did not take) is a
/// range with non-integer endpoints.
pub fn validate_range(tokens: &[Tok]) -> (r: Option<Diag>)
    ensures
        match r {
            Some(d) => d@ == range_position_msg() && exists|i: int|
                0 <= i < tokens@.len() && punct_at(tvs(tokens@), i, '.'),
            None => forall|i: int| 0 <= i < tokens@.len() ==> !punct_at(tvs(tokens@), i, '.'),
        },
{
    let mut i: usize = 0;
    while i < tokens.len()
        invariant
            i <= tokens@.len(),
            forall|j: int| 0 <= j < i ==> !punct_at(tvs(tokens@), j, '.'),
        decreases tokens@.len() - i,
    {
        if is_punct_at(tokens, i, '.') {
            return Some(diag(
                "batch-impl: a range (`..`/`..=`) in a type position needs integer endpoints (e.g. `0..=3`)",
            ));
        }
        i += 1;
    }
    None
}

pub open spec fn start_punct_msg() -> Seq<char> {
    "batch-impl: `+`/`?`/`.` is not valid at the start of a type (`+`/`?` belong in bounds; a type cannot start with `.`)"@
}

/// `+`, `?` or a lone `.` cannot start a type.
pub open spec fn bad_start_spec(s: Seq<TokV>) -> bool {
    punct_at(s, 0, '+') || punct_at(s, 0, '?') || (s.len() > 0 && s[0] == TokV::Punct(
        '.',
        Spacing::Alone,
    ))
}

/// The diagnostic for a type that starts with `+`, `?` or a lone `.`.
pub fn validate_start_punct(tokens: &[Tok]) -> (r: Option<Diag>)
    ensures
        match r {
            Some(d) => bad_start_spec(tvs(tokens@)) && d@ == start_punct_msg(),
            None => !bad_start_spec(tvs(tokens@)),
        },
{
    let bad = tokens.len() > 0 && match &tokens[0] {
        Tok::Punct(c, sp) => *c == '+' || *c == '?' || (*c == '.' && *sp == Spacing::Alone),
        _ => false,
    };
    if bad {
        Some(diag(
            "batch-impl: `+`/`?`/`.` is not valid at the start of a type (`+`/`?` belong in bounds; a type cannot start with `.`)",
        ))
    } else {
        None
    }
}

} // verus!
