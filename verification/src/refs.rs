//! Position references written after `@` in a type: `@N` (flat) and
//! `@L_N` (position `N` inside generator group `L`), and the start of the
//! range forms `@N..`, `@N..M`, `@N..=M`.
use crate::text::{parse_unsigned, parse_unsigned_exec, split_once_char, split_once_spec};
use vstd::prelude::*;

verus! {

/// Where a position reference ends.
#[derive(Clone, Copy, PartialEq, Eq, Structural, Debug)]
pub enum FreshEnd {
    /// One position (`@N`).
    Single,
    /// Every position from the start on (`@N..`).
    Open,
    /// Up to this position, inclusive (`@N..=M`, or `@N..M` as `M - 1`).
    Closed(usize),
}

/// A structured position reference.
#[derive(Clone, Copy, PartialEq, Eq, Structural, Debug)]
pub struct FreshRef {
    /// The generator group (`L` of `@L_N`), `None` for the flat form.
    pub group: Option<usize>,
    /// The first position referred to.
    pub start: usize,
    pub end: FreshEnd,
}

/// `str::parse::<usize>`.
pub open spec fn parse_usize(s: Seq<char>) -> Option<usize> {
    match parse_unsigned(s, usize::MAX as nat) {
        Some(v) => Some(v as usize),
        None => None,
    }
}

pub fn parse_usize_exec(s: &str) -> (r: Option<usize>)
    ensures
        r == parse_usize(s@),
{
    match parse_unsigned_exec(s, usize::MAX as u64) {
        Some(v) => Some(v as usize),
        None => None,
    }
}

/// The literal after `@`: a plain number `N` gives `(None, N)`; otherwise
/// `L_N` (split at the first `_`, both sides numbers) gives `(Some(L), N)`.
pub open spec fn range_literal_spec(s: Seq<char>) -> Option<(Option<usize>, usize)> {
    match parse_usize(s) {
        Some(n) => Some((None, n)),
        None => match split_once_spec(s, '_') {
            Some((l, n)) => match (parse_usize(l), parse_usize(n)) {
                (Some(a), Some(b)) => Some((Some(a), b)),
                _ => None,
            },
            None => None,
        },
    }
}

/// Parses the literal after `@` in a range reference: `N` (flat) or `L_N`
/// (grouped). Returns `(group, start)`.
pub fn parse_range_literal(s: &str) -> (r: Option<(Option<usize>, usize)>)
    ensures
        r == range_literal_spec(s@),
{
    if let Some(n) = parse_usize_exec(s) {
        return Some((None, n));
    }
    match split_once_char(s, '_') {
        Some((l, n)) => match (parse_usize_exec(l), parse_usize_exec(n)) {
            (Some(a), Some(b)) => Some((Some(a), b)),
            _ => None,
        },
        None => None,
    }
}

/// The single-position reference a literal `N` / `L_N` spells.
pub open spec fn single_ref_spec(s: Seq<char>) -> Option<FreshRef> {
    match range_literal_spec(s) {
        Some((group, start)) => Some(FreshRef { group, start, end: FreshEnd::Single }),
        None => None,
    }
}

/// Parses a single-position reference literal (`N` / `L_N`).
pub fn parse_single_ref_token(lit: &str) -> (r: Option<FreshRef>)
    ensures
        r == single_ref_spec(lit@),
{
    if let Some(n) = parse_usize_exec(lit) {
        return Some(FreshRef { group: None, start: n, end: FreshEnd::Single });
    }
    match split_once_char(lit, '_') {
        Some((l, i)) => match (parse_usize_exec(l), parse_usize_exec(i)) {
            (Some(g), Some(s)) => Some(FreshRef { group: Some(g), start: s, end: FreshEnd::Single }),
            _ => None,
        },
        None => None,
    }
}

} // verus!
