//! A borrowing cursor over a token slice, and the stop-character scan the
//! DSL layers cut their operands with.
//!
//! Angle brackets have been paired into opaque groups before any scan, so
//! the scan tracks no `<>` depth; its only guard is the arrow: a joint `-`
//! followed by `>` is not a `-` stop.
use crate::token::{
    group_tok_view, is_joint_punct_at, is_punct, is_punct_at, joint_punct_at, punct_at, tok_at, tvs,
    Spacing, Tok, TokV,
};
use vstd::prelude::*;

verus! {

broadcast use group_tok_view;

/// `s[i]` is a stop: a punctuation character of `stop` that is not the
/// dash of a `->` arrow.
pub open spec fn stop_at(s: Seq<TokV>, stop: Seq<char>, i: int) -> bool {
    &&& 0 <= i < s.len()
    &&& s[i] matches TokV::Punct(c, sp) && stop.contains(c) && !(c == '-' && sp == Spacing::Joint
        && punct_at(s, i + 1, '>'))
}

/// The index of the first stop in `s`, if any.
pub open spec fn first_stop(s: Seq<TokV>, stop: Seq<char>) -> Option<int> {
    if exists|i: int| stop_at(s, stop, i) {
        Some(choose|i: int| stop_at(s, stop, i) && forall|j: int| 0 <= j < i ==> !stop_at(s, stop, j))
    } else {
        None
    }
}

proof fn lemma_first_stop(s: Seq<TokV>, stop: Seq<char>, i: int)
    requires
        stop_at(s, stop, i),
        forall|j: int| 0 <= j < i ==> !stop_at(s, stop, j),
    ensures
        first_stop(s, stop) == Some(i),
{
    let k = choose|k: int| stop_at(s, stop, k) && forall|j: int| 0 <= j < k ==> !stop_at(s, stop, j);
    assert(stop_at(s, stop, k) && forall|j: int| 0 <= j < k ==> !stop_at(s, stop, j));
    if k < i {
        assert(!stop_at(s, stop, k));
    } else if k > i {
        assert(!stop_at(s, stop, i));
    }
}

fn contains_char(stop: &[char], c: char) -> (b: bool)
    ensures
        b == stop@.contains(c),
{
    let mut i: usize = 0;
    while i < stop.len()
        invariant
            i <= stop@.len(),
            forall|j: int| 0 <= j < i ==> stop@[j] != c,
        decreases stop@.len() - i,
    {
        if stop[i] == c {
            assert(stop@[i as int] == c);
            return true;
        }
        i += 1;
    }
    false
}

/// The index of the first punctuation token whose character is in `stop`,
/// skipping the dash of a `->` arrow.
pub fn scan_with(tokens: &[Tok], stop: &[char]) -> (r: Option<usize>)
    ensures
        match r {
            Some(i) => {
                &&& i < tokens@.len()
                &&& first_stop(tvs(tokens@), stop@) == Some(i as int)
            },
            None => first_stop(tvs(tokens@), stop@) is None,
        },
{
    let ghost s = tvs(tokens@);
    let mut index: usize = 0;
    while index < tokens.len()
        invariant
            index <= tokens@.len(),
            s == tvs(tokens@),
            forall|j: int| 0 <= j < index ==> !stop_at(s, stop@, j),
        decreases tokens@.len() - index,
    {
        match &tokens[index] {
            Tok::Punct(c, sp) => {
                if contains_char(stop, *c) {
                    let is_arrow_dash = *c == '-' && *sp == Spacing::Joint && is_punct_at(
                        tokens,
                        index + 1,
                        '>',
                    );
                    if !is_arrow_dash {
                        proof {
                            lemma_first_stop(s, stop@, index as int);
                        }
                        return Some(index);
                    }
                }
            },
            _ => {},
        }
        index += 1;
    }
    None
}

/// [`scan_with`] under the name the DSL layers use for operand cutting.
pub fn scan_stop(tokens: &[Tok], stop: &[char]) -> (r: Option<usize>)
    ensures
        match r {
            Some(i) => {
                &&& i < tokens@.len()
                &&& first_stop(tvs(tokens@), stop@) == Some(i as int)
            },
            None => first_stop(tvs(tokens@), stop@) is None,
        },
{
    scan_with(tokens, stop)
}

/// `s[i]` is a lone `:`, not half of a `::`.
pub open spec fn single_colon_at(s: Seq<TokV>, i: int) -> bool {
    &&& punct_at(s, i, ':')
    &&& !(joint_punct_at(s, i - 1, ':') || (punct_at(s, i + 1, ':') && joint_punct_at(s, i, ':')))
}

/// Whether `tokens[index]` is a lone `:` (not part of `::`).
pub fn is_single_colon(tokens: &[Tok], index: usize) -> (b: bool)
    ensures
        b == single_colon_at(tvs(tokens@), index as int),
{
    if index >= tokens.len() || !is_punct_at(tokens, index, ':') {
        return false;
    }
    let after_joint = index > 0 && is_joint_punct_at(tokens, index - 1, ':');
    let before_colon = index + 1 < tokens.len() && is_punct_at(tokens, index + 1, ':')
        && is_joint_punct_at(tokens, index, ':');
    !(after_joint || before_colon)
}

/// Whether any top-level token is the punctuation character `c`.
pub fn contains_punct(tokens: &[Tok], c: char) -> (b: bool)
    ensures
        b == exists|i: int| punct_at(tvs(tokens@), i, c),
{
    let mut i: usize = 0;
    while i < tokens.len()
        invariant
            i <= tokens@.len(),
            forall|j: int| 0 <= j < i ==> !punct_at(tvs(tokens@), j, c),
        decreases tokens@.len() - i,
    {
        if is_punct(&tokens[i], c) {
            assert(punct_at(tvs(tokens@), i as int, c));
            return true;
        }
        i += 1;
    }
    false
}

/// A cursor that consumes a borrowed token slice front to back.
pub struct Cursor<'a> {
    tokens: &'a [Tok],
    pos: usize,
}

impl<'a> Cursor<'a> {
    /// The tokens the cursor walks.
    pub closed spec fn toks(&self) -> Seq<Tok> {
        self.tokens@
    }

    /// The current position (may pass the end after a `bump` there).
    pub closed spec fn at(&self) -> int {
        self.pos as int
    }

    /// A position is never negative.
    pub broadcast proof fn lemma_at_nonneg(c: Cursor<'a>)
        ensures
            #[trigger] c.at() >= 0,
    {
    }

    pub fn new(tokens: &'a [Tok]) -> (c: Self)
        ensures
            c.toks() == tokens@,
            c.at() == 0,
    {
        Cursor { tokens, pos: 0 }
    }

    pub fn at_end(&self) -> (b: bool)
        ensures
            b == (self.at() >= self.toks().len()),
    {
        self.pos >= self.tokens.len()
    }

    pub fn peek(&self) -> (r: Option<&'a Tok>)
        ensures
            self.at() < self.toks().len() ==> r == Some(&self.toks()[self.at()]),
            self.at() >= self.toks().len() ==> r is None,
    {
        tok_at(self.tokens, self.pos, 0)
    }

    pub fn peek_at(&self, offset: usize) -> (r: Option<&'a Tok>)
        ensures
            self.at() + offset < self.toks().len() ==> r == Some(&self.toks()[self.at() + offset]),
            self.at() + offset >= self.toks().len() ==> r is None,
    {
        tok_at(self.tokens, self.pos, offset)
    }

    pub fn is_punct(&self, c: char) -> (b: bool)
        ensures
            b == punct_at(tvs(self.toks()), self.at(), c),
    {
        is_punct_at(self.tokens, self.pos, c)
    }

    /// Whether the token just before the position is `c` (`ident!` bodies).
    pub fn prev_is_punct(&self, c: char) -> (b: bool)
        ensures
            b == (self.at() > 0 && punct_at(tvs(self.toks()), self.at() - 1, c)),
    {
        self.pos > 0 && is_punct_at(self.tokens, self.pos - 1, c)
    }

    pub fn is_single_colon(&self) -> (b: bool)
        ensures
            b == single_colon_at(tvs(self.toks()), self.at()),
    {
        is_single_colon(self.tokens, self.pos)
    }

    pub fn bump(&mut self)
        requires
            old(self).at() < usize::MAX,
        ensures
            final(self).toks() == old(self).toks(),
            final(self).at() == old(self).at() + 1,
    {
        self.pos = self.pos + 1;
    }

    pub fn pos(&self) -> (p: usize)
        ensures
            p == self.at(),
    {
        self.pos
    }

    /// The tokens from `start` up to the position.
    pub fn slice_since(&self, start: usize) -> (r: &'a [Tok])
        requires
            start <= self.at() <= self.toks().len(),
        ensures
            r@ == self.toks().subrange(start as int, self.at()),
    {
        vstd::slice::slice_subrange(self.tokens, start, self.pos)
    }

    /// Takes the tokens up to the next stop of `stop` (the stop itself is
    /// left in place), or all the rest when there is none.
    pub fn take_segment(&mut self, stop: &[char]) -> (r: &'a [Tok])
        requires
            old(self).at() <= old(self).toks().len(),
        ensures
            final(self).toks() == old(self).toks(),
            ({
                let rest = old(self).toks().subrange(old(self).at(), old(self).toks().len() as int);
                let end = match first_stop(tvs(rest), stop@) {
                    Some(e) => e,
                    None => rest.len() as int,
                };
                &&& r@ == rest.subrange(0, end)
                &&& final(self).at() == old(self).at() + end
            }),
    {
        let tokens = self.tokens;
        let rest = vstd::slice::slice_subrange(tokens, self.pos, tokens.len());
        let end = match scan_stop(rest, stop) {
            Some(e) => e,
            None => rest.len(),
        };
        assert(end <= rest@.len());
        self.pos = self.pos + end;
        vstd::slice::slice_subrange(rest, 0, end)
    }

    /// Takes all the remaining tokens.
    pub fn take_rest(&mut self) -> (r: &'a [Tok])
        requires
            old(self).at() <= old(self).toks().len(),
        ensures
            final(self).toks() == old(self).toks(),
            r@ == old(self).toks().subrange(old(self).at(), old(self).toks().len() as int),
            final(self).at() == old(self).toks().len(),
    {
        let tokens = self.tokens;
        let rest = vstd::slice::slice_subrange(tokens, self.pos, tokens.len());
        self.pos = tokens.len();
        rest
    }
}

} // verus!
