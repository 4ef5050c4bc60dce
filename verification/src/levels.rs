//! Operator precedence levels of the DSL, from loosest to tightest:
//! `;` < `,` < `-` < `^`, then `Prim` (an atom, no operator).
//!
//! At each level an operand is cut at that level's stop characters and the
//! piece is handed to the next tighter level.
use vstd::prelude::*;

verus! {

#[derive(Clone, Copy, PartialEq, Eq, Structural, Debug)]
pub enum Op {
    Semi,
    Comma,
    Dash,
    Caret,
    Prim,
}

/// The position of a level, loosest first.
pub open spec fn rank(op: Op) -> nat {
    match op {
        Op::Semi => 0,
        Op::Comma => 1,
        Op::Dash => 2,
        Op::Caret => 3,
        Op::Prim => 4,
    }
}

/// The stop characters of a level.
pub open spec fn stops(op: Op) -> Seq<char> {
    match op {
        Op::Semi => seq![',', ';'],
        Op::Comma => seq![','],
        Op::Dash => seq!['-', ','],
        Op::Caret => seq!['^', '-', ','],
        Op::Prim => Seq::empty(),
    }
}

impl Op {
    /// The next tighter level; none after `Prim`.
    pub fn next(self) -> (r: Option<Op>)
        ensures
            match r {
                Some(n) => rank(n) == rank(self) + 1,
                None => self == Op::Prim,
            },
    {
        match self {
            Op::Semi => Some(Op::Comma),
            Op::Comma => Some(Op::Dash),
            Op::Dash => Some(Op::Caret),
            Op::Caret => Some(Op::Prim),
            Op::Prim => None,
        }
    }

    /// The characters that cut an operand at this level (`Semi` also cuts
    /// at `,`: the caller tells item and section boundaries apart).
    pub fn stop_chars(self) -> (r: &'static [char])
        ensures
            r@ == stops(self),
    {
        match self {
            Op::Semi => {
                let r: &'static [char] = &[',', ';'];
                assert(r@ =~= stops(self));
                r
            },
            Op::Comma => {
                let r: &'static [char] = &[','];
                assert(r@ =~= stops(self));
                r
            },
            Op::Dash => {
                let r: &'static [char] = &['-', ','];
                assert(r@ =~= stops(self));
                r
            },
            Op::Caret => {
                let r: &'static [char] = &['^', '-', ','];
                assert(r@ =~= stops(self));
                r
            },
            Op::Prim => {
                let r: &'static [char] = &[];
                assert(r@ =~= stops(self));
                r
            },
        }
    }
}

} // verus!
