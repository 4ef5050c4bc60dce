//! Fresh generic parameter names: `_Param_0_BatchGen_`,
//! `_Param_1_BatchGen_`, ... — names no user code spells. The counter is
//! reset once per macro entry so that names never depend on earlier
//! expansions.
use crate::display::{dec, usize_text};
use crate::text::cat3;
use crate::token::{Tok, TokV};
use vstd::prelude::*;

verus! {

/// The name of fresh parameter number `n`.
pub open spec fn fresh_name(n: nat) -> Seq<char> {
    "_Param_"@ + dec(n) + "_BatchGen_"@
}

/// The counter of fresh parameter names handed out since the last reset.
pub struct FreshCounter {
    next: usize,
}

impl FreshCounter {
    /// The number the next fresh name carries.
    pub closed spec fn count(&self) -> nat {
        self.next as nat
    }

    pub fn new() -> (c: Self)
        ensures
            c.count() == 0,
    {
        FreshCounter { next: 0 }
    }

    /// The number the next fresh name would carry.
    pub fn next_number(&self) -> (n: usize)
        ensures
            n == self.count(),
    {
        self.next
    }

    /// Starts numbering again from 0 (once per macro entry).
    pub fn reset_fresh_counter(&mut self)
        ensures
            final(self).count() == 0,
    {
        self.next = 0;
    }

    /// A fresh generic parameter: the identifier numbered by the counter,
    /// which then moves on by one.
    pub fn fresh_param(&mut self) -> (t: Tok)
        requires
            old(self).count() < usize::MAX,
        ensures
            t@ == TokV::Ident(fresh_name(old(self).count())),
            final(self).count() == old(self).count() + 1,
    {
        let n = usize_text(self.next);
        self.next = self.next + 1;
        Tok::Ident(cat3("_Param_", n.as_str(), "_BatchGen_"))
    }
}

} // verus!

verus! {

proof fn lemma_dec_len(n: nat)
    ensures
        dec(n).len() >= 1,
        n >= 10 ==> dec(n).len() >= 2,
    decreases n,
{
    if n >= 10 {
        lemma_dec_len(n / 10);
    }
}

/// Decimal spellings of different numbers differ.
proof fn lemma_dec_injective(a: nat, b: nat)
    requires
        dec(a) == dec(b),
    ensures
        a == b,
    decreases a,
{
    lemma_dec_len(a);
    lemma_dec_len(b);
    if a >= 10 && b >= 10 {
        let da = dec(a / 10);
        let db = dec(b / 10);
        assert(dec(a) == da + seq![crate::display::digit_char(a % 10)]);
        assert(dec(b) == db + seq![crate::display::digit_char(b % 10)]);
        assert(dec(a).last() == crate::display::digit_char(a % 10));
        assert(dec(b).last() == crate::display::digit_char(b % 10));
        assert(dec(a).drop_last() =~= da);
        assert(dec(b).drop_last() =~= db);
        lemma_dec_injective(a / 10, b / 10);
    } else if a < 10 && b < 10 {
        assert(dec(a)[0] == crate::display::digit_char(a));
        assert(dec(b)[0] == crate::display::digit_char(b));
    }
}

/// Fresh names never clash with each other: different counter values
/// give different names.
pub proof fn law_fresh_names_distinct(m: nat, n: nat)
    requires
        m != n,
    ensures
        fresh_name(m) != fresh_name(n),
{
    if fresh_name(m) == fresh_name(n) {
        let p = "_Param_"@;
        let q = "_BatchGen_"@;
        let x = p + dec(m) + q;
        let y = p + dec(n) + q;
        assert(x == fresh_name(m));
        assert(y == fresh_name(n));
        assert(x.len() == p.len() + dec(m).len() + q.len());
        assert(y.len() == p.len() + dec(n).len() + q.len());
        assert(dec(m).len() == dec(n).len());
        assert(x.subrange(p.len() as int, (p.len() + dec(m).len()) as int) =~= dec(m));
        assert(y.subrange(p.len() as int, (p.len() + dec(n).len()) as int) =~= dec(n));
        lemma_dec_injective(m, n);
    }
}

} // verus!
