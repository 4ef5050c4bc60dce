//! The printed form of tokens and numbers, as diagnostics quote them.
//!
//! Tokens print the way `proc_macro2` prints a token stream: tokens are
//! separated by one space, except after a joint punctuation character;
//! parentheses and brackets hug their content, braces pad it with a space
//! on each side (`{ }` when empty), and the transparent delimiter prints
//! nothing.
use crate::token::{group_tok_view, tv, tvs, Delim, Spacing, Tok, TokV};
use vstd::prelude::*;

verus! {

/// The one-character string `c`.
///
/// Calls `ToString::to_string` on a `char`, which std documents as the
/// string holding that character alone.
#[verifier::external_body]
fn char_text(c: char) -> (s: String)
    ensures
        s@ == seq![c],
{
    c.to_string()
}

/// The decimal digit character of `d < 10`.
pub open spec fn digit_char(d: nat) -> char {
    if d == 0 {
        '0'
    } else if d == 1 {
        '1'
    } else if d == 2 {
        '2'
    } else if d == 3 {
        '3'
    } else if d == 4 {
        '4'
    } else if d == 5 {
        '5'
    } else if d == 6 {
        '6'
    } else if d == 7 {
        '7'
    } else if d == 8 {
        '8'
    } else {
        '9'
    }
}

/// The decimal spelling of `n` (no sign, no leading zeros).
pub open spec fn dec(n: nat) -> Seq<char>
    decreases n,
{
    if n < 10 {
        seq![digit_char(n)]
    } else {
        dec(n / 10) + seq![digit_char(n % 10)]
    }
}

fn digit(d: usize) -> (c: char)
    requires
        d < 10,
    ensures
        c == digit_char(d as nat),
{
    if d == 0 {
        '0'
    } else if d == 1 {
        '1'
    } else if d == 2 {
        '2'
    } else if d == 3 {
        '3'
    } else if d == 4 {
        '4'
    } else if d == 5 {
        '5'
    } else if d == 6 {
        '6'
    } else if d == 7 {
        '7'
    } else if d == 8 {
        '8'
    } else {
        '9'
    }
}

/// `n` in decimal.
pub fn usize_text(n: usize) -> (s: String)
    ensures
        s@ == dec(n as nat),
    decreases n,
{
    if n < 10 {
        char_text(digit(n))
    } else {
        let mut s = usize_text(n / 10);
        let d = char_text(digit(n % 10));
        s.append(d.as_str());
        s
    }
}

pub open spec fn delim_open(d: Delim) -> Seq<char> {
    match d {
        Delim::Paren => "("@,
        Delim::Bracket => "["@,
        Delim::Brace => "{ "@,
        Delim::Invisible => ""@,
    }
}

pub open spec fn delim_close(d: Delim) -> Seq<char> {
    match d {
        Delim::Paren => ")"@,
        Delim::Bracket => "]"@,
        Delim::Brace => "}"@,
        Delim::Invisible => ""@,
    }
}

/// The space before the closing delimiter: braces around content only.
pub open spec fn close_pad(d: Delim, inner: Seq<TokV>) -> Seq<char> {
    if d == Delim::Brace && inner.len() > 0 {
        " "@
    } else {
        ""@
    }
}

/// The printed form of one token tree.
pub open spec fn tok_text(t: TokV) -> Seq<char>
    decreases t,
{
    match t {
        TokV::Ident(s) => s,
        TokV::Punct(c, _) => seq![c],
        TokV::Literal(s) => s,
        TokV::Group(d, v) => delim_open(d) + stream_text(v) + close_pad(d, v) + delim_close(d),
    }
}

/// The separator printed before `s[i]` (`i > 0`): nothing after a joint
/// punctuation character, one space otherwise.
pub open spec fn sep_before(s: Seq<TokV>, i: int) -> Seq<char> {
    if i > 0 && !(s[i - 1] matches TokV::Punct(_, Spacing::Joint)) {
        " "@
    } else {
        ""@
    }
}

/// The printed form of a token stream.
pub open spec fn stream_text(s: Seq<TokV>) -> Seq<char>
    decreases s,
{
    if s.len() == 0 {
        Seq::empty()
    } else {
        stream_text(s.subrange(0, s.len() - 1)) + sep_before(s, s.len() - 1) + tok_text(
            s[s.len() - 1],
        )
    }
}

proof fn lemma_stream_text_step(s: Seq<TokV>, i: int)
    requires
        0 <= i < s.len(),
    ensures
        stream_text(s.subrange(0, i + 1)) == stream_text(s.subrange(0, i)) + sep_before(s, i)
            + tok_text(s[i]),
{
    let p = s.subrange(0, i + 1);
    assert(p.subrange(0, i) =~= s.subrange(0, i));
    assert(sep_before(p, i) == sep_before(s, i));
}

/// The printed form of one token tree.
pub fn tok_display(t: &Tok) -> (r: String)
    ensures
        r@ == tok_text(t@),
    decreases t, 1nat,
{
    match t {
        Tok::Ident(s) => s.clone(),
        Tok::Punct(c, _) => char_text(*c),
        Tok::Literal(s) => s.clone(),
        Tok::Group(d, v) => {
            let mut r = String::new();
            let (open, close) = match d {
                Delim::Paren => ("(", ")"),
                Delim::Bracket => ("[", "]"),
                Delim::Brace => ("{ ", "}"),
                Delim::Invisible => ("", ""),
            };
            r.append(open);
            let inner = stream_display_bounded(t, v.as_slice());
            r.append(inner.as_str());
            if *d == Delim::Brace && v.len() > 0 {
                r.append(" ");
            } else {
                proof {
                    reveal_strlit("");
                }
            }
            r.append(close);
            r
        },
    }
}

fn stream_display_bounded(outer: &Tok, v: &[Tok]) -> (r: String)
    requires
        outer matches Tok::Group(_, w) && w@ == v@,
    ensures
        r@ == stream_text(tvs(v@)),
    decreases outer, 0nat,
{
    broadcast use group_tok_view;

    let ghost s = tvs(v@);
    let mut r = String::new();
    let mut i: usize = 0;
    assert(s.subrange(0, 0) =~= Seq::<TokV>::empty());
    while i < v.len()
        invariant
            i <= v@.len(),
            s == tvs(v@),
            outer matches Tok::Group(_, w) && w@ == v@,
            r@ == stream_text(s.subrange(0, i as int)),
        decreases v.len() - i,
    {
        proof {
            let w = outer->Group_1;
            assert(decreases_to!(*outer => outer->Group_1));
            assert(decreases_to!(w => w[i as int]));
            lemma_stream_text_step(s, i as int);
        }
        let joint_before = i > 0 && match &v[i - 1] {
            Tok::Punct(_, Spacing::Joint) => true,
            _ => false,
        };
        if i > 0 && !joint_before {
            r.append(" ");
        } else {
            proof {
                reveal_strlit("");
            }
        }
        let t = tok_display(&v[i]);
        r.append(t.as_str());
        i += 1;
    }
    assert(s.subrange(0, v@.len() as int) =~= s);
    r
}

/// The printed form of a token stream.
pub fn stream_display(v: &[Tok]) -> (r: String)
    ensures
        r@ == stream_text(tvs(v@)),
{
    broadcast use group_tok_view;

    let ghost s = tvs(v@);
    let mut r = String::new();
    let mut i: usize = 0;
    assert(s.subrange(0, 0) =~= Seq::<TokV>::empty());
    while i < v.len()
        invariant
            i <= v@.len(),
            s == tvs(v@),
            r@ == stream_text(s.subrange(0, i as int)),
        decreases v.len() - i,
    {
        proof {
            lemma_stream_text_step(s, i as int);
        }
        let joint_before = i > 0 && match &v[i - 1] {
            Tok::Punct(_, Spacing::Joint) => true,
            _ => false,
        };
        if i > 0 && !joint_before {
            r.append(" ");
        } else {
            proof {
                reveal_strlit("");
            }
        }
        let t = tok_display(&v[i]);
        r.append(t.as_str());
        i += 1;
    }
    assert(s.subrange(0, v@.len() as int) =~= s);
    r
}

} // verus!

verus! {

proof fn lemma_dec_digits(n: nat)
    ensures
        crate::text::all_digits(dec(n)),
        crate::text::digits_value(dec(n)) == n,
        dec(n).len() >= 1,
    decreases n,
{
    if n < 10 {
        let s = dec(n);
        assert(s.drop_last() =~= Seq::<char>::empty());
        assert(crate::text::digits_value(s.drop_last()) == 0);
    } else {
        lemma_dec_digits(n / 10);
        let s = dec(n);
        let p = dec(n / 10);
        assert(s.drop_last() =~= p);
        assert(s.last() == digit_char(n % 10));
        assert forall|i: int| 0 <= i < s.len() implies crate::text::is_digit(#[trigger] s[i]) by {
            if i < p.len() {
                assert(s[i] == p[i]);
            }
        }
    }
}

/// Printing a number and reading it back gives the number: the decimal
/// spelling of `n` parses as `n` under any bound it respects.
pub proof fn law_decimal_roundtrip(n: nat, max: nat)
    requires
        n <= max,
    ensures
        crate::text::parse_unsigned(dec(n), max) == Some(n),
{
    lemma_dec_digits(n);
    let s = dec(n);
    assert(crate::text::is_digit(s[0]));
    assert(crate::text::unsigned_body(s) == s);
}

} // verus!
