//! The impl entry has no directive system: a `#` that does not start an
//! attribute (`#[...]`) is an input error there.
use crate::diag::{diag, lemma_seq_then_assoc, res_view, seq_then, Diag};
use crate::token::{
    copy_tok, group_tok_view, is_group_at, lemma_tvs_push, punct_v, tv, tvs, Delim, Tok, TokV,
};
use vstd::prelude::*;

verus! {

pub open spec fn directive_msg() -> Seq<char> {
    "batch-impl: `#` directives are not supported on the ItemImpl entry (write the impl body directly)"@
}

/// Every `#` of `s`, at any depth, starts an attribute: the output is `s`
/// itself, with groups rebuilt; an attribute's own content is not entered.
pub open spec fn reject_spec(s: Seq<TokV>) -> Result<Seq<TokV>, Seq<char>>
    decreases s,
{
    if s.len() == 0 {
        Ok(Seq::empty())
    } else if punct_v(s[0], '#') {
        if s.len() > 1 && s[1] matches TokV::Group(Delim::Bracket, _) {
            seq_then(seq![s[0], s[1]], reject_spec(s.subrange(2, s.len() as int)))
        } else {
            Err(directive_msg())
        }
    } else {
        match s[0] {
            TokV::Group(d, inner) => match reject_spec(inner) {
                Err(e) => Err(e),
                Ok(x) => seq_then(seq![TokV::Group(d, x)], reject_spec(s.subrange(1, s.len() as int))),
            },
            _ => seq_then(seq![s[0]], reject_spec(s.subrange(1, s.len() as int))),
        }
    }
}

proof fn lemma_reject_step(s: Seq<TokV>, i: int)
    requires
        0 <= i < s.len(),
    ensures
        reject_spec(s.subrange(i, s.len() as int)) == (if punct_v(s[i], '#') {
            if i + 1 < s.len() && s[i + 1] matches TokV::Group(Delim::Bracket, _) {
                seq_then(seq![s[i], s[i + 1]], reject_spec(s.subrange(i + 2, s.len() as int)))
            } else {
                Err(directive_msg())
            }
        } else {
            match s[i] {
                TokV::Group(d, inner) => match reject_spec(inner) {
                    Err(e) => Err(e),
                    Ok(x) => seq_then(
                        seq![TokV::Group(d, x)],
                        reject_spec(s.subrange(i + 1, s.len() as int)),
                    ),
                },
                _ => seq_then(seq![s[i]], reject_spec(s.subrange(i + 1, s.len() as int))),
            }
        }),
{
    let r = s.subrange(i, s.len() as int);
    assert(r[0] == s[i]);
    if r.len() > 1 {
        assert(r[1] == s[i + 1]);
        assert(r.subrange(2, r.len() as int) =~= s.subrange(i + 2, s.len() as int));
    }
    assert(r.subrange(1, r.len() as int) =~= s.subrange(i + 1, s.len() as int));
}

/// Rejects `#name...` directives (only `#[...]` attributes pass through),
/// at any depth.
pub fn reject_directives(tokens: &[Tok]) -> (r: Result<Vec<Tok>, Diag>)
    ensures
        res_view(r) == reject_spec(tvs(tokens@)),
    decreases tokens@,
{
    broadcast use group_tok_view;

    let ghost s = tvs(tokens@);
    let mut out: Vec<Tok> = Vec::new();
    let mut i: usize = 0;
    assert(s.subrange(0, s.len() as int) =~= s);
    while i < tokens.len()
        invariant
            i <= tokens@.len(),
            s == tvs(tokens@),
            reject_spec(s) == seq_then(tvs(out@), reject_spec(s.subrange(i as int, s.len() as int))),
        decreases tokens@.len() - i,
    {
        proof {
            lemma_reject_step(s, i as int);
        }
        let ghost prev = out@;
        let ghost before = tvs(prev);
        let ghost rest_i = s.subrange(i as int, s.len() as int);
        match &tokens[i] {
            Tok::Punct(c, _) if *c == '#' => {
                if is_group_at(tokens, i + 1, Delim::Bracket) {
                    let a = copy_tok(&tokens[i]);
                    let b = copy_tok(&tokens[i + 1]);
                    out.push(a);
                    out.push(b);
                    proof {
                        assert(tvs(out@) =~= before + seq![s[i as int], s[i + 1]]);
                        lemma_seq_then_assoc(
                            before,
                            seq![s[i as int], s[i + 1]],
                            reject_spec(s.subrange(i + 2, s.len() as int)),
                        );
                    }
                    i += 2;
                } else {
                    return Err(
                        diag(
                            "batch-impl: `#` directives are not supported on the ItemImpl entry (write the impl body directly)",
                        ),
                    );
                }
            },
            Tok::Group(d, inner) => {
                proof {
                    assert(decreases_to!(tokens@ => tokens@[i as int]));
                }
                let x = reject_directives(inner.as_slice());
                match x {
                    Err(e) => {
                        return Err(e);
                    },
                    Ok(v) => {
                        let g = Tok::Group(*d, v);
                        out.push(g);
                        proof {
                            lemma_tvs_push(prev, g);
                            lemma_seq_then_assoc(
                                before,
                                seq![tv(g)],
                                reject_spec(s.subrange(i + 1, s.len() as int)),
                            );
                        }
                        i += 1;
                    },
                }
            },
            _ => {
                let t = copy_tok(&tokens[i]);
                out.push(t);
                proof {
                    lemma_tvs_push(prev, t);
                    lemma_seq_then_assoc(
                        before,
                        seq![tv(t)],
                        reject_spec(s.subrange(i + 1, s.len() as int)),
                    );
                }
                i += 1;
            },
        }
    }
    Ok(out)
}

} // verus!

verus! {

/// Refusing directives changes nothing it accepts: whenever no bare `#`
/// directive occurs, the output is the input itself.
pub proof fn law_reject_keeps_accepted_input(s: Seq<TokV>)
    requires
        reject_spec(s) is Ok,
    ensures
        reject_spec(s)->Ok_0 == s,
    decreases s,
{
    if s.len() > 0 {
        if punct_v(s[0], '#') {
            let rest = s.subrange(2, s.len() as int);
            law_reject_keeps_accepted_input(rest);
            assert(seq![s[0], s[1]] + rest =~= s);
        } else {
            let rest = s.subrange(1, s.len() as int);
            match s[0] {
                TokV::Group(d, inner) => {
                    law_reject_keeps_accepted_input(inner);
                    law_reject_keeps_accepted_input(rest);
                    assert(seq![TokV::Group(d, inner)] + rest =~= s);
                },
                _ => {
                    law_reject_keeps_accepted_input(rest);
                    assert(seq![s[0]] + rest =~= s);
                },
            }
        }
    }
}

} // verus!
