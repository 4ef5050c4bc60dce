//! Where the `#` directives of a token list sit: the list is split into
//! pieces — tokens kept as written, `[...]` groups that are entered, and
//! directives with their argument and body groups — in order. Only bracket
//! groups are entered (not `m![...]` macro bodies nor `#[...]`
//! attributes). A malformed directive ends the walk with an error piece at
//! its place, so whatever expands the pieces in order meets the errors in
//! the order the list holds them.
use crate::diag::Diag;
use crate::directives::dispatch::{directive_spec, parse_directive, DirectiveKind};
use crate::token::{
    bracket_is_passthrough, copy_tok, group_tok_view, passthrough_at, punct_v, tv, tvs, Delim, Tok,
    TokV,
};
use vstd::prelude::*;

verus! {

broadcast use group_tok_view;

/// One piece of a split token list.
#[derive(Debug)]
pub enum Piece {
    /// A token kept as written.
    Tok(Tok),
    /// An entered `[...]` group, split in turn.
    Bracket(Vec<Piece>),
    /// A directive: its name, its form, the argument group (not for
    /// `#name{body}`) and the body group.
    Directive { name: String, kind: DirectiveKind, args: Option<Tok>, body: Tok },
    /// A malformed directive; nothing follows it.
    Error(Diag),
}

pub enum PieceV {
    Tok(TokV),
    Bracket(Seq<PieceV>),
    Directive(Seq<char>, DirectiveKind, Option<TokV>, TokV),
    Error(Seq<char>),
}

pub open spec fn piece_v(p: Piece) -> PieceV
    decreases p,
{
    match p {
        Piece::Tok(t) => PieceV::Tok(tv(t)),
        Piece::Bracket(v) => PieceV::Bracket(pieces_v(v@)),
        Piece::Directive { name, kind, args, body } => PieceV::Directive(
            name@,
            kind,
            match args {
                Some(a) => Some(tv(a)),
                None => None,
            },
            tv(body),
        ),
        Piece::Error(d) => PieceV::Error(d@),
    }
}

pub open spec fn pieces_v(s: Seq<Piece>) -> Seq<PieceV>
    decreases s,
{
    Seq::new(
        s.len(),
        |i: int|
            if 0 <= i < s.len() {
                piece_v(s[i])
            } else {
                PieceV::Error(Seq::empty())
            },
    )
}

proof fn lemma_pieces_push(s: Seq<Piece>, p: Piece)
    ensures
        pieces_v(s.push(p)) == pieces_v(s) + seq![piece_v(p)],
{
    assert(pieces_v(s.push(p)) =~= pieces_v(s) + seq![piece_v(p)]);
}

/// The walk ended early: the last piece is an error.
pub open spec fn stopped(p: Seq<PieceV>) -> bool {
    p.len() > 0 && p.last() is Error
}

/// A `#` followed by an identifier starts a directive at `i`.
pub open spec fn directive_at(s: Seq<TokV>, i: int) -> bool {
    0 <= i && i + 1 < s.len() && punct_v(s[i], '#') && s[i + 1] is Ident
}

/// The pieces of `s` from `i` on.
pub open spec fn pieces_from(s: Seq<TokV>, i: int) -> Seq<PieceV>
    decreases s, s.len() - i,
{
    if i < 0 || i >= s.len() {
        Seq::empty()
    } else if directive_at(s, i) {
        let name = s[i + 1]->Ident_0;
        match directive_spec(s, i, name) {
            Err(e) => seq![PieceV::Error(e)],
            Ok((k, n)) => if n == 3 && i + 2 < s.len() {
                seq![PieceV::Directive(name, k, None, s[i + 2])] + pieces_from(s, i + 3)
            } else if n == 4 && i + 3 < s.len() {
                seq![PieceV::Directive(name, k, Some(s[i + 2]), s[i + 3])] + pieces_from(s, i + 4)
            } else {
                Seq::empty()
            },
        }
    } else {
        match s[i] {
            TokV::Group(Delim::Bracket, inner) => if passthrough_at(s, i) {
                seq![PieceV::Tok(s[i])] + pieces_from(s, i + 1)
            } else if stopped(pieces_spec(inner)) {
                seq![PieceV::Bracket(pieces_spec(inner))]
            } else {
                seq![PieceV::Bracket(pieces_spec(inner))] + pieces_from(s, i + 1)
            },
            _ => seq![PieceV::Tok(s[i])] + pieces_from(s, i + 1),
        }
    }
}

/// The pieces of `s`.
pub open spec fn pieces_spec(s: Seq<TokV>) -> Seq<PieceV>
    decreases s, s.len() + 1,
{
    pieces_from(s, 0)
}

proof fn lemma_directive_len(s: Seq<TokV>, i: int, name: Seq<char>)
    ensures
        directive_spec(s, i, name) matches Ok((k, n)) ==> (n == 3 && k == DirectiveKind::Single
            && i + 2 < s.len()) || (n == 4 && k != DirectiveKind::Single && i + 3 < s.len()),
{
}

/// Splits `tokens` into its pieces (see [`pieces_spec`]).
pub fn split_directives(tokens: &[Tok]) -> (r: Vec<Piece>)
    ensures
        pieces_v(r@) == pieces_spec(tvs(tokens@)),
    decreases tokens@,
{
    let ghost s = tvs(tokens@);
    let mut out: Vec<Piece> = Vec::new();
    let mut i: usize = 0;
    while i < tokens.len()
        invariant
            i <= tokens@.len(),
            s == tvs(tokens@),
            pieces_spec(s) == pieces_v(out@) + pieces_from(s, i as int),
        decreases tokens@.len() - i,
    {
        let ghost before = out@;
        let name_at: Option<&String> = if i + 1 < tokens.len() {
            match (&tokens[i], &tokens[i + 1]) {
                (Tok::Punct(c, _), Tok::Ident(name)) if *c == '#' => Some(name),
                _ => None,
            }
        } else {
            None
        };
        assert(name_at is Some <==> directive_at(s, i as int));
        if let Some(name) = name_at {
            proof {
                lemma_directive_len(s, i as int, name@);
            }
            match parse_directive(tokens, i, name.as_str()) {
                Err(d) => {
                    let p = Piece::Error(d);
                    out.push(p);
                    proof {
                        lemma_pieces_push(before, p);
                    }
                    return out;
                },
                Ok((kind, n)) => {
                    let p = if n == 3 {
                        Piece::Directive {
                            name: name.clone(),
                            kind,
                            args: None,
                            body: copy_tok(&tokens[i + 2]),
                        }
                    } else {
                        Piece::Directive {
                            name: name.clone(),
                            kind,
                            args: Some(copy_tok(&tokens[i + 2])),
                            body: copy_tok(&tokens[i + 3]),
                        }
                    };
                    out.push(p);
                    proof {
                        lemma_pieces_push(before, p);
                        assert(pieces_v(before) + (seq![piece_v(p)] + pieces_from(s, i + n))
                            =~= pieces_v(out@) + pieces_from(s, i + n));
                    }
                    i += n;
                },
            }
        } else {
            match &tokens[i] {
                Tok::Group(Delim::Bracket, inner) if !bracket_is_passthrough(tokens, i) => {
                    proof {
                        assert(decreases_to!(tokens@ => tokens@[i as int]));
                    }
                    let v = split_directives(inner.as_slice());
                    let ended = v.len() > 0 && match &v[v.len() - 1] {
                        Piece::Error(_) => true,
                        _ => false,
                    };
                    assert(ended == stopped(pieces_v(v@)));
                    let p = Piece::Bracket(v);
                    out.push(p);
                    proof {
                        lemma_pieces_push(before, p);
                    }
                    if ended {
                        return out;
                    }
                    proof {
                        assert(pieces_v(before) + (seq![piece_v(p)] + pieces_from(s, i + 1))
                            =~= pieces_v(out@) + pieces_from(s, i + 1));
                    }
                    i += 1;
                },
                _ => {
                    let p = Piece::Tok(copy_tok(&tokens[i]));
                    out.push(p);
                    proof {
                        lemma_pieces_push(before, p);
                        assert(pieces_v(before) + (seq![piece_v(p)] + pieces_from(s, i + 1))
                            =~= pieces_v(out@) + pieces_from(s, i + 1));
                    }
                    i += 1;
                },
            }
        }
    }
    assert(pieces_v(out@) + Seq::<PieceV>::empty() =~= pieces_v(out@));
    out
}

} // verus!
