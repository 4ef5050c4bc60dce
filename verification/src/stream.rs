//! The preprocessing order as types: each state names the invariant the
//! stream holds, and the methods on a state are exactly the transitions
//! that keep it.
//!
//! ```text
//! Raw ─impl_process─▶ Raw ─mark_varseg─▶ Marked ─expand_consts─▶ ConstsDone ─angle_collect─▶ Paired
//! Paired ─reject_directives─▶ DirectivesResolved ─where_process─▶ WhereDone
//! Paired ─where_process─▶ WhereDone                     (batch_trait!)
//! WhereDone ─expand_empty_trait_generics─▶ Ready
//! ```
//!
//! - `Raw`: the tokens as written;
//! - `Marked`: variadic segments marked (`ident@..` is opaque to the
//!   constant stage);
//! - `ConstsDone`: `@` constants resolved (flat `<...>` may remain);
//! - `Paired`: `<...>` paired into groups (pairing is destructive: never
//!   pair twice);
//! - `DirectivesResolved`: no bare `#` left (`#[...]` attributes pass);
//! - `WhereDone`: bare `where` rewritten;
//! - `Ready`: `A<>` expanded, the state the parser takes.
use crate::angle::{angle_collect, collect_from, collect_spec};
use crate::consts::ctx::ConstCtx;
use crate::consts::table::{consts_from, consts_spec, expand_consts};
use crate::diag::Diag;
use crate::directives::reject::{reject_directives, reject_spec};
use crate::directives::walk::{pieces_from, pieces_spec, PieceV};
use crate::empty_generics::{empty_generics_from, expand_empty_trait_generics, parts_view};
use crate::token::{impl_template_at, passthrough_at, tvs, Delim, Spacing, Tok, TokV};
use crate::varseg::{mark_varseg, varseg_spec};
use crate::where_process::{impl_process, kw_from, kw_spec, where_process, Keyword};
use std::marker::PhantomData;
use vstd::prelude::*;

verus! {

pub struct Raw;

pub struct Marked;

pub struct ConstsDone;

pub struct Paired;

pub struct DirectivesResolved;

pub struct WhereDone;

pub struct Ready;

/// A token stream at state `S`; only the transitions build one.
pub struct Stream<S> {
    tokens: Vec<Tok>,
    _state: PhantomData<S>,
}

/// `r`, then `f`, where `f` is a pass on the tokens of an `Ok`.
pub open spec fn step(
    r: Result<Seq<TokV>, Seq<char>>,
    f: spec_fn(Seq<TokV>) -> Result<Seq<TokV>, Seq<char>>,
) -> Result<Seq<TokV>, Seq<char>> {
    match r {
        Err(e) => Err(e),
        Ok(v) => f(v),
    }
}

/// The view of a transition's result.
pub open spec fn stream_view<S>(r: Result<Stream<S>, Diag>) -> Result<Seq<TokV>, Seq<char>> {
    match r {
        Ok(st) => Ok(st.toks()),
        Err(d) => Err(d@),
    }
}

/// The shared prefix of the entries: bare-`impl` collection, variadic
/// marking, constant expansion, pairing.
pub open spec fn preprocess_spec(s: Seq<TokV>, ctx: ConstCtx) -> Result<Seq<TokV>, Seq<char>> {
    step(
        step(
            step(kw_spec(Keyword::Impl, s), |v: Seq<TokV>| varseg_spec(v, 0)),
            |v: Seq<TokV>| consts_spec(v, ctx, 0),
        ),
        |v: Seq<TokV>| collect_spec(v, 0),
    )
}

impl<S> Stream<S> {
    /// The tokens of the stream.
    pub closed spec fn toks(&self) -> Seq<TokV> {
        tvs(self.tokens@)
    }

    /// The tokens at the current state.
    pub fn into_tokens(self) -> (r: Vec<Tok>)
        ensures
            tvs(r@) == self.toks(),
    {
        self.tokens
    }
}

/// Any token list enters as `Raw`.
pub fn new(tokens: Vec<Tok>) -> (st: Stream<Raw>)
    ensures
        st.toks() == tvs(tokens@),
{
    Stream { tokens, _state: PhantomData }
}

impl Stream<Raw> {
    /// Collects bare `impl` fragments (`impl A<B> {body}` → `impl{A<B>}
    /// {body}`); stays `Raw`, and must precede the variadic marking.
    pub fn impl_process(self) -> (r: Result<Stream<Raw>, Diag>)
        ensures
            stream_view(r) == kw_spec(Keyword::Impl, self.toks()),
    {
        match impl_process(self.tokens.as_slice()) {
            Ok(tokens) => Ok(Stream { tokens, _state: PhantomData }),
            Err(d) => Err(d),
        }
    }

    /// Marks variadic segments inside `impl{...}` templates.
    pub fn mark_varseg(self) -> (r: Result<Stream<Marked>, Diag>)
        ensures
            stream_view(r) == varseg_spec(self.toks(), 0),
    {
        match mark_varseg(self.tokens.as_slice()) {
            Ok(tokens) => Ok(Stream { tokens, _state: PhantomData }),
            Err(d) => Err(d),
        }
    }

    /// The shared prefix of all entries, in its fixed order.
    pub fn preprocess(self, ctx: ConstCtx) -> (r: Result<Stream<Paired>, Diag>)
        ensures
            stream_view(r) == preprocess_spec(self.toks(), ctx),
    {
        let a = match self.impl_process() {
            Ok(a) => a,
            Err(d) => {
                return Err(d);
            },
        };
        let b = match a.mark_varseg() {
            Ok(b) => b,
            Err(d) => {
                return Err(d);
            },
        };
        let c = match b.expand_consts(ctx) {
            Ok(c) => c,
            Err(d) => {
                return Err(d);
            },
        };
        c.angle_collect()
    }
}

impl Stream<Marked> {
    /// Expands `@` constants against `ctx`.
    pub fn expand_consts(self, ctx: ConstCtx) -> (r: Result<Stream<ConstsDone>, Diag>)
        ensures
            stream_view(r) == consts_spec(self.toks(), ctx, 0),
    {
        match expand_consts(self.tokens.as_slice(), ctx) {
            Ok(tokens) => Ok(Stream { tokens, _state: PhantomData }),
            Err(d) => Err(d),
        }
    }
}

impl Stream<ConstsDone> {
    /// Pairs flat `<...>` into groups.
    pub fn angle_collect(self) -> (r: Result<Stream<Paired>, Diag>)
        ensures
            stream_view(r) == collect_spec(self.toks(), 0),
    {
        match angle_collect(self.tokens.as_slice()) {
            Ok(tokens) => Ok(Stream { tokens, _state: PhantomData }),
            Err(d) => Err(d),
        }
    }
}

impl Stream<Paired> {
    /// The impl entry: `#` directives are refused, attributes pass.
    pub fn reject_directives(self) -> (r: Result<Stream<DirectivesResolved>, Diag>)
        ensures
            stream_view(r) == reject_spec(self.toks()),
    {
        match reject_directives(self.tokens.as_slice()) {
            Ok(tokens) => Ok(Stream { tokens, _state: PhantomData }),
            Err(d) => Err(d),
        }
    }

    /// `batch_trait!`: straight to the bare-`where` rewrite.
    pub fn where_process(self) -> (r: Result<Stream<WhereDone>, Diag>)
        ensures
            stream_view(r) == kw_spec(Keyword::Where, self.toks()),
    {
        match where_process(self.tokens.as_slice()) {
            Ok(tokens) => Ok(Stream { tokens, _state: PhantomData }),
            Err(d) => Err(d),
        }
    }
}

impl Stream<DirectivesResolved> {
    /// Rewrites bare `where predicate {body}` to `where{predicate}`.
    pub fn where_process(self) -> (r: Result<Stream<WhereDone>, Diag>)
        ensures
            stream_view(r) == kw_spec(Keyword::Where, self.toks()),
    {
        match where_process(self.tokens.as_slice()) {
            Ok(tokens) => Ok(Stream { tokens, _state: PhantomData }),
            Err(d) => Err(d),
        }
    }
}

impl Stream<WhereDone> {
    /// Copies `A<>` from the trait's generics (see
    /// [`expand_empty_trait_generics`]).
    pub fn expand_empty_trait_generics(self, formals: &[Vec<Tok>], arg_names: &[Vec<Tok>]) -> (r:
        Stream<Ready>)
        ensures
            r.toks() == (if formals@.len() == 0 {
                self.toks()
            } else {
                empty_generics_from(self.toks(), 0, parts_view(formals@), parts_view(arg_names@))
            }),
    {
        let tokens = expand_empty_trait_generics(self.tokens.as_slice(), formals, arg_names);
        Stream { tokens, _state: PhantomData }
    }
}

/// No pass enters a macro body (`m!(..)`, `m![..]`, `m!{..}`) or an
/// attribute (`#[..]`): whatever they hold (comparisons, `#name`, `@`
/// constants, `where`, `;`), pairing, constant expansion and the
/// bare-`where` rewrite give them back unchanged, and the directive split
/// finds nothing in them.
pub proof fn law_passthrough_untouched(m: Seq<char>, sp: Spacing, d: Delim, c: Seq<TokV>, ctx: ConstCtx)
    requires
        m != "where"@,
        d != Delim::Invisible,
    ensures
        collect_spec(seq![TokV::Ident(m), TokV::Punct('!', sp), TokV::Group(d, c)], 0) == Ok::<
            Seq<TokV>,
            Seq<char>,
        >(seq![TokV::Ident(m), TokV::Punct('!', sp), TokV::Group(d, c)]),
        consts_spec(seq![TokV::Ident(m), TokV::Punct('!', sp), TokV::Group(d, c)], ctx, 0) == Ok::<
            Seq<TokV>,
            Seq<char>,
        >(seq![TokV::Ident(m), TokV::Punct('!', sp), TokV::Group(d, c)]),
        kw_spec(Keyword::Where, seq![TokV::Ident(m), TokV::Punct('!', sp), TokV::Group(d, c)])
            == Ok::<Seq<TokV>, Seq<char>>(
            seq![TokV::Ident(m), TokV::Punct('!', sp), TokV::Group(d, c)],
        ),
        collect_spec(seq![TokV::Punct('#', sp), TokV::Group(Delim::Bracket, c)], 0) == Ok::<
            Seq<TokV>,
            Seq<char>,
        >(seq![TokV::Punct('#', sp), TokV::Group(Delim::Bracket, c)]),
        consts_spec(seq![TokV::Punct('#', sp), TokV::Group(Delim::Bracket, c)], ctx, 0) == Ok::<
            Seq<TokV>,
            Seq<char>,
        >(seq![TokV::Punct('#', sp), TokV::Group(Delim::Bracket, c)]),
        kw_spec(Keyword::Where, seq![TokV::Punct('#', sp), TokV::Group(Delim::Bracket, c)]) == Ok::<
            Seq<TokV>,
            Seq<char>,
        >(seq![TokV::Punct('#', sp), TokV::Group(Delim::Bracket, c)]),
        pieces_spec(seq![TokV::Ident(m), TokV::Punct('!', sp), TokV::Group(d, c)]) == seq![
            PieceV::Tok(TokV::Ident(m)),
            PieceV::Tok(TokV::Punct('!', sp)),
            PieceV::Tok(TokV::Group(d, c)),
        ],
        pieces_spec(seq![TokV::Punct('#', sp), TokV::Group(Delim::Bracket, c)]) == seq![
            PieceV::Tok(TokV::Punct('#', sp)),
            PieceV::Tok(TokV::Group(Delim::Bracket, c)),
        ],
{
    let mac = seq![TokV::Ident(m), TokV::Punct('!', sp), TokV::Group(d, c)];
    let attr = seq![TokV::Punct('#', sp), TokV::Group(Delim::Bracket, c)];
    let e = Seq::<TokV>::empty();
    assert(passthrough_at(mac, 2));
    assert(passthrough_at(attr, 1));
    assert(collect_from(mac, 3, 0) == Ok::<Seq<TokV>, Seq<char>>(e));
    assert(collect_from(mac, 2, 0) == Ok::<Seq<TokV>, Seq<char>>(seq![mac[2]] + e));
    assert(collect_from(mac, 1, 0) == Ok::<Seq<TokV>, Seq<char>>(seq![mac[1]] + (seq![mac[2]] + e)));
    assert(collect_from(mac, 0, 0) == Ok::<Seq<TokV>, Seq<char>>(
        seq![mac[0]] + (seq![mac[1]] + (seq![mac[2]] + e)),
    ));
    assert(seq![mac[0]] + (seq![mac[1]] + (seq![mac[2]] + e)) =~= mac);
    assert(collect_from(attr, 2, 0) == Ok::<Seq<TokV>, Seq<char>>(e));
    assert(collect_from(attr, 1, 0) == Ok::<Seq<TokV>, Seq<char>>(seq![attr[1]] + e));
    assert(collect_from(attr, 0, 0) == Ok::<Seq<TokV>, Seq<char>>(seq![attr[0]] + (seq![attr[1]] + e)));
    assert(seq![attr[0]] + (seq![attr[1]] + e) =~= attr);
    assert(consts_from(mac, 3, ctx, 0) == Ok::<Seq<TokV>, Seq<char>>(e));
    assert(consts_from(mac, 2, ctx, 0) == Ok::<Seq<TokV>, Seq<char>>(seq![mac[2]] + e));
    assert(consts_from(mac, 1, ctx, 0) == Ok::<Seq<TokV>, Seq<char>>(seq![mac[1]] + (seq![mac[2]] + e)));
    assert(!impl_template_at(mac, 0));
    assert(consts_from(mac, 0, ctx, 0) == Ok::<Seq<TokV>, Seq<char>>(
        seq![mac[0]] + (seq![mac[1]] + (seq![mac[2]] + e)),
    ));
    assert(consts_from(attr, 2, ctx, 0) == Ok::<Seq<TokV>, Seq<char>>(e));
    assert(consts_from(attr, 1, ctx, 0) == Ok::<Seq<TokV>, Seq<char>>(seq![attr[1]] + e));
    assert(consts_from(attr, 0, ctx, 0) == Ok::<Seq<TokV>, Seq<char>>(seq![attr[0]] + (seq![attr[1]] + e)));
    assert(kw_from(Keyword::Where, mac, 3) == Ok::<Seq<TokV>, Seq<char>>(e));
    assert(kw_from(Keyword::Where, mac, 2) == Ok::<Seq<TokV>, Seq<char>>(seq![mac[2]] + e));
    assert(kw_from(Keyword::Where, mac, 1) == Ok::<Seq<TokV>, Seq<char>>(seq![mac[1]] + (seq![mac[2]] + e)));
    assert(kw_from(Keyword::Where, mac, 0) == Ok::<Seq<TokV>, Seq<char>>(
        seq![mac[0]] + (seq![mac[1]] + (seq![mac[2]] + e)),
    ));
    assert(kw_from(Keyword::Where, attr, 2) == Ok::<Seq<TokV>, Seq<char>>(e));
    assert(kw_from(Keyword::Where, attr, 1) == Ok::<Seq<TokV>, Seq<char>>(seq![attr[1]] + e));
    assert(kw_from(Keyword::Where, attr, 0) == Ok::<Seq<TokV>, Seq<char>>(
        seq![attr[0]] + (seq![attr[1]] + e),
    ));
    let pe = Seq::<PieceV>::empty();
    assert(pieces_from(mac, 3) == pe);
    assert(pieces_from(mac, 2) == seq![PieceV::Tok(mac[2])] + pe);
    assert(pieces_from(mac, 1) == seq![PieceV::Tok(mac[1])] + (seq![PieceV::Tok(mac[2])] + pe));
    assert(pieces_from(mac, 0) == seq![PieceV::Tok(mac[0])] + (seq![PieceV::Tok(mac[1])] + (seq![
        PieceV::Tok(mac[2]),
    ] + pe)));
    assert(pieces_from(attr, 2) == pe);
    assert(pieces_from(attr, 1) == seq![PieceV::Tok(attr[1])] + pe);
    assert(pieces_from(attr, 0) == seq![PieceV::Tok(attr[0])] + (seq![PieceV::Tok(attr[1])] + pe));
}

} // verus!
