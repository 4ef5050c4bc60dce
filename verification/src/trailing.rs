//! The trailing attachments of a spec: a `{body}` code block, a
//! `where{...}` predicate suffix, and an `impl{...}` Self-part shape
//! template, peeled off the end in any order (`macro!{...}` is not an
//! attachment).
use crate::token::{copy_toks, group_tok_view, ident_v, is_ident_text, punct_v, tvs, Delim, Tok, TokV};
use vstd::prelude::*;
use vstd::slice::slice_subrange;

verus! {

broadcast use group_tok_view;

/// The split of one trailing code block.
#[derive(Debug)]
pub struct TrailingBody {
    /// The tokens left are `tokens[..rest]`.
    pub rest: usize,
    /// The stripped block's content; `None`: no trailing code block.
    pub body: Option<Vec<Tok>>,
    /// The block is a `where{...}` predicate suffix.
    pub is_where: bool,
    /// The block is an `impl{...}` shape template.
    pub is_impl: bool,
}

/// The mathematical view of a split: the length left, and the block's
/// content with its two flags.
pub open spec fn body_view(b: TrailingBody) -> (int, Option<(Seq<TokV>, bool, bool)>) {
    (
        b.rest as int,
        match b.body {
            Some(v) => Some((tvs(v@), b.is_where, b.is_impl)),
            None => None,
        },
    )
}

/// A last brace group is a block unless a `!` precedes it (a macro body);
/// after `where` it is a predicate suffix and after `impl` a shape
/// template, both taking the keyword with them.
pub open spec fn trailing_spec(s: Seq<TokV>) -> (int, Option<(Seq<TokV>, bool, bool)>) {
    let n = s.len() as int;
    if n == 0 {
        (n, None)
    } else {
        match s[n - 1] {
            TokV::Group(Delim::Brace, inner) => if n >= 2 && punct_v(s[n - 2], '!') {
                (n, None)
            } else if n >= 2 && ident_v(s[n - 2], "where"@) {
                (n - 2, Some((inner, true, false)))
            } else if n >= 2 && ident_v(s[n - 2], "impl"@) {
                (n - 2, Some((inner, false, true)))
            } else {
                (n - 1, Some((inner, false, false)))
            },
            _ => (n, None),
        }
    }
}

/// Splits off a trailing code block (see [`trailing_spec`]); a block is
/// only ever flagged as one kind.
pub fn split_trailing_body(tokens: &[Tok]) -> (r: TrailingBody)
    ensures
        body_view(r) == trailing_spec(tvs(tokens@)),
        !(r.is_where && r.is_impl),
        r.body is None ==> !r.is_where && !r.is_impl,
{
    let n = tokens.len();
    let none = TrailingBody { rest: n, body: None, is_where: false, is_impl: false };
    if n == 0 {
        return none;
    }
    match &tokens[n - 1] {
        Tok::Group(Delim::Brace, inner) => {
            let body = copy_toks(inner.as_slice());
            if n >= 2 {
                match &tokens[n - 2] {
                    Tok::Punct(c, _) if *c == '!' => {
                        return none;
                    },
                    _ => {},
                }
                if is_ident_text(&tokens[n - 2], "where") {
                    return TrailingBody { rest: n - 2, body: Some(body), is_where: true, is_impl: false };
                }
                if is_ident_text(&tokens[n - 2], "impl") {
                    return TrailingBody { rest: n - 2, body: Some(body), is_where: false, is_impl: true };
                }
            }
            TrailingBody { rest: n - 1, body: Some(body), is_where: false, is_impl: false }
        },
        _ => none,
    }
}

/// One attachment.
#[derive(Debug)]
pub enum Attachment {
    /// `{body}`: a code block.
    Code(Vec<Tok>),
    /// `where{...}`: predicates.
    Where(Vec<Tok>),
    /// `impl{...}`: a Self-part shape template.
    Impl(Vec<Tok>),
}

pub enum AttachmentV {
    Code(Seq<TokV>),
    Where(Seq<TokV>),
    Impl(Seq<TokV>),
}

pub open spec fn attachment_view(a: Attachment) -> AttachmentV {
    match a {
        Attachment::Code(v) => AttachmentV::Code(tvs(v@)),
        Attachment::Where(v) => AttachmentV::Where(tvs(v@)),
        Attachment::Impl(v) => AttachmentV::Impl(tvs(v@)),
    }
}

pub open spec fn attachments_view(v: Seq<Attachment>) -> Seq<AttachmentV> {
    Seq::new(v.len(), |i: int| attachment_view(v[i]))
}

pub open spec fn kind_of(inner: Seq<TokV>, is_where: bool, is_impl: bool) -> AttachmentV {
    if is_where {
        AttachmentV::Where(inner)
    } else if is_impl {
        AttachmentV::Impl(inner)
    } else {
        AttachmentV::Code(inner)
    }
}

/// Every trailing attachment of `s`, outside-in (the last one written
/// first), and the length of the base left.
pub open spec fn strip_spec(s: Seq<TokV>) -> (Seq<AttachmentV>, int)
    decreases s.len(),
{
    let (n, b) = trailing_spec(s);
    match b {
        None => (Seq::empty(), s.len() as int),
        Some((inner, w, i)) => if 0 <= n < s.len() {
            let (rest, k) = strip_spec(s.subrange(0, n));
            (seq![kind_of(inner, w, i)] + rest, k)
        } else {
            (Seq::empty(), s.len() as int)
        },
    }
}

proof fn lemma_trailing_shrinks(s: Seq<TokV>)
    ensures
        trailing_spec(s).1 is Some ==> 0 <= trailing_spec(s).0 < s.len(),
        trailing_spec(s).1 is None ==> trailing_spec(s).0 == s.len(),
{
}

/// Strips every trailing attachment off `tokens`: the attachments
/// outside-in, and the length of the base tokens left (`tokens[..k]`).
pub fn strip_attachments(tokens: &[Tok]) -> (r: (Vec<Attachment>, usize))
    ensures
        (attachments_view(r.0@), r.1 as int) == strip_spec(tvs(tokens@)),
{
    let ghost s = tvs(tokens@);
    let mut attaches: Vec<Attachment> = Vec::new();
    let mut rest: usize = tokens.len();
    assert(s.subrange(0, rest as int) =~= s);
    loop
        invariant
            rest <= tokens@.len(),
            s == tvs(tokens@),
            strip_spec(s) == (
                attachments_view(attaches@) + strip_spec(s.subrange(0, rest as int)).0,
                strip_spec(s.subrange(0, rest as int)).1,
            ),
        decreases rest,
    {
        let prefix = slice_subrange(tokens, 0, rest);
        let ghost p = tvs(prefix@);
        assert(p =~= s.subrange(0, rest as int));
        proof {
            lemma_trailing_shrinks(p);
        }
        let split = split_trailing_body(prefix);
        match split.body {
            None => {
                assert(strip_spec(p) == (Seq::<AttachmentV>::empty(), rest as int));
                assert(attachments_view(attaches@) + Seq::<AttachmentV>::empty() =~= attachments_view(
                    attaches@,
                ));
                return (attaches, rest);
            },
            Some(body) => {
                let ghost inner = tvs(body@);
                let a = if split.is_where {
                    Attachment::Where(body)
                } else if split.is_impl {
                    Attachment::Impl(body)
                } else {
                    Attachment::Code(body)
                };
                assert(attachment_view(a) == kind_of(inner, split.is_where, split.is_impl));
                let ghost before = attaches@;
                attaches.push(a);
                proof {
                    assert(p.subrange(0, split.rest as int) =~= s.subrange(0, split.rest as int));
                    assert(attachments_view(attaches@) =~= attachments_view(before) + seq![
                        attachment_view(a),
                    ]);
                    let tail = strip_spec(s.subrange(0, split.rest as int)).0;
                    assert(attachments_view(before) + (seq![attachment_view(a)] + tail)
                        =~= attachments_view(attaches@) + tail);
                }
                rest = split.rest;
            },
        }
    }
}

} // verus!
