//! The decisions of the macro entry points that do not need the trait's
//! syntax tree: which entry an input takes, the fixed diagnostics of the
//! documentation-only entry points, and where golden snapshots live.
pub mod batch_trait;
pub mod impl_spec;
pub mod path_prefix;
pub mod preprocess_test;

use crate::diag::{diag, Diag};
use crate::text::{cat3, starts_with};
use crate::token::{group_tok_view, is_ident_v, tvs, Tok, TokV};
use vstd::prelude::*;

verus! {

broadcast use group_tok_view;

/// Whether the input is an impl block, scanning from `i`: attributes
/// (`#` and the group after it), visibility (`pub`, with its `(crate)`-like
/// group) and the `unsafe` / `auto` / `default` modifiers are skipped; the
/// first other token decides (an identifier `impl` or not).
pub open spec fn impl_from(s: Seq<TokV>, i: int) -> bool
    decreases s.len() + 2 - i,
{
    if i < 0 || i >= s.len() {
        false
    } else {
        match s[i] {
            TokV::Punct('#', _) => impl_from(s, i + 2),
            TokV::Ident(w) => if w == "pub"@ {
                if i + 1 < s.len() && s[i + 1] is Group {
                    impl_from(s, i + 2)
                } else {
                    impl_from(s, i + 1)
                }
            } else if w == "unsafe"@ || w == "auto"@ || w == "default"@ {
                impl_from(s, i + 1)
            } else {
                w == "impl"@
            },
            _ => false,
        }
    }
}

/// Whether the macro input is an impl block (rather than a trait).
pub fn starts_with_impl(item: &[Tok]) -> (b: bool)
    ensures
        b == impl_from(tvs(item@), 0),
{
    let ghost s = tvs(item@);
    let mut i: usize = 0;
    while i < item.len()
        invariant
            s == tvs(item@),
            impl_from(s, 0) == impl_from(s, i as int),
        decreases item@.len() - i,
    {
        match &item[i] {
            Tok::Punct('#', _) => {
                if item.len() - i < 2 {
                    assert(!impl_from(s, i + 2));
                    return false;
                }
                i = i + 2;
            },
            Tok::Ident(w) => {
                let is_pub = crate::token::text_is(w, "pub");
                if is_pub {
                    if i + 1 < item.len() && match &item[i + 1] {
                        Tok::Group(_, _) => true,
                        _ => false,
                    } {
                        i = i + 2;
                    } else {
                        i = i + 1;
                    }
                } else if crate::token::text_is(w, "unsafe") || crate::token::text_is(w, "auto")
                    || crate::token::text_is(w, "default") {
                    i = i + 1;
                } else {
                    return crate::token::text_is(w, "impl");
                }
            },
            _ => {
                return false;
            },
        }
    }
    false
}

pub open spec fn misuse_msg() -> Seq<char> {
    "batch-impl: expected a trait definition (`trait ...`) or an impl block (`impl Trait for Type { ... }`)"@
}

/// The diagnostic for an input that is neither a trait nor an impl block.
pub fn entry_misuse_error() -> (d: Diag)
    ensures
        d@ == misuse_msg(),
{
    diag(
        "batch-impl: expected a trait definition (`trait ...`) or an impl block (`impl Trait for Type { ... }`)",
    )
}

/// `batch_impl_delegate!` documents `#delegate` and expands to this error.
pub fn batch_impl_delegate() -> (d: Diag)
    ensures
        d@
            == "batch-impl: `batch_impl_delegate!` is a documentation-only entry point for the `#delegate` directive — use `#delegate(methods){target}` inside `#[batch_impl(...)]` instead"@,
{
    diag(
        "batch-impl: `batch_impl_delegate!` is a documentation-only entry point for the `#delegate` directive — use `#delegate(methods){target}` inside `#[batch_impl(...)]` instead",
    )
}

/// `batch_impl_fill!` documents `#fill` and expands to this error.
pub fn batch_impl_fill() -> (d: Diag)
    ensures
        d@
            == "batch-impl: `batch_impl_fill!` is a documentation-only entry point for the `#fill` directive — use `#fill(methods){body}` inside `#[batch_impl(...)]` instead"@,
{
    diag(
        "batch-impl: `batch_impl_fill!` is a documentation-only entry point for the `#fill` directive — use `#fill(methods){body}` inside `#[batch_impl(...)]` instead",
    )
}

/// `batch_impl_blanket!` documents `#blanket` and expands to this error.
pub fn batch_impl_blanket() -> (d: Diag)
    ensures
        d@
            == "batch-impl: `batch_impl_blanket!` is a documentation-only entry point for the `#blanket` directive — use `#blanket(methods){wrapper matrix}` inside `#[batch_impl(...)]` instead"@,
{
    diag(
        "batch-impl: `batch_impl_blanket!` is a documentation-only entry point for the `#blanket` directive — use `#blanket(methods){wrapper matrix}` inside `#[batch_impl(...)]` instead",
    )
}

/// `batch_impl_name!` documents `#name{body}` and expands to this error.
pub fn batch_impl_name() -> (d: Diag)
    ensures
        d@
            == "batch-impl: `batch_impl_name!` is a documentation-only entry point for the `#name` directive — use `#name{body}` inside `#[batch_impl(...)]` instead"@,
{
    diag(
        "batch-impl: `batch_impl_name!` is a documentation-only entry point for the `#name` directive — use `#name{body}` inside `#[batch_impl(...)]` instead",
    )
}

/// `batch_impl_open!` documents the open-extension protocol and expands to
/// this error.
pub fn batch_impl_open() -> (d: Diag)
    ensures
        d@
            == "batch-impl: `batch_impl_open!` is a documentation-only entry point for the open-extension protocol — write your own `#name(args){body}` macro instead (see `batch_preprocess_test!` for a reference implementation)"@,
{
    diag(
        "batch-impl: `batch_impl_open!` is a documentation-only entry point for the open-extension protocol — write your own `#name(args){body}` macro instead (see `batch_preprocess_test!` for a reference implementation)",
    )
}

/// `batch_impl_consts!` documents the `@` constants and expands to this
/// error.
pub fn batch_impl_consts() -> (d: Diag)
    ensures
        d@
            == "batch-impl: `batch_impl_consts!` is a documentation-only entry point for the `@` constant system — write `@name=value;` sections directly (only `batch_trait!` supports custom constants)"@,
{
    diag(
        "batch-impl: `batch_impl_consts!` is a documentation-only entry point for the `@` constant system — write `@name=value;` sections directly (only `batch_trait!` supports custom constants)",
    )
}

/// The inner type of a `where` attachment, unboxed.
pub fn wi_where_inner<T>(inner: Option<Box<T>>) -> (r: Option<T>)
    ensures
        r == match inner {
            Some(b) => Some(*b),
            None => None,
        },
{
    match inner {
        Some(b) => Some(*b),
        None => None,
    }
}

/// The golden snapshot file of `name` under the package directory `dir`:
/// `dir/tests/golden/name.golden` (an absolute `name` stands alone, as a
/// path join makes it).
pub fn golden_path(dir: &str, name: &str) -> (p: String)
    ensures
        p@ == (if name@.len() > 0 && name@[0] == '/' {
            name@ + ".golden"@
        } else {
            dir@ + "/tests/golden/"@ + name@ + ".golden"@
        }),
{
    proof {
        reveal_strlit("/");
    }
    let abs = starts_with(name, "/");
    assert(abs == (name@.len() > 0 && name@[0] == '/')) by {
        if name@.len() > 0 {
            assert(name@.subrange(0, 1)[0] == name@[0]);
            if name@[0] == '/' {
                assert(name@.subrange(0, 1) =~= "/"@);
            }
        }
    }
    if abs {
        let mut p = String::from_str(name);
        p.append(".golden");
        p
    } else {
        let mut p = cat3(dir, "/tests/golden/", name);
        p.append(".golden");
        p
    }
}

} // verus!
