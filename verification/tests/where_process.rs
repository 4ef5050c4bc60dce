use batch_impl::token::{Delim, Spacing, Tok};
use batch_impl::where_process::{impl_process, region_is_impl_trait, where_process};

fn to_toks(ts: proc_macro2::TokenStream) -> Vec<Tok> {
    ts.into_iter()
        .map(|tt| match tt {
            proc_macro2::TokenTree::Ident(id) => Tok::Ident(id.to_string()),
            proc_macro2::TokenTree::Punct(p) => Tok::Punct(
                p.as_char(),
                match p.spacing() {
                    proc_macro2::Spacing::Alone => Spacing::Alone,
                    proc_macro2::Spacing::Joint => Spacing::Joint,
                },
            ),
            proc_macro2::TokenTree::Literal(l) => Tok::Literal(l.to_string()),
            proc_macro2::TokenTree::Group(g) => Tok::Group(
                match g.delimiter() {
                    proc_macro2::Delimiter::Parenthesis => Delim::Paren,
                    proc_macro2::Delimiter::Bracket => Delim::Bracket,
                    proc_macro2::Delimiter::Brace => Delim::Brace,
                    proc_macro2::Delimiter::None => Delim::Invisible,
                },
                to_toks(g.stream()),
            ),
        })
        .collect()
}

fn to_stream(toks: &[Tok]) -> proc_macro2::TokenStream {
    toks.iter()
        .map(|t| -> proc_macro2::TokenTree {
            match t {
                Tok::Ident(s) => proc_macro2::Ident::new(s, proc_macro2::Span::call_site()).into(),
                Tok::Punct(c, sp) => proc_macro2::Punct::new(
                    *c,
                    match sp {
                        Spacing::Alone => proc_macro2::Spacing::Alone,
                        Spacing::Joint => proc_macro2::Spacing::Joint,
                    },
                )
                .into(),
                Tok::Literal(s) => s.parse::<proc_macro2::TokenStream>().unwrap().into_iter().next().unwrap(),
                Tok::Group(d, inner) => proc_macro2::Group::new(
                    match d {
                        Delim::Paren => proc_macro2::Delimiter::Parenthesis,
                        Delim::Bracket => proc_macro2::Delimiter::Bracket,
                        Delim::Brace => proc_macro2::Delimiter::Brace,
                        Delim::Invisible => proc_macro2::Delimiter::None,
                    },
                    to_stream(inner),
                )
                .into(),
            }
        })
        .collect()
}

fn toks(s: &str) -> Vec<Tok> {
    to_toks(s.parse::<proc_macro2::TokenStream>().unwrap())
}

fn render(v: &[Tok]) -> String {
    to_stream(v).to_string()
}

fn run_impl(s: &str) -> String {
    render(&impl_process(&toks(s)).unwrap())
}

fn run_impl_err(s: &str) -> String {
    impl_process(&toks(s)).unwrap_err().message
}

fn run_where(s: &str) -> String {
    render(&where_process(&toks(s)).unwrap())
}

#[test]
fn bare_impl_collects_template() {
    assert_eq!(run_impl("impl (A@..) { fn m() {} }"), "impl { (A @..) } { fn m () { } }");
}

#[test]
fn bare_impl_collects_angle_template() {
    assert_eq!(run_impl("impl A<B> { fn m() {} }"), "impl { A < B > } { fn m () { } }");
}

#[test]
fn adjacent_bare_impls_split() {
    assert_eq!(
        run_impl("impl A<B> impl @{} { fn m() {} }"),
        "impl { A < B > } impl { @ { } } { fn m () { } }"
    );
}

#[test]
fn braced_impl_passthrough() {
    assert_eq!(run_impl("impl{(A@..)} { fn m() {} }"), "impl { (A @..) } { fn m () { } }");
}

#[test]
fn bare_impl_trait_target_diagnosed() {
    for s in [
        "impl Fn() -> u8 { fn m() {} }",
        "impl dyn Fn() -> u8 { fn m() {} }",
        "impl for<'a> fn(&'a u8) { fn m() {} }",
        "impl Iterator + Clone { fn m() {} }",
    ] {
        let err = run_impl_err(s);
        assert!(err.contains("not supported"), "expected the target diagnostic, got: {err}");
    }
}

#[test]
fn bare_impl_template_shapes_still_collect() {
    assert_eq!(run_impl("impl Box<u8> { fn m() {} }"), "impl { Box < u8 > } { fn m () { } }");
}

#[test]
fn bare_where_comma_splits_specs() {
    assert_eq!(run_where("usize where T : Clone , isize"), "usize where { T : Clone } , isize");
}

#[test]
fn bare_where_comma_keeps_predicates() {
    assert_eq!(
        run_where("usize where A : Clone , B : Copy { fn m() {} }"),
        "usize where { A : Clone , B : Copy } { fn m () { } }"
    );
}

#[test]
fn bare_keyword_without_region_errors() {
    assert_eq!(
        where_process(&toks("usize where")).unwrap_err().message,
        "batch-impl: `where` predicates are missing a code block {...}"
    );
    assert_eq!(
        impl_process(&toks("impl")).unwrap_err().message,
        "batch-impl: `impl` is missing a template or code block {...}"
    );
}

#[test]
fn where_region_stops_at_semicolon_and_impl_template() {
    assert_eq!(run_where("u8 where T: Clone; u16"), "u8 where { T : Clone } ; u16");
    assert_eq!(run_where("u8 where T: Clone impl{X} {}"), "u8 where { T : Clone } impl { X } { }");
    // bracket lists are entered, macro bodies are not
    assert_eq!(run_where("[u8 where T: Clone]"), "[u8 where { T : Clone }]");
    assert_eq!(run_where("m![u8 where T: Clone]"), "m ! [u8 where T : Clone]");
}

#[test]
fn macro_body_is_not_a_block_boundary() {
    assert_eq!(run_where("u8 where m!{x} T: Clone {}"), "u8 where { m ! { x } T : Clone } { }");
}

#[test]
fn region_trait_shapes() {
    assert!(region_is_impl_trait(&toks("FnMut(u8)")));
    assert!(region_is_impl_trait(&toks("A + B")));
    assert!(!region_is_impl_trait(&toks("Box<u8>")));
    let _ = (Delim::Paren, Spacing::Alone);
}

#[test]
fn keyword_law_every_where_has_a_block() {
    let out = where_process(&toks("u8 where T: Clone, u16 where U: Copy")).unwrap();
    for (k, t) in out.iter().enumerate() {
        if let Tok::Ident(s) = t {
            if s == "where" {
                assert!(matches!(out.get(k + 1), Some(Tok::Group(Delim::Brace, _))));
            }
        }
    }
}
