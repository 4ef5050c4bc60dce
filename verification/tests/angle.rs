use batch_impl::angle::{angle_collect, render_angles};
use batch_impl::token::{Delim, Spacing, Tok, MAX_NEST_DEPTH};

fn to_toks(ts: proc_macro2::TokenStream) -> Vec<Tok> {
    ts.into_iter()
        .map(|tt| match tt {
            proc_macro2::TokenTree::Ident(id) => Tok::Ident(id.to_string()),
            proc_macro2::TokenTree::Punct(p) => Tok::Punct(
                p.as_char(),
                match p.spacing() {
                    proc_macro2::Spacing::Alone => Spacing::Alone,
                    proc_macro2::Spacing::Joint => Spacing::Joint,
                },
            ),
            proc_macro2::TokenTree::Literal(l) => Tok::Literal(l.to_string()),
            proc_macro2::TokenTree::Group(g) => Tok::Group(
                match g.delimiter() {
                    proc_macro2::Delimiter::Parenthesis => Delim::Paren,
                    proc_macro2::Delimiter::Bracket => Delim::Bracket,
                    proc_macro2::Delimiter::Brace => Delim::Brace,
                    proc_macro2::Delimiter::None => Delim::Invisible,
                },
                to_toks(g.stream()),
            ),
        })
        .collect()
}

fn to_stream(toks: &[Tok]) -> proc_macro2::TokenStream {
    toks.iter()
        .map(|t| -> proc_macro2::TokenTree {
            match t {
                Tok::Ident(s) => proc_macro2::Ident::new(s, proc_macro2::Span::call_site()).into(),
                Tok::Punct(c, sp) => proc_macro2::Punct::new(
                    *c,
                    match sp {
                        Spacing::Alone => proc_macro2::Spacing::Alone,
                        Spacing::Joint => proc_macro2::Spacing::Joint,
                    },
                )
                .into(),
                Tok::Literal(s) => s.parse::<proc_macro2::TokenStream>().unwrap().into_iter().next().unwrap(),
                Tok::Group(d, inner) => proc_macro2::Group::new(
                    match d {
                        Delim::Paren => proc_macro2::Delimiter::Parenthesis,
                        Delim::Bracket => proc_macro2::Delimiter::Bracket,
                        Delim::Brace => proc_macro2::Delimiter::Brace,
                        Delim::Invisible => proc_macro2::Delimiter::None,
                    },
                    to_stream(inner),
                )
                .into(),
            }
        })
        .collect()
}

fn toks(s: &str) -> Vec<Tok> {
    to_toks(s.parse::<proc_macro2::TokenStream>().unwrap())
}

fn render(v: &[Tok]) -> String {
    to_stream(v).to_string()
}

/// Collect then render: the `<...>` pairs come back flat.
fn roundtrip(s: &str) -> String {
    let collected = angle_collect(&toks(s)).unwrap();
    render(&render_angles(&collected))
}

#[test]
fn angle_nesting_limit() {
    let s = format!("{}0{}", "[".repeat(MAX_NEST_DEPTH + 1), "]".repeat(MAX_NEST_DEPTH + 1));
    let err = angle_collect(&toks(&s)).unwrap_err().message;
    assert!(err.contains("nesting depth exceeds"), "expected depth-limit diagnostic, got: {err}");
}

#[test]
fn angle_roundtrip() {
    assert_eq!(roundtrip("Vec<T>"), "Vec < T >");
    assert_eq!(roundtrip("A<B<C>>"), "A < B < C > >");
    assert_eq!(roundtrip("Box<dyn Fn() + Send>"), "Box < dyn Fn () + Send >");
    assert_eq!(roundtrip("<T: Clone> A<T>"), "< T : Clone > A < T >");
    assert_eq!(roundtrip("A<Item=T>"), "A < Item = T >");
    assert_eq!(roundtrip("fn(A) -> B"), "fn (A) -> B");
}

#[test]
fn angle_unmatched_errors() {
    assert!(angle_collect(&toks("A <")).is_err());
    assert!(angle_collect(&toks("A >")).is_err());
    assert!(angle_collect(&toks("m![a < b]")).is_ok());
}

#[test]
fn bracket_passthrough_guards() {
    for s in ["m![a < b]", "#[a < b]", "#[#zzz{1}]"] {
        assert!(angle_collect(&toks(s)).is_ok(), "input {s} should passthrough");
    }
}

#[test]
fn none_group_flattened() {
    let none = Tok::Group(Delim::Invisible, toks("Vec<T>"));
    let collected = angle_collect(&[none]).unwrap();
    assert_eq!(render(&render_angles(&collected)), "Vec < T >");
}

#[test]
fn render_rebuilds_nested_groups() {
    assert_eq!(roundtrip("[Vec<T>, (U, W<X>)]"), "[Vec < T > , (U , W < X >)]");
    assert_eq!(roundtrip("{ a < b }"), "{ a < b }");
}

#[test]
fn collected_angle_is_one_transparent_group() {
    let collected = angle_collect(&toks("Vec<T, U>")).unwrap();
    assert_eq!(collected.len(), 2);
    match &collected[1] {
        Tok::Group(Delim::Invisible, inner) => assert_eq!(render(inner), "T , U"),
        other => panic!("expected an angle group, got {other:?}"),
    }
}

#[test]
fn angle_error_messages() {
    assert_eq!(
        angle_collect(&toks("A <")).unwrap_err().message,
        "batch-impl: unclosed `<` (missing matching `>`)"
    );
    assert_eq!(
        angle_collect(&toks("A >")).unwrap_err().message,
        "batch-impl: extra `>` (missing matching `<`)"
    );
    // the `>` of an arrow is not an orphan
    assert!(angle_collect(&toks("-> B")).is_ok());
}

#[test]
fn roundtrip_law_respaces_angles() {
    // `<=`-style joint spacing on a paired `<` becomes `Alone` after rendering
    let input = vec![
        Tok::Ident("A".to_string()),
        Tok::Punct('<', Spacing::Joint),
        Tok::Ident("B".to_string()),
        Tok::Punct('>', Spacing::Joint),
    ];
    let out = render_angles(&angle_collect(&input).unwrap());
    assert!(matches!(out[1], Tok::Punct('<', Spacing::Alone)));
    assert!(matches!(out[3], Tok::Punct('>', Spacing::Alone)));
}

/// The tokens with the spacing of `<` and `>` set aside.
fn angles_alone(v: &[Tok]) -> Vec<Tok> {
    v.iter()
        .map(|t| match t {
            Tok::Punct(c, _) if *c == '<' || *c == '>' => Tok::Punct(*c, Spacing::Alone),
            Tok::Group(d, inner) => Tok::Group(*d, angles_alone(inner)),
            Tok::Punct(c, s) => Tok::Punct(*c, *s),
            Tok::Ident(s) => Tok::Ident(s.clone()),
            Tok::Literal(s) => Tok::Literal(s.clone()),
        })
        .collect()
}

#[test]
fn roundtrip_gives_the_tokens_back() {
    for src in ["HashMap<K, Vec<V>> -> Box<[T; 2]>", "Option<Result<u8, E>>", "Fn(A) -> B<C>"] {
        let input = toks(src);
        let out = render_angles(&angle_collect(&input).unwrap());
        assert_eq!(out.len(), input.len());
        assert_eq!(render(&angles_alone(&out)), render(&angles_alone(&input)));
    }
}
