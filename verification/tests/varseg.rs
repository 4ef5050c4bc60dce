use batch_impl::token::{Delim, Spacing, Tok};
use batch_impl::varseg::{contains_unmarked_segment, is_varseg_type, mark_template, mark_varseg, varseg_prefix};

fn to_toks(ts: proc_macro2::TokenStream) -> Vec<Tok> {
    ts.into_iter()
        .map(|tt| match tt {
            proc_macro2::TokenTree::Ident(id) => Tok::Ident(id.to_string()),
            proc_macro2::TokenTree::Punct(p) => Tok::Punct(
                p.as_char(),
                match p.spacing() {
                    proc_macro2::Spacing::Alone => Spacing::Alone,
                    proc_macro2::Spacing::Joint => Spacing::Joint,
                },
            ),
            proc_macro2::TokenTree::Literal(l) => Tok::Literal(l.to_string()),
            proc_macro2::TokenTree::Group(g) => Tok::Group(
                match g.delimiter() {
                    proc_macro2::Delimiter::Parenthesis => Delim::Paren,
                    proc_macro2::Delimiter::Bracket => Delim::Bracket,
                    proc_macro2::Delimiter::Brace => Delim::Brace,
                    proc_macro2::Delimiter::None => Delim::Invisible,
                },
                to_toks(g.stream()),
            ),
        })
        .collect()
}

fn to_stream(toks: &[Tok]) -> proc_macro2::TokenStream {
    toks.iter()
        .map(|t| -> proc_macro2::TokenTree {
            match t {
                Tok::Ident(s) => proc_macro2::Ident::new(s, proc_macro2::Span::call_site()).into(),
                Tok::Punct(c, sp) => proc_macro2::Punct::new(
                    *c,
                    match sp {
                        Spacing::Alone => proc_macro2::Spacing::Alone,
                        Spacing::Joint => proc_macro2::Spacing::Joint,
                    },
                )
                .into(),
                Tok::Literal(s) => s.parse::<proc_macro2::TokenStream>().unwrap().into_iter().next().unwrap(),
                Tok::Group(d, inner) => proc_macro2::Group::new(
                    match d {
                        Delim::Paren => proc_macro2::Delimiter::Parenthesis,
                        Delim::Bracket => proc_macro2::Delimiter::Bracket,
                        Delim::Brace => proc_macro2::Delimiter::Brace,
                        Delim::Invisible => proc_macro2::Delimiter::None,
                    },
                    to_stream(inner),
                )
                .into(),
            }
        })
        .collect()
}

fn toks(s: &str) -> Vec<Tok> {
    to_toks(s.parse::<proc_macro2::TokenStream>().unwrap())
}

fn render(v: &[Tok]) -> String {
    to_stream(v).to_string()
}

fn mark(s: &str) -> String {
    render(&mark_varseg(&toks(s)).unwrap())
}

#[test]
fn top_level_segment_marked() {
    assert_eq!(mark("impl{(A@..,)}"), "impl { ([A ; ()] ,) }");
}

#[test]
fn trailing_segment_without_comma() {
    assert_eq!(mark("impl{(A@..)}"), "impl { ([A ; ()] ,) }");
}

#[test]
fn fixed_then_trailing_segment_without_comma() {
    assert_eq!(mark("impl{(u8, A@..)}"), "impl { (u8 , [A ; ()] ,) }");
}

#[test]
fn middle_segment_keeps_stream_comma() {
    assert_eq!(mark("impl{(A@.., B@..)}"), "impl { ([A ; ()] , [B ; ()] ,) }");
}

#[test]
fn fixed_before_segment() {
    assert_eq!(mark("impl{(u8, B@..,)}"), "impl { (u8 , [B ; ()] ,) }");
}

#[test]
fn nested_tuples() {
    assert_eq!(mark("impl{((A@..,),(B@..,))}"), "impl { (([A ; ()] ,) , ([B ; ()] ,)) }");
}

#[test]
fn angle_args_marked() {
    assert_eq!(mark("impl{Vec<(A@..,)>}"), "impl { Vec < ([A ; ()] ,) > }");
}

#[test]
fn repeated_prefix_both_marked() {
    assert_eq!(mark("impl{(A@.., A@..,)}"), "impl { ([A ; ()] , [A ; ()] ,) }");
}

#[test]
fn body_untouched() {
    assert_eq!(
        mark("T #combine{@(@A::f(&self.@0),)..}"),
        "T # combine { @ (@ A :: f (& self .@ 0) ,) .. }"
    );
}

#[test]
fn const_ranges_untouched() {
    assert_eq!(mark("impl{[@u8..u128]}"), "impl { [@ u8 .. u128] }");
}

#[test]
fn prefix_roundtrip_by_shape() {
    for (ph, expect) in [("[A ; ()]", "A"), ("[Foo_Bar ; ()]", "Foo_Bar"), ("[u8 ; ()]", "u8")] {
        let t = &toks(ph)[0];
        assert_eq!(varseg_prefix(t).as_deref(), Some(expect), "{ph}");
        assert!(is_varseg_type(t), "{ph}");
    }
    let plain = &toks("[A; 3]")[0];
    assert!(!is_varseg_type(plain));
    assert_eq!(varseg_prefix(plain), None);
}

#[test]
fn template_segment_at_top_level() {
    // the template of the shape form: a bare segment gets its comma
    let out = mark_template(&toks("A@.."), 0).unwrap();
    assert_eq!(render(&out), "[A ; ()] ,");
    assert!(!contains_unmarked_segment(&out));
    assert!(contains_unmarked_segment(&toks("x A@..")));
}

#[test]
fn template_depth_limit() {
    assert!(mark_template(&toks("A"), 129).unwrap_err().message.contains("nesting depth exceeds"));
    let mut t = Tok::Ident("A".to_string());
    for _ in 0..130 {
        t = Tok::Group(Delim::Paren, vec![t]);
    }
    assert!(mark_varseg(&[t]).is_err());
}

#[test]
fn marking_leaves_non_templates_alone() {
    assert_eq!(mark("(A@..,)"), "(A @..,)");
    assert_eq!(mark("m![impl{(A@..,)}]"), "m ! [impl { (A @..,) }]");
    let _ = Spacing::Alone;
}

#[test]
fn template_segments_marked_inside_groups() {
    let out = mark_template(&toks("(A@.., [B@..]) C@.."), 0).unwrap();
    assert_eq!(render(&out), "([A ; ()] , [[B ; ()] ,]) [C ; ()] ,");
    fn deep(v: &[Tok]) -> bool {
        !contains_unmarked_segment(v)
            && v.iter().all(|t| match t {
                Tok::Group(_, inner) => deep(inner),
                _ => true,
            })
    }
    assert!(deep(&out));
}
