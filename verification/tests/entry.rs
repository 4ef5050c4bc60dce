use batch_impl::angle::angle_collect;
use batch_impl::consts::ctx::{ConstCtx, UserConsts};
use batch_impl::consts::table::expand_consts;
use batch_impl::empty_generics::{args_all_bindings, expand_empty_trait_generics};
use batch_impl::entry::batch_trait::{batch_trait_preprocess, batch_trait_segments, replace_segment_trait};
use batch_impl::entry::impl_spec::{find_shape_colon, impl_entry_specs, peel_where, split_at_depth0, split_new_gen};
use batch_impl::entry::path_prefix::{attr_trait_path, try_parse_path_prefix};
use batch_impl::entry::preprocess_test::preprocess_test_parts;
use batch_impl::entry::{
    batch_impl_blanket, batch_impl_consts, batch_impl_delegate, batch_impl_fill, batch_impl_name, batch_impl_open,
    entry_misuse_error, golden_path, starts_with_impl, wi_where_inner,
};
use batch_impl::directives::expand::expand_tokens;
use batch_impl::fresh::FreshCounter;
use batch_impl::stream;
use batch_impl::trait_items::{ItemKind, ItemShape, Receiver, TraitDef, TraitItemInfo};
use batch_impl::token::{Delim, Spacing, Tok};
use batch_impl::where_process::where_process;

fn to_toks(ts: proc_macro2::TokenStream) -> Vec<Tok> {
    ts.into_iter()
        .map(|tt| match tt {
            proc_macro2::TokenTree::Ident(id) => Tok::Ident(id.to_string()),
            proc_macro2::TokenTree::Punct(p) => Tok::Punct(
                p.as_char(),
                match p.spacing() {
                    proc_macro2::Spacing::Alone => Spacing::Alone,
                    proc_macro2::Spacing::Joint => Spacing::Joint,
                },
            ),
            proc_macro2::TokenTree::Literal(l) => Tok::Literal(l.to_string()),
            proc_macro2::TokenTree::Group(g) => Tok::Group(
                match g.delimiter() {
                    proc_macro2::Delimiter::Parenthesis => Delim::Paren,
                    proc_macro2::Delimiter::Bracket => Delim::Bracket,
                    proc_macro2::Delimiter::Brace => Delim::Brace,
                    proc_macro2::Delimiter::None => Delim::Invisible,
                },
                to_toks(g.stream()),
            ),
        })
        .collect()
}

fn to_stream(toks: &[Tok]) -> proc_macro2::TokenStream {
    toks.iter()
        .map(|t| -> proc_macro2::TokenTree {
            match t {
                Tok::Ident(s) => proc_macro2::Ident::new(s, proc_macro2::Span::call_site()).into(),
                Tok::Punct(c, sp) => proc_macro2::Punct::new(
                    *c,
                    match sp {
                        Spacing::Alone => proc_macro2::Spacing::Alone,
                        Spacing::Joint => proc_macro2::Spacing::Joint,
                    },
                )
                .into(),
                Tok::Literal(s) => s.parse::<proc_macro2::TokenStream>().unwrap().into_iter().next().unwrap(),
                Tok::Group(d, inner) => proc_macro2::Group::new(
                    match d {
                        Delim::Paren => proc_macro2::Delimiter::Parenthesis,
                        Delim::Bracket => proc_macro2::Delimiter::Bracket,
                        Delim::Brace => proc_macro2::Delimiter::Brace,
                        Delim::Invisible => proc_macro2::Delimiter::None,
                    },
                    to_stream(inner),
                )
                .into(),
            }
        })
        .collect()
}

fn toks(s: &str) -> Vec<Tok> {
    to_toks(s.parse::<proc_macro2::TokenStream>().unwrap())
}

fn render(v: &[Tok]) -> String {
    to_stream(v).to_string()
}

#[test]
fn passthrough_guard_consistency() {
    let inputs = ["m![a < b]", "m!(a < b)", "m![#foo{1}]", "#[a < b]", "#[#zzz{1}]", "m![@u*]", "m![where a b]", "m![a; b]"];
    // `trait T { fn m(&self) -> u32; }`
    let trait_def = TraitDef {
        ident: "T".to_string(),
        items: vec![TraitItemInfo {
            kind: ItemKind::Fn,
            name: "m".to_string(),
            has_default: false,
            receiver: Some(Receiver::Reference),
            shape: ItemShape {
                head: toks("fn m"),
                receiver: Some(toks("&self")),
                params: vec![],
                output: toks("-> u32"),
                tail: vec![],
                inner_attrs: vec![],
                gat_args: vec![],
            },
        }],
        generics: vec![],
        where_preds: None,
        tokens: toks("trait T { fn m(&self) -> u32; }"),
    };
    let trait_full_path = toks("T");
    let table = UserConsts::new();
    let ctx = ConstCtx::Trait { user_table: &table };
    for s in inputs {
        let v = toks(s);
        assert!(angle_collect(&v).is_ok(), "angle_collect: {s}");
        assert!(expand_consts(&v, ctx).is_ok(), "expand_consts: {s}");
        assert!(
            expand_tokens(&v, &trait_def, &trait_full_path, &mut FreshCounter::new()).is_ok(),
            "expand_tokens: {s}"
        );
        assert!(where_process(&v).is_ok(), "where_process: {s}");
    }
    assert!(angle_collect(&toks("(a < b)")).is_err(), "plain paren groups are entered, not passed through");
}

#[test]
fn entry_dispatch_on_first_semantic_token() {
    assert!(starts_with_impl(&toks("impl Foo for u8 {}")));
    assert!(starts_with_impl(&toks("#[doc = \"x\"] pub(crate) unsafe impl Foo for u8 {}")));
    assert!(starts_with_impl(&toks("default impl Foo for u8 {}")));
    assert!(!starts_with_impl(&toks("pub trait Foo {}")));
    assert!(!starts_with_impl(&toks("unsafe auto trait Foo {}")));
    assert!(!starts_with_impl(&toks("")));
    assert!(!starts_with_impl(&toks("#")));
}

#[test]
fn documentation_entries_report_their_status() {
    assert!(entry_misuse_error().message.starts_with("batch-impl: expected a trait definition"));
    assert!(batch_impl_delegate().message.contains("`#delegate(methods){target}`"));
    assert!(batch_impl_fill().message.contains("`#fill(methods){body}`"));
    assert!(batch_impl_blanket().message.contains("`#blanket(methods){wrapper matrix}`"));
    assert!(batch_impl_name().message.contains("`#name{body}`"));
    assert!(batch_impl_open().message.contains("open-extension protocol"));
    assert!(batch_impl_consts().message.contains("only `batch_trait!` supports custom constants"));
}

#[test]
fn golden_paths() {
    assert_eq!(golden_path("/pkg", "simple"), "/pkg/tests/golden/simple.golden");
    assert_eq!(golden_path("/pkg", "/abs/x"), "/abs/x.golden");
}

#[test]
fn where_inner_unboxes() {
    assert_eq!(wi_where_inner(Some(Box::new(3u8))), Some(3u8));
    assert_eq!(wi_where_inner::<u8>(None), None);
}

#[test]
fn path_prefix_detection() {
    let (path, last, rest) = try_parse_path_prefix(&toks("#std::fmt::Display: u8, u16")).unwrap();
    assert_eq!(render(&path), "std :: fmt :: Display");
    assert_eq!(last.unwrap(), "Display");
    assert_eq!(render(&rest), "u8 , u16");
    assert!(try_parse_path_prefix(&toks("#Display: u8, u16")).is_none());
    assert!(try_parse_path_prefix(&toks("u8, u16, u32")).is_none());
    assert!(try_parse_path_prefix(&toks("#a::b c: u8")).is_none());
}

#[test]
fn attribute_trait_path() {
    let name = "Display".to_string();
    let (p, rest) = attr_trait_path(&toks("#std::fmt::Display: u8"), &name, false).unwrap();
    assert_eq!(render(&p), "std :: fmt :: Display");
    assert_eq!(render(&rest), "u8");
    let (p, rest) = attr_trait_path(&toks("#std::fmt::Display: u8"), &name, true).unwrap();
    assert_eq!(render(&p), "Display");
    assert_eq!(render(&rest), "# std :: fmt :: Display : u8");
    let e = attr_trait_path(&toks("#std::fmt::Debug: u8"), &name, false).unwrap_err();
    assert_eq!(
        e.message,
        "batch-impl: path prefix `#...Debug` has a trailing ident that differs from the trait name `Display`; the two must be identical"
    );
}

#[test]
fn batch_trait_segments_split_at_semicolons() {
    let pre = batch_trait_preprocess(&toks("@x = u8; A: @x; unsafe b::B: Vec<@trait>;")).unwrap();
    let segs = batch_trait_segments(&pre).unwrap().unwrap();
    assert_eq!(segs.len(), 2);
    assert!(!segs[0].is_unsafe);
    assert_eq!(render(&segs[0].trait_full_path), "A");
    assert_eq!(segs[0].trait_last_ident, "A");
    assert_eq!(render(&segs[0].spec), "u8");
    assert!(segs[1].is_unsafe);
    assert_eq!(render(&segs[1].trait_full_path), "b :: B");
    assert_eq!(segs[1].trait_last_ident, "B");
    assert_eq!(render(&segs[1].spec), "Vec b :: B");
}

#[test]
fn batch_trait_segment_errors() {
    let seg = |s: &str| batch_trait_segments(&toks(s)).unwrap().unwrap_err().message;
    assert_eq!(seg("A"), "batch_trait! expects ':' to separate the trait name and impl-specs");
    assert_eq!(seg(": u8"), "batch_trait! expects a trait name");
    assert_eq!(seg(":: : u8"), "batch_trait! expects an ident as the trait name");
    assert!(batch_trait_segments(&toks("A:::")).is_none());
    assert!(batch_trait_segments(&toks(";;")).unwrap().unwrap().is_empty());
}

#[test]
fn segment_trait_replacement_reaches_groups() {
    let out = replace_segment_trait(&toks("(@trait, [where{T: @trait}])"), &toks("a::T")).unwrap();
    assert_eq!(render(&out), "(a :: T , [where { T : a :: T }])");
}

#[test]
fn preprocess_test_input_parts() {
    let p = preprocess_test_parts(&toks("{u8}(a, b){ 0 } trait T { fn a(); fn b(); }")).unwrap();
    assert_eq!(render(p.spec.as_ref().unwrap()), "u8");
    assert_eq!(render(&p.names), "a , b");
    assert_eq!(render(&p.body), "0");
    assert_eq!(render(&p.trait_tokens), "trait T { fn a () ; fn b () ; }");
    let p = preprocess_test_parts(&toks("(a){ 0 } trait T {}")).unwrap();
    assert!(p.spec.is_none());
    let e = preprocess_test_parts(&toks("{a}{0} trait T {}")).unwrap_err();
    assert_eq!(e.message, "batch-impl: batch_preprocess_test expects `(method name list){body} trait ...`");
}

#[test]
fn empty_generics_copy_trait_parameters() {
    let formals = vec![toks("'a"), toks("T: Clone")];
    let names = vec![toks("'a"), toks("T")];
    let input = angle_collect(&toks("A<>, B<Item = u8>, C<u8>")).unwrap();
    let out = expand_empty_trait_generics(&input, &formals, &names);
    assert_eq!(render(&out), "'a , T : Clone A 'a , T , 'a , T : Clone B 'a , T , Item = u8 , C u8");
    let untouched = expand_empty_trait_generics(&input, &[], &[]);
    assert_eq!(render(&untouched), render(&input));
}

#[test]
fn binding_only_arguments() {
    assert!(args_all_bindings(&toks("Item = T, K = U")));
    assert!(!args_all_bindings(&toks("T, Item = U")));
    assert!(!args_all_bindings(&toks("Item = T,")));
}

#[test]
fn depth0_splitting() {
    let parts = split_at_depth0(&toks("a; (b; c); d"), ';');
    assert_eq!(parts.iter().map(|p| render(p)).collect::<Vec<_>>(), ["a", "(b ; c)", "d"]);
    assert_eq!(split_at_depth0(&toks(""), ';').len(), 1);
    assert_eq!(split_at_depth0(&toks("a -> b - c"), '-').len(), 2);
}

#[test]
fn template_where_attachments_peel() {
    let (spec, preds) = peel_where(&toks("W<T> where{T: A} where{T: B} : [u8] where{C}"));
    assert_eq!(render(&spec), "W < T > : [u8] where { C }");
    assert_eq!(render(&preds), "T : A , T : B");
    assert_eq!(find_shape_colon(&spec), Some(4));
    assert_eq!(find_shape_colon(&toks("a::b")), None);
    let (ng, rest) = split_new_gen(&angle_collect(&toks("<T> u8")).unwrap());
    assert_eq!(render(&ng.unwrap()), "T");
    assert_eq!(render(&rest), "u8");
    let (ng, _) = split_new_gen(&toks("u8"));
    assert!(ng.is_none());
}

#[test]
fn impl_entry_specs_split_and_peel() {
    let path = toks("Tr");
    let specs = impl_entry_specs(toks("W<T> where{T: Copy} : [u8, u16]; ; u32"), Some(&path)).unwrap();
    assert_eq!(specs.len(), 2);
    assert_eq!(render(&specs[0].where_preds), "T : Copy");
    assert!(specs[0].shape_colon.is_some());
    assert_eq!(render(&specs[1].spec), "u32");
    assert!(specs[1].shape_colon.is_none());
    let e = impl_entry_specs(toks("u8 #fill(a){1}"), Some(&path)).unwrap_err();
    assert!(e.message.contains("not supported on the ItemImpl entry"));
    let e = impl_entry_specs(toks("@trait"), None).unwrap_err();
    assert!(e.message.contains("inherent impl"));
}

#[test]
fn typestate_pipeline_order() {
    let table = UserConsts::new();
    let ctx = ConstCtx::Trait { user_table: &table };
    let ready = stream::new(toks("Vec<@u8..u16> where T: Clone, u32"))
        .preprocess(ctx)
        .unwrap()
        .where_process()
        .unwrap()
        .expand_empty_trait_generics(&[], &[]);
    assert_eq!(render(&ready.into_tokens()), "Vec [u8 , u16] where { T : Clone } , u32");
}

#[test]
fn segment_without_trait_reference_is_kept() {
    let v = toks("<T> Vec<T> where{T: Clone}, [u8, i8]");
    let out = replace_segment_trait(&v, &toks("a::T")).unwrap();
    assert_eq!(render(&out), render(&v));
}
