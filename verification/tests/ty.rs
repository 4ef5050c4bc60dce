use batch_impl::token::{Delim, Spacing, Tok};
use batch_impl::ty::{Ty, TyPrefix, TyTypeParam};

fn to_toks(ts: proc_macro2::TokenStream) -> Vec<Tok> {
    ts.into_iter()
        .map(|tt| match tt {
            proc_macro2::TokenTree::Ident(id) => Tok::Ident(id.to_string()),
            proc_macro2::TokenTree::Punct(p) => Tok::Punct(
                p.as_char(),
                match p.spacing() {
                    proc_macro2::Spacing::Alone => Spacing::Alone,
                    proc_macro2::Spacing::Joint => Spacing::Joint,
                },
            ),
            proc_macro2::TokenTree::Literal(l) => Tok::Literal(l.to_string()),
            proc_macro2::TokenTree::Group(g) => Tok::Group(
                match g.delimiter() {
                    proc_macro2::Delimiter::Parenthesis => Delim::Paren,
                    proc_macro2::Delimiter::Bracket => Delim::Bracket,
                    proc_macro2::Delimiter::Brace => Delim::Brace,
                    proc_macro2::Delimiter::None => Delim::Invisible,
                },
                to_toks(g.stream()),
            ),
        })
        .collect()
}

fn to_stream(toks: &[Tok]) -> proc_macro2::TokenStream {
    toks.iter()
        .map(|t| -> proc_macro2::TokenTree {
            match t {
                Tok::Ident(s) => proc_macro2::Ident::new(s, proc_macro2::Span::call_site()).into(),
                Tok::Punct(c, sp) => proc_macro2::Punct::new(
                    *c,
                    match sp {
                        Spacing::Alone => proc_macro2::Spacing::Alone,
                        Spacing::Joint => proc_macro2::Spacing::Joint,
                    },
                )
                .into(),
                Tok::Literal(s) => s.parse::<proc_macro2::TokenStream>().unwrap().into_iter().next().unwrap(),
                Tok::Group(d, inner) => proc_macro2::Group::new(
                    match d {
                        Delim::Paren => proc_macro2::Delimiter::Parenthesis,
                        Delim::Bracket => proc_macro2::Delimiter::Bracket,
                        Delim::Brace => proc_macro2::Delimiter::Brace,
                        Delim::Invisible => proc_macro2::Delimiter::None,
                    },
                    to_stream(inner),
                )
                .into(),
            }
        })
        .collect()
}

fn toks(s: &str) -> Vec<Tok> {
    to_toks(s.parse::<proc_macro2::TokenStream>().unwrap())
}

fn prim(s: &str) -> Ty {
    Ty::Primitive(toks(s))
}

fn boxed(s: &str) -> Option<Box<Ty>> {
    Some(Box::new(prim(s)))
}

fn written(t: &Ty) -> String {
    to_stream(&t.to_tokens()).to_string()
}

fn no_params() -> TyTypeParam {
    TyTypeParam { params: vec![], bindings: vec![] }
}

#[test]
fn leaves_are_written_as_is() {
    assert_eq!(written(&prim("u8")), "u8");
    assert_eq!(written(&Ty::Num(3)), "3u8");
    assert_eq!(written(&Ty::Range(0, 3, true)), "0u8 ..= 3u8");
    assert_eq!(written(&Ty::Range(1, 4, false)), "1u8 .. 4u8");
    assert_eq!(written(&Ty::Error(toks("compile_error!(\"x\")"))), "compile_error ! (\"x\")");
}

#[test]
fn arguments_follow_their_base() {
    let args = TyTypeParam { params: vec![(toks("T"), None), (toks("U"), boxed("Clone"))], bindings: vec![] };
    assert_eq!(written(&Ty::Generic(Box::new(prim("HashMap")), args)), "HashMap < T , U >");
    let bound = TyTypeParam { params: vec![], bindings: vec![(toks("Item"), toks("u8"))] };
    assert_eq!(written(&Ty::Trait(toks("Iterator"), bound)), "Iterator < Item = u8 >");
    assert_eq!(written(&Ty::Trait(toks("a::Tr"), no_params())), "a :: Tr");
    let tr = TyTypeParam { params: vec![(toks("X"), None)], bindings: vec![] };
    assert_eq!(written(&Ty::WithTrait(toks("Tr"), tr, Box::new(prim("u8")))), "Tr < X > u8");
}

#[test]
fn parameter_lists_keep_their_bounds() {
    let tp = TyTypeParam {
        params: vec![(toks("T"), boxed("Clone")), (toks("U"), None)],
        bindings: vec![(toks("Item"), toks("T"))],
    };
    assert_eq!(written(&Ty::TypeParam(tp)), "< T : Clone , U , Item = T >");
    assert_eq!(written(&Ty::TypeParam(no_params())), "");
    let tp = TyTypeParam { params: vec![(toks("T"), None)], bindings: vec![] };
    assert_eq!(written(&Ty::WithType(tp, Box::new(prim("Vec<T>")))), "< T > Vec < T >");
}

#[test]
fn containers_are_bracketed() {
    assert_eq!(written(&Ty::Array(vec![prim("u8"), prim("i8")])), "[u8 , i8]");
    assert_eq!(written(&Ty::Tuple(vec![prim("u8"), prim("i8")])), "(u8 , i8 ,)");
    assert_eq!(written(&Ty::Tuple(vec![])), "()");
    assert_eq!(written(&Ty::Group(Box::new(prim("u8")))), "(u8)");
    assert_eq!(written(&Ty::PrimitiveArray(boxed("u8"), Some(toks("4")))), "[u8 ; 4]");
    assert_eq!(written(&Ty::PrimitiveArray(boxed("u8"), None)), "[u8]");
    assert_eq!(written(&Ty::PrimitiveArray(None, None)), "[]");
}

#[test]
fn prefixes_and_fn_types() {
    assert_eq!(written(&Ty::WithPrefix(TyPrefix::RefMut, boxed("u8"))), "& mut u8");
    assert_eq!(written(&Ty::WithPrefix(TyPrefix::Ref, boxed("u8"))), "& u8");
    assert_eq!(written(&Ty::WithPrefix(TyPrefix::PtrConst, None)), "* const");
    assert_eq!(written(&Ty::WithPrefix(TyPrefix::PtrMut, boxed("T"))), "* mut T");
    assert_eq!(written(&Ty::WithPrefix(TyPrefix::SelfType, None)), "self");
    assert_eq!(written(&Ty::WithPrefix(TyPrefix::Unsafe, None)), "unsafe");
    assert_eq!(written(&Ty::Fn(Some(vec![prim("u8"), prim("i8")]), boxed("bool"))), "fn (u8 , i8) -> bool");
    assert_eq!(written(&Ty::Fn(Some(vec![]), None)), "fn ()");
    assert_eq!(written(&Ty::Fn(None, None)), "fn");
}

#[test]
fn attachments_wrap_their_type() {
    assert_eq!(written(&Ty::WithAttr(toks("inline"), boxed("u8"))), "# [inline] u8");
    assert_eq!(written(&Ty::WithAttr(toks("cfg(x)"), None)), "# [cfg (x)]");
    assert_eq!(written(&Ty::WithCode(boxed("u8"), toks("fn f() {}"))), "u8 { fn f () { } }");
    assert_eq!(written(&Ty::WithCode(None, toks("x"))), "{ x }");
    assert_eq!(written(&Ty::WithWhere(boxed("u8"), toks("T: Clone"))), "u8 where T : Clone");
    assert_eq!(written(&Ty::WithWhere(None, toks("T: Copy"))), "where T : Copy");
}

#[test]
fn nested_types_are_written_inside_out() {
    let inner = Ty::Array(vec![Ty::WithPrefix(TyPrefix::Ref, boxed("u8")), Ty::Num(2)]);
    let t = Ty::WithCode(Some(Box::new(Ty::Group(Box::new(inner)))), toks("x"));
    assert_eq!(written(&t), "([& u8 , 2u8]) { x }");
}
