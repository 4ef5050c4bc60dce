use batch_impl::directives::blanket_helpers::{
    blanket_spec, by_value_note, forward_derefs, has_at0, is_by_value, resolve_target_predicates, return_type_refs_self,
    trait_with_args,
};
use batch_impl::directives::blanket_wrappers::{parse_blanket_wrappers, BlanketWrapper};
use batch_impl::directives::delegate::delegate_args;
use batch_impl::directives::dispatch::{open_extension, parse_directive, DirectiveKind};
use batch_impl::directives::name_list::{parse_name_tokens, parse_names_from_tokens};
use batch_impl::directives::reject::reject_directives;
use batch_impl::directives::walk::{split_directives, Piece};
use batch_impl::token::{Delim, Spacing, Tok};
use batch_impl::text::join_strings;
use batch_impl::consts::ctx::ConstCtx;
use batch_impl::directives::expand::{expand_blanket, expand_delegate, expand_fill, expand_single, expand_tokens};
use batch_impl::entry::path_prefix::attr_trait_path;
use batch_impl::fresh::FreshCounter;
use batch_impl::stream;
use batch_impl::trait_items::{ItemKind, ItemShape, ParamPat, ParamShape, Receiver, TraitDef, TraitItemInfo};

fn to_toks(ts: proc_macro2::TokenStream) -> Vec<Tok> {
    ts.into_iter()
        .map(|tt| match tt {
            proc_macro2::TokenTree::Ident(id) => Tok::Ident(id.to_string()),
            proc_macro2::TokenTree::Punct(p) => Tok::Punct(
                p.as_char(),
                match p.spacing() {
                    proc_macro2::Spacing::Alone => Spacing::Alone,
                    proc_macro2::Spacing::Joint => Spacing::Joint,
                },
            ),
            proc_macro2::TokenTree::Literal(l) => Tok::Literal(l.to_string()),
            proc_macro2::TokenTree::Group(g) => Tok::Group(
                match g.delimiter() {
                    proc_macro2::Delimiter::Parenthesis => Delim::Paren,
                    proc_macro2::Delimiter::Bracket => Delim::Bracket,
                    proc_macro2::Delimiter::Brace => Delim::Brace,
                    proc_macro2::Delimiter::None => Delim::Invisible,
                },
                to_toks(g.stream()),
            ),
        })
        .collect()
}

fn to_stream(toks: &[Tok]) -> proc_macro2::TokenStream {
    toks.iter()
        .map(|t| -> proc_macro2::TokenTree {
            match t {
                Tok::Ident(s) => proc_macro2::Ident::new(s, proc_macro2::Span::call_site()).into(),
                Tok::Punct(c, sp) => proc_macro2::Punct::new(
                    *c,
                    match sp {
                        Spacing::Alone => proc_macro2::Spacing::Alone,
                        Spacing::Joint => proc_macro2::Spacing::Joint,
                    },
                )
                .into(),
                Tok::Literal(s) => s.parse::<proc_macro2::TokenStream>().unwrap().into_iter().next().unwrap(),
                Tok::Group(d, inner) => proc_macro2::Group::new(
                    match d {
                        Delim::Paren => proc_macro2::Delimiter::Parenthesis,
                        Delim::Bracket => proc_macro2::Delimiter::Bracket,
                        Delim::Brace => proc_macro2::Delimiter::Brace,
                        Delim::Invisible => proc_macro2::Delimiter::None,
                    },
                    to_stream(inner),
                )
                .into(),
            }
        })
        .collect()
}

fn toks(s: &str) -> Vec<Tok> {
    to_toks(s.parse::<proc_macro2::TokenStream>().unwrap())
}

fn render(v: &[Tok]) -> String {
    to_stream(v).to_string()
}

fn td() -> TraitDef {
    TraitDef { ident: "T".to_string(), items: vec![], generics: vec![], where_preds: None, tokens: vec![] }
}

fn shape() -> ItemShape {
    ItemShape {
        head: vec![],
        receiver: None,
        params: vec![],
        output: vec![],
        tail: vec![],
        inner_attrs: vec![],
        gat_args: vec![],
    }
}

/// A typed parameter `pat: ty`.
fn param(pat: &str, ty: &str, kind: ParamPat, forwardable: bool) -> ParamShape {
    ParamShape { attrs: vec![], pat: toks(pat), pat_kind: kind, forwardable, ty: toks(ty), text: format!("{} : {}", pat, ty) }
}

fn ident_param(name: &str, ty: &str) -> ParamShape {
    param(name, ty, ParamPat::Ident(name.to_string()), true)
}

/// A method `fn name(recv, params) output;`.
fn method(name: &str, recv: Option<(Receiver, &str)>, params: Vec<ParamShape>, output: &str) -> TraitItemInfo {
    TraitItemInfo {
        kind: ItemKind::Fn,
        name: name.to_string(),
        has_default: false,
        receiver: recv.map(|(r, _)| r),
        shape: ItemShape {
            head: toks(&format!("fn {}", name)),
            receiver: recv.map(|(_, t)| toks(t)),
            params,
            output: toks(output),
            ..shape()
        },
    }
}

fn constant(name: &str, ty: &str) -> TraitItemInfo {
    TraitItemInfo {
        kind: ItemKind::Const,
        name: name.to_string(),
        has_default: false,
        receiver: None,
        shape: ItemShape { head: toks(&format!("const {}: {}", name, ty)), tail: toks(";"), ..shape() },
    }
}

fn trait_of(items: Vec<TraitItemInfo>) -> TraitDef {
    TraitDef { ident: "Tr".to_string(), items, generics: vec![], where_preds: None, tokens: toks("trait Tr {}") }
}

fn names(s: &str) -> Result<Vec<String>, String> {
    parse_names_from_tokens(&toks(s), &td()).map_err(|d| d.message)
}

#[test]
fn name_list_keeps_order_and_drops_duplicates() {
    assert_eq!(names("a, b, a").unwrap(), ["a", "b"]);
    assert_eq!(names("[a, b], c").unwrap(), ["a", "b", "c"]);
}

#[test]
fn name_list_exclusions() {
    assert_eq!(names("[a, b, c], -b").unwrap(), ["a", "c"]);
    assert_eq!(names("[a, b, c], -[a, c]").unwrap(), ["b"]);
    assert_eq!(names("a, -b").unwrap(), ["a"]);
}

#[test]
fn name_list_errors() {
    assert_eq!(names("").unwrap_err(), "batch-impl: the directive's argument list cannot be empty");
    assert_eq!(
        names(", a").unwrap_err(),
        "batch-impl: in directive arguments, a comma is in an illegal position (no leading/trailing/consecutive commas)"
    );
    assert_eq!(
        names("a,").unwrap_err(),
        "batch-impl: in directive arguments, a comma is in an illegal position (no leading/trailing/consecutive commas)"
    );
    assert_eq!(names("a, -a").unwrap_err(), "batch-impl: directive arguments cannot be empty");
    assert_eq!(
        names("a, -").unwrap_err(),
        "batch-impl: in directive arguments, after `-` expected an identifier or `[...]` list (e.g. `-foo`, `-[a,b]`)"
    );
    assert_eq!(
        names("a, (b)").unwrap_err(),
        "batch-impl: in directive arguments, expected an identifier, comma, `[...]` list, or `-` exclusion, got `(b)`"
    );
    assert_eq!(
        names("a 1").unwrap_err(),
        "batch-impl: in directive arguments, expected an identifier, comma, `[...]` list, or `-` exclusion, got `1`"
    );
    assert_eq!(names("a, []").unwrap_err(), "batch-impl: directive arguments cannot be empty");
    assert_eq!(
        parse_name_tokens(&toks("x,,y"), &td(), "the list").unwrap_err().message,
        "batch-impl: in the list, a comma is in an illegal position (no leading/trailing/consecutive commas)"
    );
}

fn wrappers(s: &str) -> Result<Vec<BlanketWrapper>, String> {
    parse_blanket_wrappers(&toks(s)).map_err(|d| d.message)
}

#[test]
fn blanket_wrappers_default_depth() {
    let w = wrappers("&, Box, Cow<'_>").unwrap();
    assert_eq!(w.len(), 3);
    assert_eq!(render(&w[0].ty), "&");
    assert_eq!(w[1].depth, 1);
    assert_eq!(render(&w[2].ty), "Cow <'_ >");
    assert!(w[2].where_preds.is_none());
}

#[test]
fn blanket_wrapper_depth_and_where() {
    let w = wrappers("Box.Arc:2 where{@0: Clone}").unwrap();
    assert_eq!(w.len(), 1);
    assert_eq!(render(&w[0].ty), "Box . Arc");
    assert_eq!(w[0].depth, 2);
    assert_eq!(render(w[0].where_preds.as_ref().unwrap()), "@ 0 : Clone");
    let w = wrappers("a::B:3").unwrap();
    assert_eq!(render(&w[0].ty), "a :: B");
    assert_eq!(w[0].depth, 3);
}

#[test]
fn blanket_cow_builtin() {
    let w = wrappers("@Cow").unwrap();
    assert_eq!(render(&w[0].ty), "Cow '_");
    assert_eq!(w[0].ty.len(), 2);
    assert_eq!(render(w[0].where_preds.as_ref().unwrap()), "@ 0 : ToOwned + ? Sized , @ 0 :: Owned : @ trait");
}

#[test]
fn blanket_wrapper_errors() {
    assert_eq!(
        wrappers("&,,Box").unwrap_err(),
        "batch-impl: #blanket wrapper list contains an empty element (e.g. `&,Box`); separate elements with `,`"
    );
    assert_eq!(wrappers("Box:0").unwrap_err(), "batch-impl: #blanket `:0` is meaningless (deref depth must be ≥ 1)");
    assert_eq!(
        wrappers("Box:200").unwrap_err(),
        "batch-impl: #blanket `:200` is too large (deref depth must be ≤ 128)"
    );
    assert_eq!(
        wrappers("Box:x").unwrap_err(),
        "batch-impl: after #blanket `:x` must come a number (e.g. `Box^Arc:2`)"
    );
    assert_eq!(
        wrappers("Box:1.5").unwrap_err(),
        "batch-impl: #blanket `:1.5` has an invalid depth (must be a positive integer, e.g. `Box^Arc:2`)"
    );
    assert_eq!(wrappers("Box:").unwrap_err(), "batch-impl: after #blanket `:` must come a number (e.g. `Box^Arc:2`)");
    assert_eq!(
        wrappers(":2").unwrap_err(),
        "batch-impl: #blanket `:N` is missing the wrapper type before it (e.g. `Box^Arc:2`)"
    );
    assert!(wrappers("*const").unwrap_err().contains("`*const`/`*mut`"));
    assert!(wrappers("*mut").unwrap_err().contains("`*const`/`*mut`"));
    assert!(wrappers("self").unwrap_err().contains("`self` wrappers"));
}

#[test]
fn blanket_single_group_wrapper_no_panic() {
    // `trait BlanketBug { fn m(&self); }` under `#blanket(@all_methods){{}}`,
    // through the attribute front end.
    let def = TraitDef {
        ident: "BlanketBug".to_string(),
        items: vec![method("m", Some((Receiver::Reference, "&self")), vec![], "")],
        generics: vec![],
        where_preds: None,
        tokens: toks("trait BlanketBug { fn m(&self); }"),
    };
    let (path, rest) = attr_trait_path(&toks("#blanket(@all_methods){{}}"), &"BlanketBug".to_string(), true).unwrap();
    let paired = stream::new(rest).preprocess(ConstCtx::Attribute { trait_def: &def, trait_full_path: &path }).unwrap();
    let mut fresh = FreshCounter::new();
    let out = expand_tokens(&paired.into_tokens(), &def, &path, &mut fresh).unwrap();
    assert!(render(&out).contains("fn m (& self) { (* * self) . m () }"));
    let _ = batch_impl::where_process::where_process(&out);
}

#[test]
fn impl_entry_rejects_directives() {
    assert_eq!(render(&reject_directives(&toks("#[inline] fn f() {}")).unwrap()), "# [inline] fn f () { }");
    let e = reject_directives(&toks("u8 { #fill(a){1} }")).unwrap_err();
    assert_eq!(
        e.message,
        "batch-impl: `#` directives are not supported on the ItemImpl entry (write the impl body directly)"
    );
    assert!(reject_directives(&toks("#[a] #b")).is_err());
}

#[test]
fn target_marker_detection() {
    assert!(has_at0(&toks("(u32, @0, u8)")));
    assert!(has_at0(&toks("Wrapper<@0>")));
    assert!(!has_at0(&toks("Box")));
    assert!(!has_at0(&toks("@1")));
}

#[test]
fn return_types_naming_self() {
    assert!(return_type_refs_self(Some(&toks("Vec<Self>"))));
    assert!(!return_type_refs_self(Some(&toks("(Self,)"))));
    assert!(!return_type_refs_self(Some(&toks("u8"))));
    assert!(!return_type_refs_self(None));
}

#[test]
fn trait_paths_with_grouped_args() {
    assert_eq!(render(&trait_with_args(&toks("a::Tr"), &[])), "a :: Tr");
    let args = vec![toks("X"), toks("'a")];
    assert_eq!(render(&trait_with_args(&toks("Tr"), &args)), "Tr X , 'a");
    assert_eq!(trait_with_args(&toks("Tr"), &args).len(), 2);
}

#[test]
fn wrapper_predicates_resolve_trait() {
    let out = resolve_target_predicates(&toks("@0: ToOwned, @0::Owned: @trait"), &toks("m::Tr")).unwrap();
    assert_eq!(render(&out), "@ 0 : ToOwned , @ 0 :: Owned : m :: Tr");
    let e = resolve_target_predicates(&toks("@x: Tr"), &toks("Tr")).unwrap_err();
    assert_eq!(e.message, "batch-impl: in #blanket wrapper where, `@` must be followed by a position digit (e.g. `@0`) or `@trait`");
}

#[test]
fn directive_forms() {
    let t = toks("#area{1} #fill(a){2} #delegate(b){self.0} #blanket(@all){Box} #mine(x){y}");
    assert_eq!(parse_directive(&t, 0, "area").unwrap(), (DirectiveKind::Single, 3));
    assert_eq!(parse_directive(&t, 3, "fill").unwrap(), (DirectiveKind::Fill, 4));
    assert_eq!(parse_directive(&t, 7, "delegate").unwrap(), (DirectiveKind::Delegate, 4));
    assert_eq!(parse_directive(&t, 11, "blanket").unwrap(), (DirectiveKind::Blanket, 4));
    assert_eq!(parse_directive(&t, 15, "mine").unwrap(), (DirectiveKind::Open, 4));
    let e = parse_directive(&toks("#fill(a) x"), 0, "fill").unwrap_err();
    assert_eq!(e.message, "`#fill` must be followed by `(args)` or `[args]` + `{body}` (or directly `{body}`)");
    let e = parse_directive(&toks("#fill x"), 0, "fill").unwrap_err();
    assert_eq!(e.message, "`#fill` must be followed by `(args)` / `[args]` or a code block `{body}`");
}

#[test]
fn open_extension_call() {
    let t = toks("(a){b}");
    let call = open_extension("mine", &t[0], &t[1], &toks("trait T {}"));
    assert_eq!(render(&[call]), "{ ! mine ! { (a) { b } trait T { } } }");
}

#[test]
fn delegate_renames() {
    let (names_toks, renames) = delegate_args(&toks("a, size = len, [b, c]")).unwrap();
    assert_eq!(render(&names_toks), "a size [b , c]");
    assert_eq!(renames, vec![("size".to_string(), "len".to_string())]);
    assert_eq!(parse_names_from_tokens(&names_toks, &td()).unwrap(), ["a", "size", "b", "c"]);
    let e = delegate_args(&toks("= len")).unwrap_err();
    assert_eq!(e.message, "batch-impl: #delegate rename `X = Y` needs identifiers on both sides (e.g. `#delegate(size = len)`)");
    let e = delegate_args(&toks("size = len x")).unwrap_err();
    assert_eq!(e.message, "batch-impl: #delegate rename `X = Y` needs a single identifier on the right (e.g. `#delegate(size = len)`)");
    let e = delegate_args(&toks("size = len, size = count")).unwrap_err();
    assert_eq!(
        e.message,
        "batch-impl: #delegate method `size` is renamed twice (`size=...` appears more than once); a method can delegate to only one target"
    );
}

#[test]
fn one_name_list_selects_it() {
    assert_eq!(names("[foo]").unwrap(), vec!["foo".to_string()]);
    assert_eq!(names("foo").unwrap(), vec!["foo".to_string()]);
}

#[test]
fn blanket_forwarding_derefs() {
    assert_eq!(forward_derefs(None, 1), None);
    assert_eq!(forward_derefs(Some(Receiver::Reference), 1), Some(2));
    assert_eq!(forward_derefs(Some(Receiver::Reference), 2), Some(3));
    assert_eq!(forward_derefs(Some(Receiver::Value), 1), Some(1));
    assert_eq!(forward_derefs(Some(Receiver::Typed), 2), Some(2));
}

fn item(kind: ItemKind, receiver: Option<Receiver>) -> TraitItemInfo {
    TraitItemInfo { kind, name: "m".to_string(), has_default: false, receiver, shape: shape() }
}

#[test]
fn by_value_methods_get_a_note() {
    assert!(is_by_value(&item(ItemKind::Fn, Some(Receiver::Value))));
    assert!(is_by_value(&item(ItemKind::Fn, Some(Receiver::Typed))));
    assert!(!is_by_value(&item(ItemKind::Fn, Some(Receiver::Reference))));
    assert!(!is_by_value(&item(ItemKind::Fn, None)));
    assert!(!is_by_value(&item(ItemKind::Const, None)));
    let names = vec!["consume".to_string(), "into_inner".to_string()];
    assert_eq!(join_strings(&names, ", "), "consume, into_inner");
    assert_eq!(join_strings(&[], ", "), "");
    assert_eq!(
        by_value_note(&names),
        "batch-impl: by-value method(s) `consume, into_inner` forwarded via deref — the forward moves the inner value out of the wrapper, so shared wrappers (`&`, `Rc`) cannot type-check; select `@all_ref_methods` to keep the trait default or hand-write them with `#name{..}` if rustc rejects the impl"
    );
}

fn piece_shape(p: &Piece) -> String {
    match p {
        Piece::Tok(t) => format!("tok {}", render(std::slice::from_ref(t))),
        Piece::Bracket(v) => format!("[{}]", v.iter().map(piece_shape).collect::<Vec<_>>().join("; ")),
        Piece::Directive { name, kind, args, body } => format!(
            "#{} {:?} {} {}",
            name,
            kind,
            args.as_ref().map(|a| render(std::slice::from_ref(a))).unwrap_or_default(),
            render(std::slice::from_ref(body))
        ),
        Piece::Error(d) => format!("error {}", d.message),
    }
}

fn shapes(s: &str) -> Vec<String> {
    split_directives(&toks(s)).iter().map(piece_shape).collect()
}

#[test]
fn directives_split_in_place() {
    assert_eq!(
        shapes("u8 #name{1}, [i8 #fill(a, b){2}] #[attr] m![#x{3}]"),
        vec![
            "tok u8",
            "#name Single  { 1 }",
            "tok ,",
            "[tok i8; #fill Fill (a , b) { 2 }]",
            "tok #",
            "tok [attr]",
            "tok m",
            "tok !",
            "tok [# x { 3 }]",
        ]
    );
    assert_eq!(shapes("#delegate(a){self.0}")[0], "#delegate Delegate (a) { self . 0 }");
    assert_eq!(shapes("#blanket(@all){&}")[0], "#blanket Blanket (@ all) { & }");
    assert_eq!(shapes("#ext(a){b}")[0], "#ext Open (a) { b }");
}

#[test]
fn malformed_directive_ends_the_split() {
    assert_eq!(
        shapes("u8 [i8 #x y] #a{1}"),
        vec!["tok u8", "[tok i8; error `#x` must be followed by `(args)` / `[args]` or a code block `{body}`]"]
    );
    assert_eq!(
        shapes("#fill(a) u8"),
        vec!["error `#fill` must be followed by `(args)` or `[args]` + `{body}` (or directly `{body}`)"]
    );
}

#[test]
fn blanket_spec_shape() {
    let fresh = Tok::Ident("_T".to_string());
    let spec = blanket_spec(
        &[],
        &[toks("X")],
        &fresh,
        &toks("Foo"),
        &toks("Foo"),
        &toks("Box"),
        Some(&toks("X: Clone")),
        &toks("_T: Send"),
        toks("fn m() {}"),
    );
    assert!(matches!(&spec[0], Tok::Group(Delim::Invisible, g) if render(g) == "X , _T"));
    assert_eq!(render(&spec[1..]), "Foo Box . _T where { _T : Foo , X : Clone , _T : Send } { fn m () { } }");
    let marked = blanket_spec(&[], &[], &fresh, &toks("Foo"), &[], &toks("(u8, @0)"), None, &[], vec![]);
    assert!(matches!(&marked[0], Tok::Group(Delim::Invisible, g) if render(g) == "_T"));
    assert_eq!(render(&marked[1..]), "(u8 , @ 0) where { _T : Foo } { }");
}

fn sample() -> TraitDef {
    trait_of(vec![
        method("get", Some((Receiver::Reference, "&self")), vec![], "-> u8"),
        method("take", Some((Receiver::Value, "self")), vec![ident_param("x", "u8")], ""),
        constant("K", "u8"),
        method("dup", Some((Receiver::Reference, "&self")), vec![], "-> Self"),
        method("skip", Some((Receiver::Reference, "&self")), vec![param("_", "u8", ParamPat::Wild, false)], ""),
        method(
            "size",
            Some((Receiver::Reference, "&self")),
            vec![
                param("(a, b)", "(u8, u8)", ParamPat::Other, true),
                param("ref c", "u8", ParamPat::Other, false),
                param("_", "u8", ParamPat::Wild, false),
            ],
            "-> usize",
        ),
        method("make", None, vec![ident_param("v", "u8")], "-> u8"),
    ])
}

#[test]
fn single_item_gets_the_body() {
    let out = expand_single(&sample(), "K", &toks("1")).unwrap();
    assert_eq!(render(&out), "{ const K : u8 = 1 ; }");
    let out = expand_single(&sample(), "take", &toks("drop(x)")).unwrap();
    assert_eq!(render(&out), "{ fn take (self , x : u8) { drop (x) } }");
    assert_eq!(expand_single(&sample(), "nope", &toks("1")).unwrap_err().message, "batch-impl: item `Tr` not found in trait `nope`");
}

#[test]
fn fill_implements_each_selected_item() {
    let out = expand_fill(&sample(), &toks("get, K"), &toks("0")).unwrap();
    assert_eq!(render(&out), "{ fn get (& self) -> u8 { 0 } const K : u8 = 0 ; }");
}

#[test]
fn delegate_renames_and_forwards() {
    let out = expand_delegate(&sample(), &toks("size = len, get"), &toks("self.0")).unwrap();
    assert_eq!(
        render(&out),
        "{ fn size (& self , (a , b) : (u8 , u8) , arg0 : u8 , arg1 : u8) -> usize { (self . 0) . len ((a , b) , arg0 , arg1) } \
         fn get (& self) -> u8 { (self . 0) . get () } }"
    );
    assert_eq!(
        expand_delegate(&sample(), &toks("K"), &toks("self.0")).unwrap_err().message,
        "batch-impl: #delegate only works on methods; `Tr` in trait `K` is not a method"
    );
}

#[test]
fn blanket_forwards_through_the_wrapper() {
    let mut fresh = FreshCounter::new();
    let out = expand_blanket(&sample(), &toks("get, take, K, make"), &toks("Box"), &toks("Tr"), &mut fresh).unwrap();
    assert_eq!(fresh.next_number(), 1);
    assert_eq!(render(&out[..1]), "#");
    assert!(render(&out[1..2]).contains("by-value method(s) `take` forwarded via deref"));
    assert!(matches!(&out[2], Tok::Group(Delim::Invisible, g) if render(g) == "_Param_0_BatchGen_"));
    assert_eq!(
        render(&out[3..]),
        "Box . _Param_0_BatchGen_ where { _Param_0_BatchGen_ : Tr } { \
         fn get (& self) -> u8 { (* * self) . get () } \
         fn take (self , x : u8) { (* self) . take (x) } \
         const K : u8 = < _Param_0_BatchGen_ as Tr > :: K ; \
         fn make (v : u8) -> u8 { _Param_0_BatchGen_ :: make (v) } }"
    );
}

#[test]
fn blanket_refuses_self_and_wildcards() {
    let mut fresh = FreshCounter::new();
    let e = expand_blanket(&sample(), &toks("dup"), &toks("Box"), &toks("Tr"), &mut fresh).unwrap_err();
    assert!(e.message.starts_with("batch-impl: #blanket method `Tr::dup` takes/returns `Self`"));
    let e = expand_blanket(&sample(), &toks("skip"), &toks("Box"), &toks("Tr"), &mut fresh).unwrap_err();
    assert_eq!(
        e.message,
        "batch-impl: #blanket method `Tr::skip` param `_ : u8` cannot be forwarded: only `self` and plain identifier patterns are supported"
    );
    assert_eq!(fresh.next_number(), 2);
}

#[test]
fn directives_expand_in_place() {
    let mut fresh = FreshCounter::new();
    let out = expand_tokens(&toks("u8 #K{3}, [i8 #get{4}]"), &sample(), &toks("Tr"), &mut fresh).unwrap();
    assert_eq!(render(&out), "u8 { const K : u8 = 3 ; } , [i8 { fn get (& self) -> u8 { 4 } }]");
    assert_eq!(fresh.next_number(), 0);
}

#[test]
fn single_fill_equals_name() {
    let body = toks("1");
    let by_name = render(&expand_single(&sample(), "K", &body).unwrap());
    assert_eq!(render(&expand_fill(&sample(), &toks("[K]"), &body).unwrap()), by_name);
    assert_eq!(render(&expand_fill(&sample(), &toks("K"), &body).unwrap()), by_name);
    assert_eq!(
        expand_fill(&sample(), &toks("[nope]"), &body).unwrap_err().message,
        expand_single(&sample(), "nope", &body).unwrap_err().message
    );
}
