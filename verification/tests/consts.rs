use batch_impl::consts::ctx::{ConstCtx, UserConsts};
use batch_impl::consts::expand::try_expand_at;
use batch_impl::consts::table::{builtin_named, collect_user_consts, expand_consts, render_list};
use batch_impl::consts::value_refs::check_value_refs;
use batch_impl::token::{Delim, Spacing, Tok};
use batch_impl::trait_items::{
    get_trait_generic_decl, get_trait_item, resolve_all_marker, resolve_generic_marker, GenericFilter, ItemKind,
    ItemShape, Receiver, TraitDef, TraitGenericParam, TraitItemInfo,
};

fn to_toks(ts: proc_macro2::TokenStream) -> Vec<Tok> {
    ts.into_iter()
        .map(|tt| match tt {
            proc_macro2::TokenTree::Ident(id) => Tok::Ident(id.to_string()),
            proc_macro2::TokenTree::Punct(p) => Tok::Punct(
                p.as_char(),
                match p.spacing() {
                    proc_macro2::Spacing::Alone => Spacing::Alone,
                    proc_macro2::Spacing::Joint => Spacing::Joint,
                },
            ),
            proc_macro2::TokenTree::Literal(l) => Tok::Literal(l.to_string()),
            proc_macro2::TokenTree::Group(g) => Tok::Group(
                match g.delimiter() {
                    proc_macro2::Delimiter::Parenthesis => Delim::Paren,
                    proc_macro2::Delimiter::Bracket => Delim::Bracket,
                    proc_macro2::Delimiter::Brace => Delim::Brace,
                    proc_macro2::Delimiter::None => Delim::Invisible,
                },
                to_toks(g.stream()),
            ),
        })
        .collect()
}

fn to_stream(toks: &[Tok]) -> proc_macro2::TokenStream {
    toks.iter()
        .map(|t| -> proc_macro2::TokenTree {
            match t {
                Tok::Ident(s) => proc_macro2::Ident::new(s, proc_macro2::Span::call_site()).into(),
                Tok::Punct(c, sp) => proc_macro2::Punct::new(
                    *c,
                    match sp {
                        Spacing::Alone => proc_macro2::Spacing::Alone,
                        Spacing::Joint => proc_macro2::Spacing::Joint,
                    },
                )
                .into(),
                Tok::Literal(s) => s.parse::<proc_macro2::TokenStream>().unwrap().into_iter().next().unwrap(),
                Tok::Group(d, inner) => proc_macro2::Group::new(
                    match d {
                        Delim::Paren => proc_macro2::Delimiter::Parenthesis,
                        Delim::Bracket => proc_macro2::Delimiter::Bracket,
                        Delim::Brace => proc_macro2::Delimiter::Brace,
                        Delim::Invisible => proc_macro2::Delimiter::None,
                    },
                    to_stream(inner),
                )
                .into(),
            }
        })
        .collect()
}

fn toks(s: &str) -> Vec<Tok> {
    to_toks(s.parse::<proc_macro2::TokenStream>().unwrap())
}

fn render(v: &[Tok]) -> String {
    to_stream(v).to_string()
}

fn s(v: &[&str]) -> Vec<String> {
    v.iter().map(|x| x.to_string()).collect()
}

fn shape() -> ItemShape {
    ItemShape {
        head: vec![],
        receiver: None,
        params: vec![],
        output: vec![],
        tail: vec![],
        inner_attrs: vec![],
        gat_args: vec![],
    }
}

fn info(kind: ItemKind, name: &str, has_default: bool, receiver: Option<Receiver>) -> TraitItemInfo {
    TraitItemInfo { kind, name: name.to_string(), has_default, receiver, shape: shape() }
}

fn sample_trait() -> TraitDef {
    TraitDef {
        ident: "Shape".to_string(),
        items: vec![
            info(ItemKind::Fn, "area", false, Some(Receiver::Reference)),
            info(ItemKind::Fn, "new", true, None),
            info(ItemKind::Const, "SIDES", false, None),
            info(ItemKind::Type, "Unit", false, None),
        ],
        generics: vec![
            TraitGenericParam { kind: GenericFilter::Type, decl: toks("T"), name: toks("T") },
            TraitGenericParam { kind: GenericFilter::Const, decl: toks("const N: usize"), name: toks("N") },
        ],
        where_preds: None,
        tokens: toks("trait Shape<T, const N: usize> {}"),
    }
}

#[test]
fn builtin_named_families() {
    assert_eq!(builtin_named("u*").unwrap(), ["u8", "u16", "u32", "u64", "u128", "usize"]);
    assert_eq!(builtin_named("f*").unwrap(), ["f32", "f64"]);
    assert_eq!(builtin_named("num").unwrap().len(), 14);
    assert_eq!(builtin_named("scalar").unwrap().len(), 16);
    assert!(builtin_named("u8").is_none());
}

#[test]
fn render_list_is_a_comma_separated_bracket_group() {
    let t = render_list(&s(&["u8", "u16"]));
    assert_eq!(render(&[t]), "[u8 , u16]");
}

#[test]
fn named_family_expands_in_brackets() {
    let table = UserConsts::new();
    let ctx = ConstCtx::Trait { user_table: &table };
    let out = expand_consts(&toks("[@u*]"), ctx).unwrap();
    assert_eq!(render(&out), "[[u8 , u16 , u32 , u64 , u128 , usize]]");
}

#[test]
fn range_family_expands() {
    let table = UserConsts::new();
    let ctx = ConstCtx::Trait { user_table: &table };
    assert_eq!(render(&expand_consts(&toks("@u8..u32"), ctx).unwrap()), "[u8 , u16 , u32]");
    assert_eq!(render(&expand_consts(&toks("@..i32"), ctx).unwrap()), "[i8 , i16 , i32]");
    assert_eq!(render(&expand_consts(&toks("@f32.."), ctx).unwrap()), "[f32 , f64]");
}

#[test]
fn bodies_are_not_entered() {
    let table = UserConsts::new();
    let ctx = ConstCtx::Trait { user_table: &table };
    assert_eq!(render(&expand_consts(&toks("{ @u* }"), ctx).unwrap()), "{ @ u * }");
    assert_eq!(render(&expand_consts(&toks("m![@u*]"), ctx).unwrap()), "m ! [@ u *]");
}

#[test]
fn unknown_constant_errors() {
    let table = UserConsts::new();
    let ctx = ConstCtx::Trait { user_table: &table };
    let e = expand_consts(&toks("@zz"), ctx).unwrap_err();
    assert_eq!(
        e.message,
        "batch-impl: unknown @ constant `@zz`; built-ins: `@u*` `@i*` `@f*` `@num` `@scalar` and ranges `@u8..u128` `@..u128` `@u16..`; user constants must be defined before the reference (defining them later has no effect)"
    );
    let td = sample_trait();
    let path = toks("Shape");
    let actx = ConstCtx::Attribute { trait_def: &td, trait_full_path: &path };
    let e = expand_consts(&toks("@zz"), actx).unwrap_err();
    assert!(e.message.ends_with("`@u16..`"));
}

#[test]
fn at_trait_follows_the_context() {
    let table = UserConsts::new();
    let tctx = ConstCtx::Trait { user_table: &table };
    assert!(try_expand_at(&toks("@trait"), 0, tctx).unwrap().is_none());
    let td = sample_trait();
    let path = toks("ext::Shape");
    let actx = ConstCtx::Attribute { trait_def: &td, trait_full_path: &path };
    let (out, consumed) = try_expand_at(&toks("@trait"), 0, actx).unwrap().unwrap();
    assert_eq!(render(&out), "ext :: Shape");
    assert_eq!(consumed, 2);
    let ictx = ConstCtx::ItemImpl { trait_path: None };
    assert!(try_expand_at(&toks("@trait"), 0, ictx).is_err());
}

#[test]
fn star_family_consumes_three_tokens() {
    let table = UserConsts::new();
    let ctx = ConstCtx::Trait { user_table: &table };
    let (out, consumed) = try_expand_at(&toks("@i* x"), 0, ctx).unwrap().unwrap();
    assert_eq!(consumed, 3);
    assert_eq!(render(&out), "[i8 , i16 , i32 , i64 , i128 , isize]");
}

#[test]
fn position_reference_is_kept() {
    let table = UserConsts::new();
    let ctx = ConstCtx::Trait { user_table: &table };
    assert!(try_expand_at(&toks("@0"), 0, ctx).unwrap().is_none());
    assert_eq!(render(&expand_consts(&toks("Box<@0>"), ctx).unwrap()), "Box <@ 0 >");
}

#[test]
fn all_family_selects_trait_items() {
    let td = sample_trait();
    let path = toks("Shape");
    let actx = ConstCtx::Attribute { trait_def: &td, trait_full_path: &path };
    assert_eq!(render(&expand_consts(&toks("@all"), actx).unwrap()), "[area , new , SIDES , Unit]");
    assert_eq!(render(&expand_consts(&toks("@all_methods"), actx).unwrap()), "[area , new]");
    let table = UserConsts::new();
    let tctx = ConstCtx::Trait { user_table: &table };
    assert!(expand_consts(&toks("@all"), tctx).is_err());
}

#[test]
fn generic_family_copies_declarations() {
    let td = sample_trait();
    let path = toks("Shape");
    let actx = ConstCtx::Attribute { trait_def: &td, trait_full_path: &path };
    assert_eq!(render(&expand_consts(&toks("@all_type_params"), actx).unwrap()), "< T >");
    assert_eq!(render(&expand_consts(&toks("@all_const_params"), actx).unwrap()), "< const N : usize >");
    let e = expand_consts(&toks("@all_lifetimes"), actx).unwrap_err();
    assert_eq!(e.message, "batch-impl: `@all_lifetimes` cannot expand — trait `Shape` has no lifetime parameters");
}

#[test]
fn custom_definitions_only_lead_batch_trait() {
    let td = sample_trait();
    let path = toks("Shape");
    let actx = ConstCtx::Attribute { trait_def: &td, trait_full_path: &path };
    let e = expand_consts(&toks("@a = u8"), actx).unwrap_err();
    assert!(e.message.starts_with("batch-impl: custom constants are not supported"));
    let table = UserConsts::new();
    let tctx = ConstCtx::Trait { user_table: &table };
    let e = expand_consts(&toks("X: u8; @a = u8"), tctx).unwrap_err();
    assert!(e.message.starts_with("batch-impl: constant definition must appear before all trait segments"));
}

#[test]
fn user_constants_collect_and_expand_lazily() {
    let (rest, table) = collect_user_consts(&toks("@a = u8; @b = [@a, u16]; Foo: @b")).unwrap();
    assert_eq!(render(&rest), "Foo : @ b");
    assert!(table.contains_key("a"));
    assert_eq!(render(table.get("b").unwrap()), "[@ a , u16]");
    let ctx = ConstCtx::Trait { user_table: &table };
    assert_eq!(render(&expand_consts(&rest, ctx).unwrap()), "Foo : [u8 , u16]");
}

#[test]
fn later_definition_replaces_earlier() {
    let (_, table) = collect_user_consts(&toks("@a = u8; @a = u16; X: @a")).unwrap();
    assert_eq!(render(table.get("a").unwrap()), "u16");
}

#[test]
fn user_constant_definition_errors() {
    let e = collect_user_consts(&toks("@trait = u8;")).unwrap_err();
    assert_eq!(e.message, "batch-impl: constant name `@trait` is a reserved marker (segment-level substitution into a trait path); please rename");
    let e = collect_user_consts(&toks("@all_x = u8;")).unwrap_err();
    assert_eq!(e.message, "batch-impl: constant name `@all_x` is a reserved `@all` selector; please rename");
    let e = collect_user_consts(&toks("@num = u8;")).unwrap_err();
    assert_eq!(e.message, "batch-impl: user constant `@num` collides with a built-in constant name; please rename");
    let e = collect_user_consts(&toks("@a = u8")).unwrap_err();
    assert_eq!(e.message, "batch-impl: constant definition `@a=...` is missing the trailing `;`");
    let e = collect_user_consts(&toks("@a = @b; @b = u8;")).unwrap_err();
    assert_eq!(
        e.message,
        "batch-impl: constant `@a` references unknown `@b` (undefined or defined later; inside a constant definition, only built-in constants or previously defined constants can be referenced)"
    );
}

#[test]
fn value_references_are_checked() {
    let table = UserConsts::new();
    assert!(check_value_refs(&toks("[@u8..u16, Vec<@u*>]"), &table, "a").is_ok());
    assert!(check_value_refs(&toks("@..u64"), &table, "a").is_ok());
    assert!(check_value_refs(&toks("@u8"), &table, "a").is_err());
    let e = check_value_refs(&toks("@..x9"), &table, "a").unwrap_err();
    assert_eq!(e.message, "batch-impl: constant `@a` references an invalid open-left range (write `@..u128`, `@..i64`, `@..f64`)");
    let e = check_value_refs(&toks("@ 0"), &table, "a").unwrap_err();
    assert_eq!(e.message, "batch-impl: inside a constant value, `@` must be followed by a constant name (e.g. `@u*`, `@u8..u128`)");
}

#[test]
fn trait_item_lookups() {
    let td = sample_trait();
    assert_eq!(get_trait_item(&td, "SIDES").unwrap().kind, ItemKind::Const);
    let e = get_trait_item(&td, "missing").unwrap_err();
    assert_eq!(e.message, "batch-impl: item `Shape` not found in trait `missing`");
    assert_eq!(render(&get_trait_generic_decl(&td, GenericFilter::Type).unwrap()), "< T >");
    assert!(get_trait_generic_decl(&td, GenericFilter::Lifetime).is_none());
}

#[test]
fn all_markers_resolve() {
    assert_eq!(resolve_all_marker("all"), Some(((true, true, true), None, None)));
    assert_eq!(resolve_all_marker("all_methods"), Some(((true, false, false), None, None)));
    assert!(resolve_all_marker("everything").is_none());
    assert_eq!(resolve_generic_marker("all_lifetimes"), Some(GenericFilter::Lifetime));
    assert!(resolve_generic_marker("all_params").is_none());
}

#[test]
fn lists_without_references_come_back_unchanged() {
    let table = UserConsts::new();
    let ctx = ConstCtx::Trait { user_table: &table };
    for src in ["Vec<T> where{T: Clone} {x}", "[u8, (i16, f32)] #name{1}", ""] {
        let v = toks(src);
        assert_eq!(render(&expand_consts(&v, ctx).unwrap()), render(&v), "{src}");
    }
}

#[test]
fn second_expansion_keeps_kept_references() {
    let table = UserConsts::new();
    let ctx = ConstCtx::Trait { user_table: &table };
    let once = expand_consts(&toks("Wrap<@0, @all_fresh> @{x} @trait @u*"), ctx).unwrap();
    assert_eq!(render(&once), "Wrap <@ 0 , @ all_fresh > @ { x } @ trait [u8 , u16 , u32 , u64 , u128 , usize]");
    let twice = expand_consts(&once, ctx).unwrap();
    assert_eq!(render(&twice), render(&once));
}

#[test]
fn constant_expanding_to_where_changes_on_a_second_pass() {
    let (rest, table) = collect_user_consts(&toks("@w = where; x @w { @u* }")).unwrap();
    let ctx = ConstCtx::Trait { user_table: &table };
    let once = expand_consts(&rest, ctx).unwrap();
    assert_eq!(render(&once), "x where { @ u * }");
    let twice = expand_consts(&once, ctx).unwrap();
    assert_eq!(render(&twice), "x where { [u8 , u16 , u32 , u64 , u128 , usize] }");
}
