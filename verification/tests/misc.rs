use batch_impl::at_refs::{resolve_at_refs, RefTok};
use batch_impl::blocks::{
    cursor_at_attachment, cursor_is_arrow, cursor_is_dotdot, cursor_is_lifetime, lone_splat, parse_attribute,
    peek_ident_at, starts_block, parse_prefix, parse_range, validate_range, validate_start_punct,
};
use batch_impl::bound_refs::Collector;
use batch_impl::display::{stream_display, tok_display, usize_text};
use batch_impl::fresh::FreshCounter;
use batch_impl::levels::Op;
use batch_impl::refs::{parse_range_literal, parse_single_ref_token, FreshEnd, FreshRef};
use batch_impl::text::parse_unsigned_exec;
use batch_impl::scan::{contains_punct, is_single_colon, scan_stop, scan_with, Cursor};
use batch_impl::token::{Delim, Spacing, Tok};
use batch_impl::trailing::{split_trailing_body, strip_attachments, Attachment};
use batch_impl::ty::TyPrefix;
use batch_impl::trait_bounds::{extract_trait_bounds, TraitParam, WherePred};

fn to_toks(ts: proc_macro2::TokenStream) -> Vec<Tok> {
    ts.into_iter()
        .map(|tt| match tt {
            proc_macro2::TokenTree::Ident(id) => Tok::Ident(id.to_string()),
            proc_macro2::TokenTree::Punct(p) => Tok::Punct(
                p.as_char(),
                match p.spacing() {
                    proc_macro2::Spacing::Alone => Spacing::Alone,
                    proc_macro2::Spacing::Joint => Spacing::Joint,
                },
            ),
            proc_macro2::TokenTree::Literal(l) => Tok::Literal(l.to_string()),
            proc_macro2::TokenTree::Group(g) => Tok::Group(
                match g.delimiter() {
                    proc_macro2::Delimiter::Parenthesis => Delim::Paren,
                    proc_macro2::Delimiter::Bracket => Delim::Bracket,
                    proc_macro2::Delimiter::Brace => Delim::Brace,
                    proc_macro2::Delimiter::None => Delim::Invisible,
                },
                to_toks(g.stream()),
            ),
        })
        .collect()
}

fn to_stream(toks: &[Tok]) -> proc_macro2::TokenStream {
    toks.iter()
        .map(|t| -> proc_macro2::TokenTree {
            match t {
                Tok::Ident(s) => proc_macro2::Ident::new(s, proc_macro2::Span::call_site()).into(),
                Tok::Punct(c, sp) => proc_macro2::Punct::new(
                    *c,
                    match sp {
                        Spacing::Alone => proc_macro2::Spacing::Alone,
                        Spacing::Joint => proc_macro2::Spacing::Joint,
                    },
                )
                .into(),
                Tok::Literal(s) => s.parse::<proc_macro2::TokenStream>().unwrap().into_iter().next().unwrap(),
                Tok::Group(d, inner) => proc_macro2::Group::new(
                    match d {
                        Delim::Paren => proc_macro2::Delimiter::Parenthesis,
                        Delim::Bracket => proc_macro2::Delimiter::Bracket,
                        Delim::Brace => proc_macro2::Delimiter::Brace,
                        Delim::Invisible => proc_macro2::Delimiter::None,
                    },
                    to_stream(inner),
                )
                .into(),
            }
        })
        .collect()
}

fn toks(s: &str) -> Vec<Tok> {
    to_toks(s.parse::<proc_macro2::TokenStream>().unwrap())
}

fn render(v: &[Tok]) -> String {
    to_stream(v).to_string()
}

#[test]
fn scan_stops_skip_arrow_dashes() {
    let t = toks("a -> b - c");
    assert_eq!(scan_with(&t, &['-']), Some(4));
    assert_eq!(scan_stop(&t, &['^', ',']), None);
    assert_eq!(scan_with(&toks("x, y; z"), &[',', ';']), Some(1));
}

#[test]
fn single_colons() {
    let t = toks("a::b: c");
    assert!(!is_single_colon(&t, 1));
    assert!(!is_single_colon(&t, 2));
    assert!(is_single_colon(&t, 4));
    assert!(!is_single_colon(&t, 0));
    assert!(contains_punct(&t, ':'));
    assert!(!contains_punct(&t, ';'));
}

#[test]
fn cursor_walks_segments() {
    let t = toks("A, B; C");
    let mut c = Cursor::new(&t);
    assert!(!c.at_end());
    let seg = c.take_segment(&[';']);
    assert_eq!(render(seg), "A , B");
    assert!(c.is_punct(';'));
    c.bump();
    assert!(c.prev_is_punct(';'));
    assert_eq!(c.pos(), 4);
    assert_eq!(render(c.slice_since(3)), ";");
    assert!(matches!(c.peek(), Some(Tok::Ident(s)) if s == "C"));
    assert!(c.peek_at(1).is_none());
    assert_eq!(render(c.take_rest()), "C");
    assert!(c.at_end());
}

#[test]
fn position_reference_literals() {
    assert_eq!(parse_range_literal("3"), Some((None, 3)));
    assert_eq!(parse_range_literal("1_2"), Some((Some(1), 2)));
    assert_eq!(parse_range_literal("1_x"), None);
    assert_eq!(parse_range_literal("1_2_3"), None);
    assert_eq!(parse_range_literal("x"), None);
    assert_eq!(parse_range_literal("+4"), Some((None, 4)));
    assert_eq!(
        parse_single_ref_token("0_1"),
        Some(FreshRef { group: Some(0), start: 1, end: FreshEnd::Single })
    );
    assert_eq!(parse_single_ref_token("7"), Some(FreshRef { group: None, start: 7, end: FreshEnd::Single }));
    assert_eq!(parse_single_ref_token("99999999999999999999999"), None);
}

#[test]
fn printed_forms() {
    assert_eq!(usize_text(0), "0");
    assert_eq!(usize_text(1207), "1207");
    assert_eq!(parse_unsigned_exec(usize_text(1207).as_str(), u64::MAX), Some(1207));
    assert_eq!(parse_unsigned_exec(usize_text(0).as_str(), 5), Some(0));
    let t = toks("Vec<T> :: new ( ) { a } [ ] -> x");
    assert_eq!(stream_display(&t), render(&t));
    assert_eq!(stream_display(&toks("{}")), "{ }");
    assert_eq!(tok_display(&Tok::Group(Delim::Invisible, toks("a b"))), "a b");
}

#[test]
fn precedence_levels() {
    assert!(matches!(Op::Semi.next(), Some(Op::Comma)));
    assert!(matches!(Op::Caret.next(), Some(Op::Prim)));
    assert!(Op::Prim.next().is_none());
    assert_eq!(Op::Semi.stop_chars(), &[',', ';']);
    assert_eq!(Op::Caret.stop_chars(), &['^', '-', ',']);
    assert!(Op::Prim.stop_chars().is_empty());
}

#[test]
fn fresh_parameters_are_numbered() {
    let mut c = FreshCounter::new();
    assert_eq!(render(&[c.fresh_param()]), "_Param_0_BatchGen_");
    assert_eq!(render(&[c.fresh_param()]), "_Param_1_BatchGen_");
    c.reset_fresh_counter();
    assert_eq!(render(&[c.fresh_param()]), "_Param_0_BatchGen_");
}

#[test]
fn collector_respects_binders() {
    let types = vec!["T".to_string(), "N".to_string()];
    let lts = vec!["'a".to_string()];
    let mut c = Collector::new(&types, &lts);
    assert!(!c.in_hrtb("'a"));
    c.visit_type_path(Some("T"));
    c.visit_type_path(Some("Item"));
    c.visit_type_path(None);
    c.visit_expr(Some("N"));
    assert!(c.push_hrtb(Some(vec!["'a".to_string()])));
    assert!(c.in_hrtb("'a"));
    c.visit_lifetime("'a");
    c.pop_hrtb();
    assert!(!c.push_hrtb(None));
    c.visit_lifetime("'a");
    c.visit_lifetime("'b");
    assert_eq!(c.into_refs(), ["T", "N", "'a"]);
}

#[test]
fn bare_parameter_predicates_merge_into_bounds() {
    let params = vec![
        TraitParam { name: "T".to_string(), bound: Some(toks("Clone")), refs: vec![] },
        TraitParam { name: "U".to_string(), bound: None, refs: vec![] },
    ];
    let preds = vec![
        WherePred {
            tokens: toks("T: Send"),
            bounded_param: Some("T".to_string()),
            bounds: toks("Send"),
            bound_refs: vec![],
            refs: vec!["T".to_string()],
        },
        WherePred {
            tokens: toks("U: Into<T>"),
            bounded_param: Some("U".to_string()),
            bounds: toks("Into<T>"),
            bound_refs: vec!["T".to_string()],
            refs: vec!["U".to_string(), "T".to_string()],
        },
        WherePred {
            tokens: toks("T::Item: Copy"),
            bounded_param: None,
            bounds: toks("Copy"),
            bound_refs: vec![],
            refs: vec!["T".to_string()],
        },
    ];
    let b = extract_trait_bounds(params, &preds);
    assert_eq!(render(b.params[0].bound.as_ref().unwrap()), "Clone + Send");
    assert_eq!(render(b.params[1].bound.as_ref().unwrap()), "Into < T >");
    assert_eq!(b.params[1].refs, ["T"]);
    assert_eq!(b.extra_predicates.len(), 1);
    assert_eq!(render(&b.extra_predicates[0].0), "T :: Item : Copy");
    assert_eq!(b.extra_predicates[0].1, ["T"]);
}

fn refs_of(s: &str) -> Result<Vec<RefTok>, String> {
    resolve_at_refs(&toks(s)).map_err(|d| d.message)
}

fn only_ref(v: &[RefTok]) -> FreshRef {
    match v {
        [RefTok::Ref(r)] => *r,
        other => panic!("expected one reference, got {:?}", other),
    }
}

#[test]
fn position_references_resolve() {
    assert_eq!(only_ref(&refs_of("@0").unwrap()), FreshRef { group: None, start: 0, end: FreshEnd::Single });
    assert_eq!(only_ref(&refs_of("@1_2").unwrap()), FreshRef { group: Some(1), start: 2, end: FreshEnd::Single });
    assert_eq!(only_ref(&refs_of("@0..").unwrap()), FreshRef { group: None, start: 0, end: FreshEnd::Open });
    assert_eq!(only_ref(&refs_of("@0..3").unwrap()), FreshRef { group: None, start: 0, end: FreshEnd::Closed(2) });
    assert_eq!(only_ref(&refs_of("@1..=2").unwrap()), FreshRef { group: None, start: 1, end: FreshEnd::Closed(2) });
    assert_eq!(
        only_ref(&refs_of("@2_0..=1").unwrap()),
        FreshRef { group: Some(2), start: 0, end: FreshEnd::Closed(1) }
    );
}

#[test]
fn references_inside_groups_and_carriers() {
    let v = refs_of("Box<(u8, @1)>").unwrap();
    assert_eq!(v.len(), 4);
    assert!(matches!(&v[0], RefTok::Tok(Tok::Ident(b)) if b == "Box"));
    match &v[2] {
        RefTok::Group(Delim::Paren, inner) => {
            assert_eq!(inner.len(), 3);
            assert!(matches!(&inner[2], RefTok::Ref(FreshRef { group: None, start: 1, end: FreshEnd::Single })));
        }
        other => panic!("expected the paren group, got {:?}", other),
    }
    let carrier = refs_of("@{x}").unwrap();
    assert_eq!(carrier.len(), 2);
    assert!(matches!(&carrier[1], RefTok::Tok(Tok::Group(Delim::Brace, _))));
}

#[test]
fn malformed_references_are_errors() {
    let digit = "batch-impl: `@` in a type must be a position digit (e.g. `@0` or `@0_1`)";
    assert_eq!(refs_of("@x").unwrap_err(), digit);
    assert_eq!(refs_of("u8 @").unwrap_err(), digit);
    assert_eq!(
        refs_of("@\"a\"").unwrap_err(),
        "batch-impl: `@` in a type must be followed by a position digit (e.g. `@0` or `@0_1`)"
    );
    assert_eq!(
        refs_of("@0..\"x\"").unwrap_err(),
        "batch-impl: a `@N..M` range must end with a number (e.g. `@0..=2`)"
    );
    assert_eq!(
        refs_of("@2..1").unwrap_err(),
        "batch-impl: empty exclusive range `@{}..{}` (start not below end)"
    );
    assert_eq!(refs_of("(a, [@y])").unwrap_err(), digit);
}

#[test]
fn trailing_blocks_split_by_kind() {
    let b = split_trailing_body(&toks("u8 {fn m() {}}"));
    assert_eq!((b.rest, b.is_where, b.is_impl), (1, false, false));
    assert_eq!(render(b.body.as_ref().unwrap()), "fn m () { }");
    let w = split_trailing_body(&toks("u8 where{T: Clone}"));
    assert_eq!((w.rest, w.is_where, w.is_impl), (1, true, false));
    assert_eq!(render(w.body.as_ref().unwrap()), "T : Clone");
    let i = split_trailing_body(&toks("u8 impl{Box}"));
    assert_eq!((i.rest, i.is_where, i.is_impl), (1, false, true));
    let m = split_trailing_body(&toks("m!{x}"));
    assert_eq!(m.rest, 3);
    assert!(m.body.is_none());
    let plain = split_trailing_body(&toks("u8"));
    assert_eq!(plain.rest, 1);
    assert!(plain.body.is_none());
}

#[test]
fn attachments_strip_outside_in() {
    let tokens = toks("Vec<T> {body} where{T: Clone} impl{X}");
    let (attaches, rest) = strip_attachments(&tokens);
    assert_eq!(rest, 4);
    assert_eq!(attaches.len(), 3);
    assert!(matches!(&attaches[0], Attachment::Impl(v) if render(v) == "X"));
    assert!(matches!(&attaches[1], Attachment::Where(v) if render(v) == "T : Clone"));
    assert!(matches!(&attaches[2], Attachment::Code(v) if render(v) == "body"));
    let (none, all) = strip_attachments(&toks("m!{x}"));
    assert!(none.is_empty());
    assert_eq!(all, 3);
}

#[test]
fn block_openers() {
    for s in ["u8", "1", "(a)", "&", "*", "?", "!", "@", "#"] {
        assert!(starts_block(&toks(s)[0]), "{s} opens a block");
    }
    assert!(starts_block(&toks("'a")[0]));
    for s in [".", ",", ";", "-", ":", "+", ">", "="] {
        assert!(!starts_block(&toks(s)[0]), "{s} does not open a block");
    }
}

#[test]
fn cursor_lookaheads() {
    let t = toks("-> u8");
    assert!(cursor_is_arrow(&Cursor::new(&t)));
    let t = toks("- > u8");
    assert!(!cursor_is_arrow(&Cursor::new(&t)));
    let t = toks("'a mut");
    assert!(cursor_is_lifetime(&Cursor::new(&t)));
    let t = toks("0..3");
    let mut c = Cursor::new(&t);
    c.bump();
    assert!(cursor_is_dotdot(&c));
    let t = toks(". .");
    assert!(!cursor_is_dotdot(&Cursor::new(&t)));
    let t = toks("u8 where {x}");
    let c = Cursor::new(&t);
    assert!(peek_ident_at(&c, 1, "where"));
    assert!(!peek_ident_at(&c, 0, "where"));
    assert!(!cursor_at_attachment(&c));
    let mut c = Cursor::new(&t);
    c.bump();
    assert!(cursor_at_attachment(&c));
    let t = toks("impl X");
    assert!(!cursor_at_attachment(&Cursor::new(&t)));
    let t = toks("{body}");
    assert!(cursor_at_attachment(&Cursor::new(&t)));
}

#[test]
fn lone_splats_and_attributes() {
    assert!(lone_splat(&toks("*(a, b)")));
    assert!(lone_splat(&toks("*[a, b]")));
    assert!(!lone_splat(&toks("*{a}")));
    assert!(!lone_splat(&toks("*(a) , b")));
    let t = toks("#[derive(Debug)] u8");
    let (content, k) = parse_attribute(&t).unwrap();
    assert_eq!(render(&content), "derive (Debug)");
    assert_eq!(k, 2);
    assert!(parse_attribute(&toks("#(x) u8")).is_none());
    assert!(parse_attribute(&toks("u8")).is_none());
}

#[test]
fn type_prefixes_split_off() {
    assert_eq!(parse_prefix(&toks("&mut u8")), Some((TyPrefix::RefMut, 2)));
    assert_eq!(parse_prefix(&toks("& u8")), Some((TyPrefix::Ref, 1)));
    assert_eq!(parse_prefix(&toks("*const T")), Some((TyPrefix::PtrConst, 2)));
    assert_eq!(parse_prefix(&toks("*mut T")), Some((TyPrefix::PtrMut, 2)));
    assert_eq!(parse_prefix(&toks("self u8")), Some((TyPrefix::SelfType, 1)));
    assert_eq!(parse_prefix(&toks("unsafe fn()")), Some((TyPrefix::Unsafe, 1)));
    assert_eq!(parse_prefix(&toks("*[a]")), None);
    assert_eq!(parse_prefix(&toks("u8")), None);
}

#[test]
fn range_atoms() {
    assert_eq!(parse_range(&toks("0..3")).unwrap().unwrap(), (0, 3, false));
    assert_eq!(parse_range(&toks("1..=4")).unwrap().unwrap(), (1, 4, true));
    assert!(parse_range(&toks("0..x")).is_none());
    assert!(parse_range(&toks("u8")).is_none());
    assert!(parse_range(&toks("0..3 u8")).is_none());
    assert_eq!(parse_range(&toks("1.5..3")).unwrap().unwrap_err().message, "batch-impl: range start must be an integer");
    assert_eq!(parse_range(&toks("0u8..3")).unwrap().unwrap_err().message, "batch-impl: range start must be an integer");
    assert_eq!(parse_range(&toks("0..\"x\"")).unwrap().unwrap_err().message, "batch-impl: range end must be an integer");
    assert_eq!(
        parse_range(&toks("0..99999999999999999999999")).unwrap().unwrap_err().message,
        "batch-impl: range end must be an integer"
    );
}

#[test]
fn stray_punctuation_in_a_type() {
    assert!(validate_range(&toks("A..B")).unwrap().message.contains("needs integer endpoints"));
    assert!(validate_range(&toks("Vec<u8>")).is_none());
    assert!(validate_start_punct(&toks("+Send")).unwrap().message.contains("not valid at the start of a type"));
    assert!(validate_start_punct(&toks("?Sized")).is_some());
    assert!(validate_start_punct(&toks("..")).is_none());
    assert!(validate_start_punct(&toks("u8")).is_none());
}
