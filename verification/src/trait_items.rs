//! The annotated trait as the passes read it, and the item / generic
//! parameter lookups behind the `@all` family and the generic-parameter
//! family markers.
//!
//! [`TraitDef`] holds, as plain values, what the passes read of a trait
//! definition: each item's kind, name, default state, receiver and token
//! shape, each generic parameter's kind with its declaration and argument
//! tokens, the trait's `where` predicates and its whole tokens.
use vstd::prelude::*;

use crate::diag::{Diag, diag};
use crate::text::{cat5, strs_view};
use crate::token::{Spacing, Tok, TokV, copy_toks, group_tok_view, lemma_tvs_concat, lemma_tvs_push, tv, tvs};

verus! {

broadcast use group_tok_view;

/// The kind of a trait item.
#[derive(Clone, Copy, PartialEq, Eq, Structural, Debug)]
pub enum ItemKind {
    Fn,
    Const,
    Type,
    Other,
}

/// The receiver of a trait method (`&self` / `self` / `self: Box<Self>`).
#[derive(Clone, Copy, PartialEq, Eq, Structural, Debug)]
pub enum Receiver {
    Reference,
    Value,
    Typed,
}

/// The shape of a parameter pattern, as a forwarding call reads it.
#[derive(Debug)]
pub enum ParamPat {
    /// A plain identifier binding.
    Ident(String),
    /// `_`.
    Wild,
    /// Any other pattern.
    Other,
}

/// One typed parameter of a method: its attributes, pattern and type as
/// written, the pattern's shape, whether the pattern's tokens also work as
/// an expression (no `ref`, `x @ ..`, `..`, `_`, literal or range parts),
/// and the whole parameter as the diagnostics quote it.
#[derive(Debug)]
pub struct ParamShape {
    pub attrs: Vec<Tok>,
    pub pat: Vec<Tok>,
    pub pat_kind: ParamPat,
    pub forwardable: bool,
    pub ty: Vec<Tok>,
    pub text: String,
}

/// The tokens of a trait item around the place an implementation fills.
///
/// - A method: `head` is its outer attributes and signature up to the
///   parameter list (`fn name<generics>` with its qualifiers); `receiver`
///   and `params` the parameters; `output` the `-> Type` (or nothing);
///   `tail` the `where` clause; `inner_attrs` the inner attributes of its
///   block.
/// - A constant or a type: `head` is everything before `= default` and
///   `tail` everything after it, the `;` included; `gat_args` are the
///   generic parameters of a generic associated type.
#[derive(Debug)]
pub struct ItemShape {
    pub head: Vec<Tok>,
    pub receiver: Option<Vec<Tok>>,
    pub params: Vec<ParamShape>,
    pub output: Vec<Tok>,
    pub tail: Vec<Tok>,
    pub inner_attrs: Vec<Tok>,
    pub gat_args: Vec<Vec<Tok>>,
}

/// One trait item: kind, name, whether it has a default, (for a method)
/// its receiver (`None` for an associated function), and its shape.
#[derive(Debug)]
pub struct TraitItemInfo {
    pub kind: ItemKind,
    pub name: String,
    pub has_default: bool,
    pub receiver: Option<Receiver>,
    pub shape: ItemShape,
}

/// The kinds of generic parameter (`@all_type_params` / `@all_const_params`
/// / `@all_lifetimes`).
#[derive(Clone, Copy, PartialEq, Eq, Structural, Debug)]
pub enum GenericFilter {
    Type,
    Const,
    Lifetime,
}

/// One generic parameter of the trait with the tokens that declare it in a
/// copied `<...>` list: the name of a type parameter, the full `const N:
/// usize` of a const parameter, the lifetime with its bounds.
#[derive(Debug)]
pub struct TraitGenericParam {
    pub kind: GenericFilter,
    pub decl: Vec<Tok>,
    /// The parameter as an argument: the name (a lifetime with its `'`).
    pub name: Vec<Tok>,
}

/// What the passes read of the annotated trait.
#[derive(Debug)]
pub struct TraitDef {
    pub ident: String,
    pub items: Vec<TraitItemInfo>,
    pub generics: Vec<TraitGenericParam>,
    /// The predicates of the trait's `where` clause, if it has one.
    pub where_preds: Option<Vec<Tok>>,
    /// The whole trait definition.
    pub tokens: Vec<Tok>,
}

/// Receiver kind filter for fn items (`@all_ref_methods` etc.).
#[derive(Clone, Copy, PartialEq, Eq, Structural, Debug)]
pub enum ReceiverFilter {
    /// `&self` / `&mut self`
    Ref,
    /// `self` (by value, including typed receivers like `self: Box<Self>`)
    Value,
    /// no receiver: an associated function
    Static,
}

/// `all`-family marker → ((fn items?, const items?, type items?), default
/// filter, receiver filter).
pub type AllMarkerSpec = ((bool, bool, bool), Option<bool>, Option<ReceiverFilter>);

pub open spec fn all_marker_spec(name: Seq<char>) -> Option<AllMarkerSpec> {
    if name == "all"@ {
        Some(((true, true, true), None, None))
    } else if name == "all_methods"@ {
        Some(((true, false, false), None, None))
    } else if name == "all_constants"@ {
        Some(((false, true, false), None, None))
    } else if name == "all_types"@ {
        Some(((false, false, true), None, None))
    } else if name == "all_default"@ {
        Some(((true, true, true), Some(true), None))
    } else if name == "all_default_methods"@ {
        Some(((true, false, false), Some(true), None))
    } else if name == "all_default_constants"@ {
        Some(((false, true, false), Some(true), None))
    } else if name == "all_default_types"@ {
        Some(((false, false, true), Some(true), None))
    } else if name == "all_required"@ {
        Some(((true, true, true), Some(false), None))
    } else if name == "all_required_methods"@ {
        Some(((true, false, false), Some(false), None))
    } else if name == "all_required_constants"@ {
        Some(((false, true, false), Some(false), None))
    } else if name == "all_required_types"@ {
        Some(((false, false, true), Some(false), None))
    } else if name == "all_ref_methods"@ {
        Some(((true, false, false), None, Some(ReceiverFilter::Ref)))
    } else if name == "all_value_methods"@ {
        Some(((true, false, false), None, Some(ReceiverFilter::Value)))
    } else if name == "all_static_methods"@ {
        Some(((true, false, false), None, Some(ReceiverFilter::Static)))
    } else {
        None
    }
}

/// Resolves an `all`-family marker name (`all`, `all_methods`,
/// `all_default_types`, `all_ref_methods`, ...).
pub fn resolve_all_marker(name: &str) -> (r: Option<AllMarkerSpec>)
    ensures
        r == all_marker_spec(name@),
{
    let n = String::from_str(name);
    if crate::token::text_is(&n, "all") {
        Some(((true, true, true), None, None))
    } else if crate::token::text_is(&n, "all_methods") {
        Some(((true, false, false), None, None))
    } else if crate::token::text_is(&n, "all_constants") {
        Some(((false, true, false), None, None))
    } else if crate::token::text_is(&n, "all_types") {
        Some(((false, false, true), None, None))
    } else if crate::token::text_is(&n, "all_default") {
        Some(((true, true, true), Some(true), None))
    } else if crate::token::text_is(&n, "all_default_methods") {
        Some(((true, false, false), Some(true), None))
    } else if crate::token::text_is(&n, "all_default_constants") {
        Some(((false, true, false), Some(true), None))
    } else if crate::token::text_is(&n, "all_default_types") {
        Some(((false, false, true), Some(true), None))
    } else if crate::token::text_is(&n, "all_required") {
        Some(((true, true, true), Some(false), None))
    } else if crate::token::text_is(&n, "all_required_methods") {
        Some(((true, false, false), Some(false), None))
    } else if crate::token::text_is(&n, "all_required_constants") {
        Some(((false, true, false), Some(false), None))
    } else if crate::token::text_is(&n, "all_required_types") {
        Some(((false, false, true), Some(false), None))
    } else if crate::token::text_is(&n, "all_ref_methods") {
        Some(((true, false, false), None, Some(ReceiverFilter::Ref)))
    } else if crate::token::text_is(&n, "all_value_methods") {
        Some(((true, false, false), None, Some(ReceiverFilter::Value)))
    } else if crate::token::text_is(&n, "all_static_methods") {
        Some(((true, false, false), None, Some(ReceiverFilter::Static)))
    } else {
        None
    }
}

pub open spec fn generic_marker_spec(name: Seq<char>) -> Option<GenericFilter> {
    if name == "all_type_params"@ {
        Some(GenericFilter::Type)
    } else if name == "all_const_params"@ {
        Some(GenericFilter::Const)
    } else if name == "all_lifetimes"@ {
        Some(GenericFilter::Lifetime)
    } else {
        None
    }
}

/// Resolves a generic-parameter family marker name.
pub fn resolve_generic_marker(name: &str) -> (r: Option<GenericFilter>)
    ensures
        r == generic_marker_spec(name@),
{
    let n = String::from_str(name);
    if crate::token::text_is(&n, "all_type_params") {
        Some(GenericFilter::Type)
    } else if crate::token::text_is(&n, "all_const_params") {
        Some(GenericFilter::Const)
    } else if crate::token::text_is(&n, "all_lifetimes") {
        Some(GenericFilter::Lifetime)
    } else {
        None
    }
}

/// Whether an item passes the kind, default and receiver filters.
pub open spec fn item_selected(
    it: TraitItemInfo,
    include_fn: bool,
    include_const: bool,
    include_type: bool,
    default: Option<bool>,
    receiver: Option<ReceiverFilter>,
) -> bool {
    let kind_ok = match it.kind {
        ItemKind::Fn => include_fn,
        ItemKind::Const => include_const,
        ItemKind::Type => include_type,
        ItemKind::Other => false,
    };
    let receiver_ok = match receiver {
        Some(rf) => if it.kind == ItemKind::Fn {
            match rf {
                ReceiverFilter::Ref => it.receiver == Some(Receiver::Reference),
                ReceiverFilter::Value => it.receiver == Some(Receiver::Value) || it.receiver
                    == Some(Receiver::Typed),
                ReceiverFilter::Static => it.receiver is None,
            }
        } else {
            true
        },
        None => true,
    };
    let default_ok = match default {
        Some(d) => d == it.has_default,
        None => true,
    };
    kind_ok && receiver_ok && default_ok
}

/// The names of the selected items among the first `k`, in item order.
pub open spec fn item_names_upto(
    items: Seq<TraitItemInfo>,
    k: int,
    include_fn: bool,
    include_const: bool,
    include_type: bool,
    default: Option<bool>,
    receiver: Option<ReceiverFilter>,
) -> Seq<Seq<char>>
    decreases k,
{
    if k <= 0 {
        Seq::empty()
    } else {
        let prev = item_names_upto(
            items,
            k - 1,
            include_fn,
            include_const,
            include_type,
            default,
            receiver,
        );
        if item_selected(items[k - 1], include_fn, include_const, include_type, default, receiver) {
            prev.push(items[k - 1].name@)
        } else {
            prev
        }
    }
}

/// Some item among the first `k` is named `name` and passes the filters.
pub open spec fn selected_name(
    items: Seq<TraitItemInfo>,
    k: int,
    name: Seq<char>,
    f: bool,
    c: bool,
    t: bool,
    d: Option<bool>,
    r: Option<ReceiverFilter>,
) -> bool {
    exists|i: int| 0 <= i < k && items[i].name@ == name && #[trigger] item_selected(items[i], f, c, t, d, r)
}

proof fn lemma_names_upto_sound(
    items: Seq<TraitItemInfo>,
    k: int,
    f: bool,
    c: bool,
    t: bool,
    d: Option<bool>,
    r: Option<ReceiverFilter>,
)
    requires
        0 <= k <= items.len(),
    ensures
        forall|j: int|
            0 <= j < item_names_upto(items, k, f, c, t, d, r).len() ==> selected_name(
                items,
                k,
                #[trigger] item_names_upto(items, k, f, c, t, d, r)[j],
                f,
                c,
                t,
                d,
                r,
            ),
    decreases k,
{
    if k > 0 {
        lemma_names_upto_sound(items, k - 1, f, c, t, d, r);
        let prev = item_names_upto(items, k - 1, f, c, t, d, r);
        let cur = item_names_upto(items, k, f, c, t, d, r);
        assert forall|j: int| 0 <= j < cur.len() implies selected_name(items, k, #[trigger] cur[j], f, c, t, d, r) by {
            if j < prev.len() {
                assert(cur[j] == prev[j]);
                assert(selected_name(items, k - 1, prev[j], f, c, t, d, r));
                let i = choose|i: int|
                    0 <= i < k - 1 && items[i].name@ == prev[j] && #[trigger] item_selected(
                        items[i],
                        f,
                        c,
                        t,
                        d,
                        r,
                    );
                assert(0 <= i < k && items[i].name@ == cur[j] && item_selected(items[i], f, c, t, d, r));
            } else {
                assert(cur[j] == items[k - 1].name@);
                assert(item_selected(items[k - 1], f, c, t, d, r));
            }
        }
    }
}

proof fn lemma_names_upto_complete(
    items: Seq<TraitItemInfo>,
    k: int,
    i: int,
    f: bool,
    c: bool,
    t: bool,
    d: Option<bool>,
    r: Option<ReceiverFilter>,
)
    requires
        0 <= i < k <= items.len(),
        item_selected(items[i], f, c, t, d, r),
    ensures
        item_names_upto(items, k, f, c, t, d, r).contains(items[i].name@),
    decreases k,
{
    let cur = item_names_upto(items, k, f, c, t, d, r);
    if i == k - 1 {
        assert(cur.last() == items[i].name@);
        assert(cur[cur.len() - 1] == items[i].name@);
    } else {
        lemma_names_upto_complete(items, k - 1, i, f, c, t, d, r);
        let prev = item_names_upto(items, k - 1, f, c, t, d, r);
        let j = choose|j: int| 0 <= j < prev.len() && prev[j] == items[i].name@;
        assert(cur[j] == prev[j]);
    }
}

/// `@all_ref_methods` selects exactly the methods whose receiver is a
/// reference (`&self` / `&mut self`): every name it yields names such a
/// method of the trait, and every such method is named. A by-value
/// (`self`, `self: Box<Self>`) or associated function is never selected
/// unless a reference method shares its name.
pub proof fn law_ref_methods_are_reference_methods(td: TraitDef)
    ensures
        all_marker_spec("all_ref_methods"@) is Some,
        ({
            let m = all_marker_spec("all_ref_methods"@)->Some_0;
            let ns = item_names_upto(
                td.items@,
                td.items@.len() as int,
                m.0.0,
                m.0.1,
                m.0.2,
                m.1,
                m.2,
            );
            &&& forall|j: int|
                0 <= j < ns.len() ==> exists|i: int|
                    0 <= i < td.items@.len() && td.items@[i].name@ == #[trigger] ns[j] && td.items@[i].kind
                        == ItemKind::Fn && td.items@[i].receiver == Some(Receiver::Reference)
            &&& forall|i: int|
                0 <= i < td.items@.len() && #[trigger] td.items@[i].kind == ItemKind::Fn
                    && td.items@[i].receiver == Some(Receiver::Reference) ==> ns.contains(
                    td.items@[i].name@,
                )
        }),
{
    let items = td.items@;
    let n = items.len() as int;
    let m = all_marker_spec("all_ref_methods"@)->Some_0;
    reveal_strlit("all");
    reveal_strlit("all_methods");
    reveal_strlit("all_constants");
    reveal_strlit("all_types");
    reveal_strlit("all_default");
    reveal_strlit("all_default_methods");
    reveal_strlit("all_default_constants");
    reveal_strlit("all_default_types");
    reveal_strlit("all_required");
    reveal_strlit("all_required_methods");
    reveal_strlit("all_required_constants");
    reveal_strlit("all_required_types");
    reveal_strlit("all_ref_methods");
    assert("all"@.len() == 3);
    assert("all_ref_methods"@.len() == 15);
    assert(m == ((true, false, false), None::<bool>, Some(ReceiverFilter::Ref)));
    lemma_names_upto_sound(items, n, true, false, false, None, Some(ReceiverFilter::Ref));
    let ns = item_names_upto(items, n, true, false, false, None, Some(ReceiverFilter::Ref));
    assert forall|j: int| 0 <= j < ns.len() implies exists|i: int|
        0 <= i < n && items[i].name@ == #[trigger] ns[j] && items[i].kind == ItemKind::Fn
            && items[i].receiver == Some(Receiver::Reference) by {
        assert(selected_name(items, n, ns[j], true, false, false, None, Some(ReceiverFilter::Ref)));
        let i = choose|i: int|
            0 <= i < n && items[i].name@ == ns[j] && #[trigger] item_selected(
                items[i],
                true,
                false,
                false,
                None,
                Some(ReceiverFilter::Ref),
            );
        assert(items[i].kind == ItemKind::Fn && items[i].receiver == Some(Receiver::Reference));
    }
    assert forall|i: int|
        0 <= i < n && #[trigger] items[i].kind == ItemKind::Fn && items[i].receiver == Some(
            Receiver::Reference,
        ) implies item_names_upto(items, n, true, false, false, None, Some(ReceiverFilter::Ref)).contains(
        items[i].name@,
    ) by {
        lemma_names_upto_complete(items, n, i, true, false, false, None, Some(ReceiverFilter::Ref));
    }
}

/// Collects the trait's item names: `include_*` select the kinds; `default`
/// keeps only items with (`Some(true)`) or without (`Some(false)`) a
/// default; `receiver` filters methods by receiver kind.
pub fn get_trait_item_names(
    trait_def: &TraitDef,
    include_fn: bool,
    include_const: bool,
    include_type: bool,
    default: Option<bool>,
    receiver: Option<ReceiverFilter>,
) -> (names: Vec<String>)
    ensures
        strs_view(names@) == item_names_upto(
            trait_def.items@,
            trait_def.items@.len() as int,
            include_fn,
            include_const,
            include_type,
            default,
            receiver,
        ),
{
    let mut names: Vec<String> = Vec::new();
    let mut k: usize = 0;
    while k < trait_def.items.len()
        invariant
            k <= trait_def.items@.len(),
            strs_view(names@) == item_names_upto(
                trait_def.items@,
                k as int,
                include_fn,
                include_const,
                include_type,
                default,
                receiver,
            ),
        decreases trait_def.items@.len() - k,
    {
        let it = &trait_def.items[k];
        let kind_ok = match it.kind {
            ItemKind::Fn => include_fn,
            ItemKind::Const => include_const,
            ItemKind::Type => include_type,
            ItemKind::Other => false,
        };
        let receiver_ok = match receiver {
            Some(rf) => if it.kind == ItemKind::Fn {
                match rf {
                    ReceiverFilter::Ref => it.receiver == Some(Receiver::Reference),
                    ReceiverFilter::Value => it.receiver == Some(Receiver::Value) || it.receiver
                        == Some(Receiver::Typed),
                    ReceiverFilter::Static => it.receiver.is_none(),
                }
            } else {
                true
            },
            None => true,
        };
        let default_ok = match default {
            Some(d) => d == it.has_default,
            None => true,
        };
        if kind_ok && receiver_ok && default_ok {
            let ghost old = names@;
            names.push(it.name.clone());
            assert(strs_view(names@) =~= strs_view(old).push(it.name@));
        }
        k += 1;
    }
    names
}

/// The declarations of the parameters of kind `f` among the first `k`,
/// each followed by its `,` separator except the last (built in reverse
/// order of discovery: `acc` holds the ones found so far).
pub open spec fn generic_decls_upto(params: Seq<TraitGenericParam>, k: int, f: GenericFilter) -> Seq<
    Seq<TokV>,
>
    decreases k,
{
    if k <= 0 {
        Seq::empty()
    } else {
        let prev = generic_decls_upto(params, k - 1, f);
        if params[k - 1].kind == f {
            prev.push(tvs(params[k - 1].decl@))
        } else {
            prev
        }
    }
}

/// The items of `parts` separated by `,` (no trailing separator).
pub open spec fn comma_join(parts: Seq<Seq<TokV>>) -> Seq<TokV>
    decreases parts.len(),
{
    if parts.len() == 0 {
        Seq::empty()
    } else if parts.len() == 1 {
        parts[0]
    } else {
        comma_join(parts.drop_last()) + seq![TokV::Punct(',', Spacing::Alone)] + parts.last()
    }
}

/// The `<...>` declaration copying the trait's parameters of kind `f`.
pub open spec fn generic_decl_spec(td: TraitDef, f: GenericFilter) -> Option<Seq<TokV>> {
    let parts = generic_decls_upto(td.generics@, td.generics@.len() as int, f);
    if parts.len() == 0 {
        None
    } else {
        Some(seq![TokV::Punct('<', Spacing::Alone)] + comma_join(parts) + seq![
            TokV::Punct('>', Spacing::Alone),
        ])
    }
}

/// Builds the flat `<...>` declaration for the selected parameter kind;
/// `None` when the trait has no parameters of that kind.
pub fn get_trait_generic_decl(trait_def: &TraitDef, f: GenericFilter) -> (r: Option<Vec<Tok>>)
    ensures
        r matches Some(v) ==> generic_decl_spec(*trait_def, f) == Some(tvs(v@)),
        r is None ==> generic_decl_spec(*trait_def, f) is None,
{
    let ghost ps = trait_def.generics@;
    let mut body: Vec<Tok> = Vec::new();
    let mut count: usize = 0;
    let mut k: usize = 0;
    while k < trait_def.generics.len()
        invariant
            k <= ps.len(),
            ps == trait_def.generics@,
            count == generic_decls_upto(ps, k as int, f).len(),
            count <= k,
            tvs(body@) == comma_join(generic_decls_upto(ps, k as int, f)),
        decreases ps.len() - k,
    {
        let p = &trait_def.generics[k];
        if p.kind == f {
            let ghost old = body@;
            let ghost parts = generic_decls_upto(ps, k as int, f);
            let mut d = copy_toks(p.decl.as_slice());
            if count > 0 {
                let comma = Tok::Punct(',', Spacing::Alone);
                body.push(comma);
                proof {
                    lemma_tvs_push(old, comma);
                }
            }
            let ghost mid = body@;
            let ghost dv = d@;
            body.append(&mut d);
            proof {
                lemma_tvs_concat(mid, dv);
                let np = parts.push(tvs(p.decl@));
                assert(np.drop_last() =~= parts);
                if count == 0 {
                    assert(tvs(body@) =~= comma_join(np));
                } else {
                    assert(tvs(body@) =~= comma_join(np));
                }
            }
            count += 1;
        }
        k += 1;
    }
    if count == 0 {
        return None;
    }
    let mut out: Vec<Tok> = Vec::new();
    let lt = Tok::Punct('<', Spacing::Alone);
    out.push(lt);
    let ghost bv = body@;
    out.append(&mut body);
    let gt = Tok::Punct('>', Spacing::Alone);
    let ghost mid = out@;
    out.push(gt);
    proof {
        let e: Seq<Tok> = Seq::empty();
        lemma_tvs_push(e, lt);
        assert(e.push(lt) =~= seq![lt]);
        lemma_tvs_concat(seq![lt], bv);
        lemma_tvs_push(mid, gt);
    }
    Some(out)
}

/// The position of the item named `name` (the first fn, const or type
/// item with that name).
pub fn get_trait_item_index(trait_def: &TraitDef, name: &str) -> (r: Result<usize, Diag>)
    ensures
        r matches Ok(k) ==> k < trait_def.items@.len() && trait_def.items@[k as int].kind
            != ItemKind::Other && trait_def.items@[k as int].name@ == name@ && forall|j: int|
            0 <= j < k ==> !(trait_def.items@[j].kind != ItemKind::Other
                && trait_def.items@[j].name@ == name@),
        r matches Err(d) ==> (forall|j: int|
            0 <= j < trait_def.items@.len() ==> !(trait_def.items@[j].kind != ItemKind::Other
                && trait_def.items@[j].name@ == name@)) && d@ == "batch-impl: item `"@
            + trait_def.ident@ + "` not found in trait `"@ + name@ + "`"@,
{
    let n = String::from_str(name);
    let mut k: usize = 0;
    while k < trait_def.items.len()
        invariant
            k <= trait_def.items@.len(),
            n@ == name@,
            forall|j: int|
                0 <= j < k ==> !(trait_def.items@[j].kind != ItemKind::Other
                    && trait_def.items@[j].name@ == name@),
        decreases trait_def.items@.len() - k,
    {
        let it = &trait_def.items[k];
        if it.kind != ItemKind::Other && it.name == n {
            return Ok(k);
        }
        k += 1;
    }
    Err(Diag {
        message: cat5("batch-impl: item `", trait_def.ident.as_str(), "` not found in trait `", name, "`"),
    })
}

/// Looks up the item named `name`.
pub fn get_trait_item<'a>(trait_def: &'a TraitDef, name: &str) -> (r: Result<&'a TraitItemInfo, Diag>)
    ensures
        r matches Ok(it) ==> exists|k: int|
            0 <= k < trait_def.items@.len() && trait_def.items@[k] == *it && it.kind != ItemKind::Other
                && it.name@ == name@ && forall|j: int|
                0 <= j < k ==> !(trait_def.items@[j].kind != ItemKind::Other
                    && trait_def.items@[j].name@ == name@),
        r matches Err(d) ==> (forall|j: int|
            0 <= j < trait_def.items@.len() ==> !(trait_def.items@[j].kind != ItemKind::Other
                && trait_def.items@[j].name@ == name@)) && d@ == "batch-impl: item `"@
            + trait_def.ident@ + "` not found in trait `"@ + name@ + "`"@,
{
    match get_trait_item_index(trait_def, name) {
        Ok(k) => Ok(&trait_def.items[k]),
        Err(d) => Err(d),
    }
}

} // verus!
