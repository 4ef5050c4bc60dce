//! `@` constant source context: which sources `expand_consts` resolves
//! against (built-in families everywhere; the trait-aware constants only
//! where a trait is known; the user table only in `batch_trait!`).
use vstd::prelude::*;

use crate::token::{Tok, TokV, copy_toks, tvs};
use crate::trait_items::TraitDef;

verus! {

/// The user constants of `batch_trait!` (`@name=value;`), by name. A later
/// definition of the same name replaces the earlier one.
#[derive(Debug)]
pub struct UserConsts {
    entries: Vec<(String, Vec<Tok>)>,
}

pub closed spec fn table_map(e: Seq<(String, Vec<Tok>)>, n: int) -> Map<Seq<char>, Seq<TokV>>
    decreases n,
{
    if n <= 0 {
        Map::empty()
    } else {
        table_map(e, n - 1).insert(e[n - 1].0@, tvs(e[n - 1].1@))
    }
}

impl View for UserConsts {
    type V = Map<Seq<char>, Seq<TokV>>;

    closed spec fn view(&self) -> Map<Seq<char>, Seq<TokV>> {
        table_map(self.entries@, self.entries@.len() as int)
    }
}

proof fn lemma_table_lookup(e: Seq<(String, Vec<Tok>)>, n: int, k: int, key: Seq<char>)
    requires
        0 <= k < n <= e.len(),
        e[k].0@ == key,
        forall|j: int| k < j < n ==> e[j].0@ != key,
    ensures
        table_map(e, n).contains_key(key),
        table_map(e, n)[key] == tvs(e[k].1@),
    decreases n,
{
    if n - 1 > k {
        lemma_table_lookup(e, n - 1, k, key);
    }
}

proof fn lemma_table_absent(e: Seq<(String, Vec<Tok>)>, n: int, key: Seq<char>)
    requires
        0 <= n <= e.len(),
        forall|j: int| 0 <= j < n ==> e[j].0@ != key,
    ensures
        !table_map(e, n).contains_key(key),
    decreases n,
{
    if n > 0 {
        lemma_table_absent(e, n - 1, key);
    }
}

impl UserConsts {
    /// An empty table.
    pub fn new() -> (t: UserConsts)
        ensures
            t@ == Map::<Seq<char>, Seq<TokV>>::empty(),
    {
        UserConsts { entries: Vec::new() }
    }

    /// Defines (or redefines) `name`.
    pub fn insert(&mut self, name: String, value: Vec<Tok>)
        ensures
            final(self)@ == old(self)@.insert(name@, tvs(value@)),
    {
        let ghost e = self.entries@;
        self.entries.push((name, value));
        assert(self.entries@.drop_last() =~= e);
        assert(table_map(self.entries@, self.entries@.len() as int) == table_map(e, e.len() as int).insert(
            name@,
            tvs(value@),
        )) by {
            assert(table_map(self.entries@, e.len() as int) == table_map(e, e.len() as int)) by {
                lemma_table_prefix(self.entries@, e, e.len() as int);
            }
        }
    }

    /// The value of `name`, if defined.
    pub fn get(&self, name: &str) -> (r: Option<&Vec<Tok>>)
        ensures
            r matches Some(v) ==> self@.contains_key(name@) && self@[name@] == tvs(v@),
            r is None ==> !self@.contains_key(name@),
    {
        let key = String::from_str(name);
        let n = self.entries.len();
        let mut k = n;
        while k > 0
            invariant
                k <= n,
                n == self.entries@.len(),
                key@ == name@,
                forall|j: int| k <= j < n ==> self.entries@[j].0@ != name@,
            decreases k,
        {
            k -= 1;
            if self.entries[k].0 == key {
                proof {
                    lemma_table_lookup(self.entries@, n as int, k as int, name@);
                }
                return Some(&self.entries[k].1);
            }
        }
        proof {
            lemma_table_absent(self.entries@, n as int, name@);
        }
        None
    }

    /// Whether `name` is defined.
    pub fn contains_key(&self, name: &str) -> (b: bool)
        ensures
            b == self@.contains_key(name@),
    {
        self.get(name).is_some()
    }
}

proof fn lemma_table_prefix(a: Seq<(String, Vec<Tok>)>, b: Seq<(String, Vec<Tok>)>, n: int)
    requires
        0 <= n <= a.len(),
        n <= b.len(),
        forall|j: int| 0 <= j < n ==> a[j] == b[j],
    ensures
        table_map(a, n) == table_map(b, n),
    decreases n,
{
    if n > 0 {
        lemma_table_prefix(a, b, n - 1);
    }
}

/// Source context for `@` constants.
///
/// `Attribute` (`#[batch_impl]` / `#[batch_impl_only]`): built-in and
/// trait-aware constants (`@trait` expands to `trait_full_path`; the `@all`
/// family and generic-parameter families read `trait_def`). `ItemImpl`
/// (`#[batch_impl(spec)] impl ...`): built-in families; `@trait` is the
/// impl's own trait path (absent on an inherent impl). `Trait`
/// (`batch_trait!`): built-in constants and the user table.
#[derive(Clone, Copy)]
pub enum ConstCtx<'a> {
    Attribute { trait_def: &'a TraitDef, trait_full_path: &'a [Tok] },
    ItemImpl { trait_path: Option<&'a [Tok]> },
    Trait { user_table: &'a UserConsts },
}

impl<'a> ConstCtx<'a> {
    /// The user constant table (`batch_trait!` only).
    pub fn user_table(&self) -> (r: Option<&'a UserConsts>)
        ensures
            r == match *self {
                ConstCtx::Trait { user_table } => Some(user_table),
                _ => None,
            },
    {
        match self {
            ConstCtx::Trait { user_table } => Some(*user_table),
            _ => None,
        }
    }

    /// The trait definition (attribute entries only).
    pub fn trait_def(&self) -> (r: Option<&'a TraitDef>)
        ensures
            r == match *self {
                ConstCtx::Attribute { trait_def, .. } => Some(trait_def),
                _ => None,
            },
    {
        match self {
            ConstCtx::Attribute { trait_def, .. } => Some(*trait_def),
            _ => None,
        }
    }

    /// The full trait path (`batch_impl`: the local name; `batch_impl_only`:
    /// the external path; the impl entry: the impl's own trait path).
    pub fn trait_full_path(&self) -> (r: Option<&'a [Tok]>)
        ensures
            r == match *self {
                ConstCtx::Attribute { trait_full_path, .. } => Some(trait_full_path),
                ConstCtx::ItemImpl { trait_path } => trait_path,
                ConstCtx::Trait { .. } => None,
            },
    {
        match self {
            ConstCtx::Attribute { trait_full_path, .. } => Some(*trait_full_path),
            ConstCtx::ItemImpl { trait_path } => *trait_path,
            ConstCtx::Trait { .. } => None,
        }
    }

    /// Whether this is the impl entry.
    pub fn is_item_impl(&self) -> (b: bool)
        ensures
            b == (*self is ItemImpl),
    {
        matches!(self, ConstCtx::ItemImpl { .. })
    }
}

} // verus!
