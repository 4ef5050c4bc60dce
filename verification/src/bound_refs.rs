//! Which of the trait's generic parameters a bound or a where predicate
//! refers to. The syntax tree walk lives with the parser; at each node it
//! reports what it found, and [`Collector`] decides:
//!
//! - a one-segment path (`T`) in a type or an expression is a reference
//!   when it names a type or const parameter;
//! - a lifetime is a reference when it names a lifetime parameter and no
//!   enclosing `for<...>` binder declares it (binder lifetimes are local).
use crate::text::strs_view;
use vstd::prelude::*;

verus! {

/// The reference collector.
pub struct Collector<'a> {
    type_const_names: &'a [String],
    lt_names: &'a [String],
    hrtb: Vec<Vec<String>>,
    refs: Vec<String>,
}

fn contains_str(names: &[String], x: &str) -> (b: bool)
    ensures
        b == strs_view(names@).contains(x@),
{
    let t = String::from_str(x);
    let mut k: usize = 0;
    while k < names.len()
        invariant
            k <= names@.len(),
            t@ == x@,
            forall|j: int| 0 <= j < k ==> names@[j]@ != x@,
        decreases names@.len() - k,
    {
        if names[k] == t {
            assert(strs_view(names@)[k as int] == x@);
            return true;
        }
        k += 1;
    }
    assert forall|j: int| 0 <= j < strs_view(names@).len() implies strs_view(names@)[j] != x@ by {
        assert(strs_view(names@)[j] == names@[j]@);
    }
    false
}

impl<'a> Collector<'a> {
    /// Only parameter names are ever collected.
    #[verifier::type_invariant]
    closed spec fn refs_are_parameters(&self) -> bool {
        forall|i: int|
            0 <= i < self.refs@.len() ==> strs_view(self.type_const_names@).contains(
                #[trigger] self.refs@[i]@,
            ) || strs_view(self.lt_names@).contains(self.refs@[i]@)
    }

    /// The names of the type and const parameters.
    pub closed spec fn type_names(&self) -> Seq<Seq<char>> {
        strs_view(self.type_const_names@)
    }

    /// The names of the lifetime parameters (with their `'`).
    pub closed spec fn lifetime_names(&self) -> Seq<Seq<char>> {
        strs_view(self.lt_names@)
    }

    /// The `for<...>` binders currently open, innermost last.
    pub closed spec fn binders(&self) -> Seq<Seq<Seq<char>>> {
        Seq::new(self.hrtb@.len(), |i: int| strs_view(self.hrtb@[i]@))
    }

    /// The references collected so far, in order.
    pub closed spec fn collected(&self) -> Seq<Seq<char>> {
        strs_view(self.refs@)
    }

    /// Whether `name` is declared by an open binder.
    pub open spec fn bound_here(&self, name: Seq<char>) -> bool {
        exists|i: int| 0 <= i < self.binders().len() && self.binders()[i].contains(name)
    }

    pub fn new(type_const_names: &'a [String], lt_names: &'a [String]) -> (c: Self)
        ensures
            c.type_names() == strs_view(type_const_names@),
            c.lifetime_names() == strs_view(lt_names@),
            c.binders().len() == 0,
            c.collected().len() == 0,
    {
        let c = Collector { type_const_names, lt_names, hrtb: Vec::new(), refs: Vec::new() };
        assert(c.binders() =~= Seq::<Seq<Seq<char>>>::empty());
        assert(c.collected() =~= Seq::<Seq<char>>::empty());
        c
    }

    /// Whether an open `for<...>` binder declares `name`.
    pub fn in_hrtb(&self, name: &str) -> (b: bool)
        ensures
            b == self.bound_here(name@),
    {
        let mut i: usize = 0;
        while i < self.hrtb.len()
            invariant
                i <= self.hrtb@.len(),
                forall|j: int| 0 <= j < i ==> !self.binders()[j].contains(name@),
            decreases self.hrtb@.len() - i,
        {
            if contains_str(self.hrtb[i].as_slice(), name) {
                assert(self.binders()[i as int] == strs_view(self.hrtb@[i as int]@));
                return true;
            }
            assert(self.binders()[i as int] == strs_view(self.hrtb@[i as int]@));
            i += 1;
        }
        false
    }

    /// Opens the binder of a `for<...>` (its lifetimes, with `'`); `None`
    /// when the node has none. Returns whether a binder was opened.
    pub fn push_hrtb(&mut self, lifetimes: Option<Vec<String>>) -> (pushed: bool)
        ensures
            pushed == lifetimes is Some,
            final(self).type_names() == old(self).type_names(),
            final(self).lifetime_names() == old(self).lifetime_names(),
            final(self).collected() == old(self).collected(),
            final(self).binders() == match lifetimes {
                Some(set) => old(self).binders().push(strs_view(set@)),
                None => old(self).binders(),
            },
    {
        match lifetimes {
            Some(set) => {
                proof {
                    use_type_invariant(&*self);
                }
                let ghost b0 = self.binders();
                let ghost sv = strs_view(set@);
                let mut h: Vec<Vec<String>> = Vec::new();
                std::mem::swap(&mut h, &mut self.hrtb);
                h.push(set);
                self.hrtb = h;
                assert(self.binders() =~= b0.push(sv));
                true
            },
            None => false,
        }
    }

    /// Closes the innermost binder.
    pub fn pop_hrtb(&mut self)
        ensures
            final(self).type_names() == old(self).type_names(),
            final(self).lifetime_names() == old(self).lifetime_names(),
            final(self).collected() == old(self).collected(),
            final(self).binders() == (if old(self).binders().len() > 0 {
                old(self).binders().drop_last()
            } else {
                old(self).binders()
            }),
    {
        proof {
            use_type_invariant(&*self);
        }
        let ghost b0 = self.binders();
        let mut h: Vec<Vec<String>> = Vec::new();
        std::mem::swap(&mut h, &mut self.hrtb);
        let _ = h.pop();
        self.hrtb = h;
        assert(self.binders() =~= (if b0.len() > 0 {
            b0.drop_last()
        } else {
            b0
        }));
    }

    /// A type path; `single` is its identifier when it is a single segment
    /// without arguments or qualified self.
    pub fn visit_type_path(&mut self, single: Option<&str>)
        ensures
            final(self).type_names() == old(self).type_names(),
            final(self).lifetime_names() == old(self).lifetime_names(),
            final(self).binders() == old(self).binders(),
            final(self).collected() == match single {
                Some(x) => if old(self).type_names().contains(x@) {
                    old(self).collected().push(x@)
                } else {
                    old(self).collected()
                },
                None => old(self).collected(),
            },
    {
        self.note_single(single);
    }

    /// An expression (a const argument or an array length); `single` as in
    /// [`Collector::visit_type_path`].
    pub fn visit_expr(&mut self, single: Option<&str>)
        ensures
            final(self).type_names() == old(self).type_names(),
            final(self).lifetime_names() == old(self).lifetime_names(),
            final(self).binders() == old(self).binders(),
            final(self).collected() == match single {
                Some(x) => if old(self).type_names().contains(x@) {
                    old(self).collected().push(x@)
                } else {
                    old(self).collected()
                },
                None => old(self).collected(),
            },
    {
        self.note_single(single);
    }

    fn note_single(&mut self, single: Option<&str>)
        ensures
            final(self).type_names() == old(self).type_names(),
            final(self).lifetime_names() == old(self).lifetime_names(),
            final(self).binders() == old(self).binders(),
            final(self).collected() == match single {
                Some(x) => if old(self).type_names().contains(x@) {
                    old(self).collected().push(x@)
                } else {
                    old(self).collected()
                },
                None => old(self).collected(),
            },
    {
        if let Some(x) = single {
            if contains_str(self.type_const_names, x) {
                proof {
                    use_type_invariant(&*self);
                }
                let ghost r0 = self.collected();
                let mut r: Vec<String> = Vec::new();
                std::mem::swap(&mut r, &mut self.refs);
                r.push(String::from_str(x));
                assert(strs_view(r@) =~= r0.push(x@));
                self.refs = r;
                assert(self.collected() =~= r0.push(x@));
            }
        }
    }

    /// A lifetime (with its `'`).
    pub fn visit_lifetime(&mut self, name: &str)
        ensures
            final(self).type_names() == old(self).type_names(),
            final(self).lifetime_names() == old(self).lifetime_names(),
            final(self).binders() == old(self).binders(),
            final(self).collected() == (if !old(self).bound_here(name@)
                && old(self).lifetime_names().contains(name@) {
                old(self).collected().push(name@)
            } else {
                old(self).collected()
            }),
    {
        if !self.in_hrtb(name) && contains_str(self.lt_names, name) {
            proof {
                use_type_invariant(&*self);
            }
            let ghost r0 = self.collected();
            let mut r: Vec<String> = Vec::new();
            std::mem::swap(&mut r, &mut self.refs);
            r.push(String::from_str(name));
            assert(strs_view(r@) =~= r0.push(name@));
            self.refs = r;
            assert(self.collected() =~= r0.push(name@));
        }
    }

    /// The references collected, in order; each names a type, const or
    /// lifetime parameter.
    pub fn into_refs(self) -> (r: Vec<String>)
        ensures
            strs_view(r@) == self.collected(),
            forall|i: int|
                0 <= i < r@.len() ==> self.type_names().contains(#[trigger] r@[i]@)
                    || self.lifetime_names().contains(r@[i]@),
    {
        proof {
            use_type_invariant(&self);
        }
        self.refs
    }
}

} // verus!
