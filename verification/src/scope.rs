//! One scope of the analysis: the references recorded in it, and whether the
//! code in it asks for the ambient build context.

use vstd::prelude::*;
use crate::names::Ident;
use crate::refs::{
    finalize, has_facet, has_plain_writer, ordered, settle, DollarRef, DollarRefView,
};
use crate::small::{ref_list_items, RefList};

verus! {

/// The references that a scope has recorded, and whether it uses the context.
///
/// What [`crate::ctx::DollarRefsCtx::pop_dollar_scope`] returns is the
/// manifest of the scope: the facets first, each kind sorted by name, and
/// no name twice.
#[derive(Debug, PartialEq, Eq)]
pub struct DollarRefsScope {
    pub(crate) refs: RefList,
    pub(crate) used_ctx: bool,
}

/// The mathematical value of a [`DollarRefsScope`].
pub struct ScopeView {
    pub refs: Seq<DollarRefView>,
    pub used_ctx: bool,
}

impl ScopeView {
    /// A scope in which nothing has happened yet.
    pub open spec fn empty() -> ScopeView {
        ScopeView { refs: Seq::empty(), used_ctx: false }
    }

    /// The scope after `r` was recorded.
    pub open spec fn with_ref(self, r: DollarRefView) -> ScopeView {
        ScopeView { refs: self.refs.push(r), used_ctx: self.used_ctx }
    }

    /// The scope once it is known whether code below it uses the context.
    pub open spec fn with_ctx(self, used: bool) -> ScopeView {
        ScopeView { refs: self.refs, used_ctx: self.used_ctx || used }
    }

    /// The scope with its references made into a manifest.
    pub open spec fn finalized(self) -> ScopeView {
        ScopeView { refs: finalize(self.refs), used_ctx: self.used_ctx }
    }
}

impl View for DollarRefsScope {
    type V = ScopeView;

    closed spec fn view(&self) -> ScopeView {
        ScopeView { refs: ref_list_items(self.refs), used_ctx: self.used_ctx }
    }
}

impl Default for DollarRefsScope {
    /// A scope in which nothing has happened yet.
    fn default() -> (scope: DollarRefsScope)
        ensures
            scope@ == ScopeView::empty(),
    {
        DollarRefsScope::new()
    }
}

impl DollarRefsScope {
    /// A scope in which nothing has happened yet.
    pub fn new() -> (scope: DollarRefsScope)
        ensures
            scope@ == ScopeView::empty(),
    {
        DollarRefsScope { refs: RefList::new(), used_ctx: false }
    }

    /// Whether code in the scope asks for the ambient build context.
    pub fn used_ctx(&self) -> (used: bool)
        ensures
            used == self@.used_ctx,
    {
        self.used_ctx
    }

    /// The number of references.
    pub fn len(&self) -> (n: usize)
        ensures
            n == self@.refs.len(),
    {
        self.refs.len()
    }

    /// Whether the scope holds no reference.
    pub fn is_empty(&self) -> (b: bool)
        ensures
            b == (self@.refs.len() == 0),
    {
        self.refs.len() == 0
    }

    /// The reference at place `i`.
    pub fn get(&self, i: usize) -> (r: &DollarRef)
        requires
            i < self@.refs.len(),
        ensures
            r@ == self@.refs[i as int],
    {
        self.refs.get(i)
    }

    /// A copy with the same references and the same use of the context.
    pub fn duplicate(&self) -> (scope: DollarRefsScope)
        ensures
            scope@ == self@,
    {
        DollarRefsScope { refs: copy_list(&self.refs), used_ctx: self.used_ctx }
    }

    /// Records one more reference behind the others.
    pub fn push(&mut self, r: DollarRef)
        ensures
            final(self)@ == old(self)@.with_ref(r@),
    {
        self.refs.push(r);
    }

    /// Notes that code in the scope, or below it, uses the context if `used`.
    pub fn merge_used_ctx(&mut self, used: bool)
        ensures
            final(self)@ == old(self)@.with_ctx(used),
    {
        self.used_ctx = self.used_ctx || used;
    }

    /// Makes the recorded references into a manifest: facets first, each
    /// kind sorted by name, one entry for each name, a writer where a
    /// reference of the name is written through.
    pub fn finalize(&mut self)
        ensures
            final(self)@ == old(self)@.finalized(),
    {
        let all = copy_list(&self.refs);
        self.refs.sort();
        self.refs.dedup();
        let ghost list = ref_list_items(self.refs);
        let mut settled = RefList::new();
        let n = self.refs.len();
        let mut k: usize = 0;
        while k < n
            invariant
                k <= n,
                n == list.len(),
                list == ref_list_items(self.refs),
                list == ordered(old(self)@.refs),
                ref_list_items(all) == old(self)@.refs,
                ref_list_items(settled) == settle(list, old(self)@.refs, k as int),
            decreases n - k,
        {
            let r = self.refs.get(k);
            if r.builtin.is_some() {
                let write = r.write || holds_plain_writer(&all, &r.name);
                settled.push(
                    DollarRef {
                        name: r.name.duplicate(),
                        builtin: match &r.builtin {
                            Some(b) => Some(b.duplicate()),
                            None => None,
                        },
                        write,
                    },
                );
            } else if !holds_facet(&all, &r.name) {
                settled.push(r.duplicate());
            }
            k += 1;
        }
        self.refs = settled;
    }
}

/// A copy of a list with the same references.
fn copy_list(list: &RefList) -> (copy: RefList)
    ensures
        ref_list_items(copy) == ref_list_items(*list),
{
    let mut copy = RefList::new();
    let n = list.len();
    let mut i: usize = 0;
    while i < n
        invariant
            i <= n,
            n == ref_list_items(*list).len(),
            ref_list_items(copy) == ref_list_items(*list).take(i as int),
        decreases n - i,
    {
        copy.push(list.get(i).duplicate());
        assert(ref_list_items(copy) =~= ref_list_items(*list).take(i + 1));
        i += 1;
    }
    assert(ref_list_items(*list).take(n as int) =~= ref_list_items(*list));
    copy
}

/// Whether a facet of the name of `name` stands in the list.
fn holds_facet(list: &RefList, name: &Ident) -> (found: bool)
    ensures
        found == has_facet(ref_list_items(*list), name@.name),
{
    let n = list.len();
    let mut i: usize = 0;
    while i < n
        invariant
            i <= n,
            n == ref_list_items(*list).len(),
            forall|j: int|
                0 <= j < i ==> !((#[trigger] ref_list_items(*list)[j]).builtin is Some
                    && ref_list_items(*list)[j].name.name == name@.name),
        decreases n - i,
    {
        let r = list.get(i);
        if r.builtin.is_some() && r.name.same_name(name) {
            return true;
        }
        i += 1;
    }
    false
}

/// Whether an ordinary cell of the name of `name` is written through in the
/// list.
fn holds_plain_writer(list: &RefList, name: &Ident) -> (found: bool)
    ensures
        found == has_plain_writer(ref_list_items(*list), name@.name),
{
    let n = list.len();
    let mut i: usize = 0;
    while i < n
        invariant
            i <= n,
            n == ref_list_items(*list).len(),
            forall|j: int|
                0 <= j < i ==> !((#[trigger] ref_list_items(*list)[j]).builtin is None
                    && ref_list_items(*list)[j].name.name == name@.name && ref_list_items(
                    *list,
                )[j].write),
        decreases n - i,
    {
        let r = list.get(i);
        if r.builtin.is_none() && r.write && r.name.same_name(name) {
            return true;
        }
        i += 1;
    }
    false
}

} // verus!
