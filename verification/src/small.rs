//! The three small collections of the analysis, kept inline while they hold
//! one item: the references of a scope, the stack of scopes and the stack of
//! capture levels.
//!
//! Each of them holds a `SmallVec` in a private field, which no proof looks
//! into: what a collection holds has a name, and every function below that
//! touches one is trusted to do to that content what its contract says.

use vstd::prelude::*;
use smallvec::SmallVec;
use std::cmp::Ordering;
use crate::names::{
    lemma_name_lt_asymmetric, lemma_name_lt_irreflexive, lemma_name_lt_total, str_lt,
};
use crate::refs::{manifest_order, manifest_same, sorts_before, DollarRef, DollarRefView};
use crate::scope::{DollarRefsScope, ScopeView};
use crate::sorting::{dedup_adjacent, stable_sort};

verus! {

/// The references recorded in one scope, in the order they were recorded.
///
/// Trusted: a `SmallVec` of the crate `smallvec`, known to proofs by
/// [`ref_list_items`] alone.
#[verifier::external_body]
#[derive(Debug, PartialEq, Eq)]
pub struct RefList {
    inner: SmallVec<[DollarRef; 1]>,
}

/// The values of the references that a [`RefList`] holds, first to last.
pub uninterp spec fn ref_list_items(list: RefList) -> Seq<DollarRefView>;

/// The scopes that are open, the innermost last.
///
/// Trusted: a `SmallVec` of the crate `smallvec`, known to proofs by
/// [`scope_stack_items`] alone.
#[verifier::external_body]
#[derive(Debug)]
pub struct ScopeStack {
    inner: SmallVec<[DollarRefsScope; 1]>,
}

/// The values of the scopes that a [`ScopeStack`] holds, outermost first.
pub uninterp spec fn scope_stack_items(stack: ScopeStack) -> Seq<ScopeView>;

/// For each capture level that is open, the index of its first frame of
/// local variables.
///
/// Trusted: a `SmallVec` of the crate `smallvec`, known to proofs by
/// [`head_stack_items`] alone.
#[verifier::external_body]
#[derive(Debug)]
pub struct HeadStack {
    inner: SmallVec<[usize; 1]>,
}

/// The indices that a [`HeadStack`] holds, outermost level first.
pub uninterp spec fn head_stack_items(stack: HeadStack) -> Seq<usize>;

/// How two references compare in the order of a manifest.
pub(crate) fn order_refs(a: &DollarRef, b: &DollarRef) -> (o: Ordering)
    ensures
        (o is Less) == sorts_before(a@, b@),
        (o is Greater) == sorts_before(b@, a@),
{
    let a_plain = a.builtin.is_none();
    let b_plain = b.builtin.is_none();
    if a_plain != b_plain {
        if b_plain {
            Ordering::Less
        } else {
            Ordering::Greater
        }
    } else if str_lt(a.name.name.as_str(), b.name.name.as_str()) {
        proof {
            lemma_name_lt_irreflexive(a@.name.name);
            lemma_name_lt_asymmetric(a@.name.name, b@.name.name);
        }
        Ordering::Less
    } else if str_lt(b.name.name.as_str(), a.name.name.as_str()) {
        proof {
            lemma_name_lt_irreflexive(a@.name.name);
        }
        Ordering::Greater
    } else {
        proof {
            lemma_name_lt_total(a@.name.name, b@.name.name);
        }
        if a.write == b.write {
            Ordering::Equal
        } else if a.write {
            Ordering::Less
        } else {
            Ordering::Greater
        }
    }
}

impl RefList {
    /// An empty list.
    ///
    /// Trusted: `SmallVec::new` makes a vector without elements.
    #[verifier::external_body]
    pub(crate) fn new() -> (list: RefList)
        ensures
            ref_list_items(list) == Seq::<DollarRefView>::empty(),
    {
        RefList { inner: SmallVec::new() }
    }

    /// Trusted: `SmallVec::push` appends the item behind the others.
    #[verifier::external_body]
    pub(crate) fn push(&mut self, r: DollarRef)
        ensures
            ref_list_items(*final(self)) == ref_list_items(*old(self)).push(r@),
    {
        self.inner.push(r)
    }

    /// Trusted: `SmallVec::len` is the number of elements.
    #[verifier::external_body]
    pub(crate) fn len(&self) -> (n: usize)
        ensures
            n == ref_list_items(*self).len(),
    {
        self.inner.len()
    }

    /// Trusted: indexing a `SmallVec` hands out the element at that place of
    /// its slice; it panics only behind the end.
    #[verifier::external_body]
    pub(crate) fn get(&self, i: usize) -> (r: &DollarRef)
        requires
            i < ref_list_items(*self).len(),
        ensures
            r@ == ref_list_items(*self)[i as int],
    {
        &self.inner[i]
    }

    /// Sorts the list into the order of a manifest.
    ///
    /// Trusted: `sort_by` of slices sorts by the comparison it is given and
    /// keeps the initial order of elements that compare equal. The comparison
    /// here is a total order of keys, so the sort does not panic.
    #[verifier::external_body]
    pub(crate) fn sort(&mut self)
        ensures
            ref_list_items(*final(self)) == stable_sort(
                ref_list_items(*old(self)),
                manifest_order(),
            ),
    {
        self.inner.sort_by(|a, b| order_refs(a, b))
    }

    /// Drops each reference that has the name of the one kept before it.
    ///
    /// Trusted: `SmallVec::dedup_by` walks the vector once and removes every
    /// element for which the relation holds with the last element retained.
    #[verifier::external_body]
    pub(crate) fn dedup(&mut self)
        ensures
            ref_list_items(*final(self)) == dedup_adjacent(
                ref_list_items(*old(self)),
                manifest_same(),
            ),
    {
        self.inner.dedup_by(|a, b| a.name.same_name(&b.name))
    }
}

impl ScopeStack {
    /// An empty stack.
    ///
    /// Trusted: `SmallVec::new` makes a vector without elements.
    #[verifier::external_body]
    pub(crate) fn new() -> (stack: ScopeStack)
        ensures
            scope_stack_items(stack) == Seq::<ScopeView>::empty(),
    {
        ScopeStack { inner: SmallVec::new() }
    }

    /// Trusted: `SmallVec::push` appends the item behind the others.
    #[verifier::external_body]
    pub(crate) fn push(&mut self, scope: DollarRefsScope)
        ensures
            scope_stack_items(*final(self)) == scope_stack_items(*old(self)).push(scope@),
    {
        self.inner.push(scope)
    }

    /// Trusted: `SmallVec::pop` removes the last element and returns it, or
    /// returns `None` and changes nothing when there is none.
    #[verifier::external_body]
    pub(crate) fn pop(&mut self) -> (top: Option<DollarRefsScope>)
        ensures
            match top {
                Some(scope) => scope_stack_items(*old(self)).len() > 0 && scope@
                    == scope_stack_items(*old(self)).last() && scope_stack_items(*final(self))
                    == scope_stack_items(*old(self)).drop_last(),
                None => scope_stack_items(*old(self)).len() == 0 && scope_stack_items(
                    *final(self),
                ) == scope_stack_items(*old(self)),
            },
    {
        self.inner.pop()
    }

    /// The innermost scope, if a scope is open.
    ///
    /// Trusted: `last` of the vector's slice is its last element, `None` on
    /// an empty one.
    #[verifier::external_body]
    pub(crate) fn last(&self) -> (top: Option<&DollarRefsScope>)
        ensures
            match top {
                Some(scope) => scope_stack_items(*self).len() > 0 && scope@ == scope_stack_items(
                    *self,
                ).last(),
                None => scope_stack_items(*self).len() == 0,
            },
    {
        self.inner.last()
    }

    /// Trusted: `SmallVec::len` is the number of elements.
    #[verifier::external_body]
    pub(crate) fn len(&self) -> (n: usize)
        ensures
            n == scope_stack_items(*self).len(),
    {
        self.inner.len()
    }
}

impl HeadStack {
    /// An empty stack.
    ///
    /// Trusted: `SmallVec::new` makes a vector without elements.
    #[verifier::external_body]
    pub(crate) fn new() -> (stack: HeadStack)
        ensures
            head_stack_items(stack) == Seq::<usize>::empty(),
    {
        HeadStack { inner: SmallVec::new() }
    }

    /// Trusted: `SmallVec::push` appends the item behind the others.
    #[verifier::external_body]
    pub(crate) fn push(&mut self, head: usize)
        ensures
            head_stack_items(*final(self)) == head_stack_items(*old(self)).push(head),
    {
        self.inner.push(head)
    }

    /// Trusted: `SmallVec::pop` removes the last element and returns it, or
    /// returns `None` and changes nothing when there is none.
    #[verifier::external_body]
    pub(crate) fn pop(&mut self) -> (top: Option<usize>)
        ensures
            match top {
                Some(head) => head_stack_items(*old(self)).len() > 0 && head == head_stack_items(
                    *old(self),
                ).last() && head_stack_items(*final(self)) == head_stack_items(
                    *old(self),
                ).drop_last(),
                None => head_stack_items(*old(self)).len() == 0 && head_stack_items(*final(self))
                    == head_stack_items(*old(self)),
            },
    {
        self.inner.pop()
    }

    /// The innermost level's index, if a level is open.
    ///
    /// Trusted: `last` of the vector's slice is its last element, `None` on
    /// an empty one.
    #[verifier::external_body]
    pub(crate) fn last(&self) -> (top: Option<usize>)
        ensures
            match top {
                Some(head) => head_stack_items(*self).len() > 0 && head == head_stack_items(
                    *self,
                ).last(),
                None => head_stack_items(*self).len() == 0,
            },
    {
        self.inner.last().copied()
    }

    /// The index that the level `i` begins at.
    ///
    /// Trusted: indexing a `SmallVec` hands out the element at that place of
    /// its slice; it panics only behind the end.
    #[verifier::external_body]
    pub(crate) fn get(&self, i: usize) -> (head: usize)
        requires
            i < head_stack_items(*self).len(),
        ensures
            head == head_stack_items(*self)[i as int],
    {
        self.inner[i]
    }

    /// Trusted: `SmallVec::len` is the number of elements.
    #[verifier::external_body]
    pub(crate) fn len(&self) -> (n: usize)
        ensures
            n == head_stack_items(*self).len(),
    {
        self.inner.len()
    }
}

} // verus!
