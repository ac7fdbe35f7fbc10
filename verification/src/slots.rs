//! The places of the retained structure that have to be laid out and
//! painted anew.

use vstd::prelude::*;
use crate::registry::{CallbackId, Delivery, OwnerId};

verus! {

/// For every place of the retained structure, whether it is dirty.
#[derive(Debug, PartialEq, Eq)]
pub struct SlotTable {
    dirty: Vec<bool>,
}

impl View for SlotTable {
    type V = Seq<bool>;

    closed spec fn view(&self) -> Seq<bool> {
        self.dirty@
    }
}

/// The call that marks the place `slot` dirty.
pub open spec fn dirty_callback(slot: OwnerId) -> CallbackId {
    CallbackId(slot.0)
}

/// Whether one of `calls` marks the place `i` dirty.
pub open spec fn names(calls: Seq<Delivery>, i: int) -> bool {
    exists|k: int| 0 <= k < calls.len() && (#[trigger] calls[k]).callback.0 == i
}

/// The places after `calls`: a place is dirty if it was, or if one of the
/// calls marks it.
pub open spec fn dirtied(dirty: Seq<bool>, calls: Seq<Delivery>) -> Seq<bool> {
    Seq::new(dirty.len(), |i: int| dirty[i] || names(calls, i))
}

/// The call that marks the place `slot` dirty.
pub fn dirty_callback_of(slot: OwnerId) -> (callback: CallbackId)
    ensures
        callback == dirty_callback(slot),
{
    CallbackId(slot.0)
}

impl SlotTable {
    /// `count` places, none of them dirty.
    pub fn new(count: usize) -> (table: SlotTable)
        ensures
            table@.len() == count,
            forall|i: int| 0 <= i < count ==> !table@[i],
    {
        let mut dirty: Vec<bool> = Vec::new();
        let mut i: usize = 0;
        while i < count
            invariant
                i <= count,
                dirty@.len() == i,
                forall|j: int| 0 <= j < i ==> !dirty@[j],
            decreases count - i,
        {
            dirty.push(false);
            i += 1;
        }
        SlotTable { dirty }
    }

    /// The number of places.
    pub fn len(&self) -> (n: usize)
        ensures
            n == self@.len(),
    {
        self.dirty.len()
    }

    /// Whether the place `slot` is dirty; no place beyond the last is.
    pub fn is_dirty(&self, slot: usize) -> (b: bool)
        ensures
            b == (slot < self@.len() && self@[slot as int]),
    {
        slot < self.dirty.len() && self.dirty[slot]
    }

    /// Marks the places that `calls` name: each of them, and no other.
    pub fn apply(&mut self, calls: &Vec<Delivery>)
        ensures
            final(self)@ == dirtied(old(self)@, calls@),
    {
        let ghost before = self@;
        let mut k: usize = 0;
        while k < calls.len()
            invariant
                k <= calls.len(),
                self@ == dirtied(before, calls@.take(k as int)),
            decreases calls.len() - k,
        {
            let slot = calls[k].callback.0;
            let ghost now = self@;
            if slot < self.dirty.len() as u64 {
                self.dirty.set(slot as usize, true);
            }
            proof {
                let a = calls@.take(k as int);
                let b = calls@.take(k + 1);
                assert forall|i: int| 0 <= i < before.len() implies (names(b, i) <==> (names(a, i)
                    || calls@[k as int].callback.0 == i)) by {
                    if names(b, i) {
                        let q = choose|q: int| 0 <= q < b.len() && (#[trigger] b[q]).callback.0 == i;
                        if q < k {
                            assert(a[q].callback.0 == i);
                        }
                    }
                    if names(a, i) {
                        let q = choose|q: int| 0 <= q < a.len() && (#[trigger] a[q]).callback.0 == i;
                        assert(b[q].callback.0 == i);
                    }
                    if calls@[k as int].callback.0 == i {
                        assert(b[k as int].callback.0 == i);
                    }
                }
                assert(self@ =~= dirtied(before, b));
            }
            k += 1;
        }
        assert(calls@.take(k as int) =~= calls@);
    }

    /// Takes every place for laid out and painted: none is dirty any more.
    pub fn clear(&mut self)
        ensures
            final(self)@.len() == old(self)@.len(),
            forall|i: int| 0 <= i < final(self)@.len() ==> !final(self)@[i],
    {
        let n = self.dirty.len();
        let mut i: usize = 0;
        while i < n
            invariant
                i <= n,
                self@.len() == n,
                forall|j: int| 0 <= j < i ==> !self@[j],
            decreases n - i,
        {
            self.dirty.set(i, false);
            i += 1;
        }
    }
}

/// Calls that all go to one place leave every other place as it was.
pub proof fn only_the_slot_is_dirtied(dirty: Seq<bool>, calls: Seq<Delivery>, slot: OwnerId)
    requires
        forall|k: int| 0 <= k < calls.len() ==> (#[trigger] calls[k]).callback == dirty_callback(
            slot,
        ),
    ensures
        forall|i: int|
            0 <= i < dirty.len() && i != slot.0 ==> #[trigger] dirtied(dirty, calls)[i] == dirty[i],
        calls.len() > 0 && slot.0 < dirty.len() ==> dirtied(dirty, calls)[slot.0 as int],
{
    assert forall|i: int| 0 <= i < dirty.len() && i != slot.0 implies #[trigger] dirtied(
        dirty,
        calls,
    )[i] == dirty[i] by {
        if names(calls, i) {
            let k = choose|k: int| 0 <= k < calls.len() && (#[trigger] calls[k]).callback.0 == i;
            assert(calls[k].callback == dirty_callback(slot));
        }
    }
    if calls.len() > 0 && slot.0 < dirty.len() {
        assert(calls[0].callback.0 == slot.0);
        assert(names(calls, slot.0 as int));
    }
}

} // verus!
