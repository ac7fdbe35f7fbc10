//! The children of a structure, some of them produced by derived values: a
//! derived value may produce no node, one or many, and what it produces
//! takes the place of what it produced before.

use vstd::prelude::*;
use crate::cell::StreamId;

verus! {

/// The name of a node of the retained structure.
#[derive(Clone, Copy, Debug, PartialEq, Eq, Structural)]
pub struct NodeId(pub u64);

/// One place among the children of a structure.
#[derive(Debug, PartialEq, Eq)]
pub enum Child {
    /// A node that stays.
    Fixed(NodeId),
    /// The nodes that the derived value with the stream `by` produced last.
    Produced { by: StreamId, nodes: Vec<NodeId> },
}

/// The mathematical value of a [`Child`].
pub enum ChildView {
    Fixed(NodeId),
    Produced { by: StreamId, nodes: Seq<NodeId> },
}

impl View for Child {
    type V = ChildView;

    open spec fn view(&self) -> ChildView {
        match self {
            Child::Fixed(node) => ChildView::Fixed(*node),
            Child::Produced { by, nodes } => ChildView::Produced { by: *by, nodes: nodes@ },
        }
    }
}

impl ChildView {
    /// The nodes that stand at this place.
    pub open spec fn nodes(self) -> Seq<NodeId> {
        match self {
            ChildView::Fixed(node) => seq![node],
            ChildView::Produced { nodes, .. } => nodes,
        }
    }

    /// Whether this is the place of the derived value `by`.
    pub open spec fn is_by(self, by: StreamId) -> bool {
        self matches ChildView::Produced { by: owner, .. } && owner == by
    }

    /// This place once the derived value `by` has produced `nodes`.
    pub open spec fn refreshed(self, by: StreamId, nodes: Seq<NodeId>) -> ChildView {
        if self.is_by(by) {
            ChildView::Produced { by, nodes }
        } else {
            self
        }
    }
}

/// The nodes of all places, in their order.
pub open spec fn flattened(slots: Seq<ChildView>) -> Seq<NodeId>
    decreases slots.len(),
{
    if slots.len() == 0 {
        Seq::empty()
    } else {
        flattened(slots.drop_last()) + slots.last().nodes()
    }
}

/// The places once the derived value `by` has produced `nodes`: its place
/// holds them, every other place is as it was.
pub open spec fn replaced(slots: Seq<ChildView>, by: StreamId, nodes: Seq<NodeId>) -> Seq<
    ChildView,
> {
    Seq::new(slots.len(), |i: int| slots[i].refreshed(by, nodes))
}

/// The children of a structure, in their order.
#[derive(Debug, PartialEq, Eq)]
pub struct Children {
    slots: Vec<Child>,
}

/// The values of a vector of children.
pub open spec fn slots_view(slots: Seq<Child>) -> Seq<ChildView> {
    Seq::new(slots.len(), |i: int| slots[i]@)
}

impl View for Children {
    type V = Seq<ChildView>;

    closed spec fn view(&self) -> Seq<ChildView> {
        slots_view(self.slots@)
    }
}

/// The nodes of a run of places are those of its front and those of its
/// back.
pub proof fn lemma_flattened_add(a: Seq<ChildView>, b: Seq<ChildView>)
    ensures
        flattened(a + b) == flattened(a) + flattened(b),
    decreases b.len(),
{
    if b.len() == 0 {
        assert(a + b =~= a);
        assert(flattened(a) + flattened(b) =~= flattened(a));
    } else {
        assert((a + b).drop_last() =~= a + b.drop_last());
        lemma_flattened_add(a, b.drop_last());
        assert((a + b).last() == b.last());
        assert(flattened(a + b) =~= flattened(a) + flattened(b));
    }
}

/// When a derived value produces anew, only its own nodes change: the
/// nodes of the places before its place and behind it stay where they are.
pub proof fn only_its_fragments_change(
    slots: Seq<ChildView>,
    i: int,
    by: StreamId,
    nodes: Seq<NodeId>,
)
    requires
        0 <= i < slots.len(),
        slots[i].is_by(by),
        forall|j: int| 0 <= j < slots.len() && j != i ==> !(#[trigger] slots[j]).is_by(by),
    ensures
        flattened(replaced(slots, by, nodes)) == flattened(slots.take(i)) + nodes + flattened(
            slots.skip(i + 1),
        ),
        forall|j: int|
            0 <= j < slots.len() && j != i ==> #[trigger] replaced(slots, by, nodes)[j]
                == slots[j],
{
    let out = replaced(slots, by, nodes);
    let own = seq![ChildView::Produced { by, nodes }];
    assert(out =~= slots.take(i) + own + slots.skip(i + 1));
    lemma_flattened_add(slots.take(i) + own, slots.skip(i + 1));
    lemma_flattened_add(slots.take(i), own);
    assert(own.drop_last() =~= Seq::<ChildView>::empty());
    assert(flattened(own.drop_last()) =~= Seq::<NodeId>::empty());
    assert(own.last().nodes() == nodes);
    assert(flattened(own) == flattened(own.drop_last()) + own.last().nodes());
    assert(flattened(own) =~= nodes);
}

impl Children {
    /// No children.
    pub fn new() -> (children: Children)
        ensures
            children@ == Seq::<ChildView>::empty(),
    {
        let children = Children { slots: Vec::new() };
        assert(children@ =~= Seq::<ChildView>::empty());
        children
    }

    /// The number of places.
    pub fn len(&self) -> (n: usize)
        ensures
            n == self@.len(),
    {
        self.slots.len()
    }

    /// Adds a place behind the others.
    pub fn push(&mut self, child: Child)
        ensures
            final(self)@ == old(self)@.push(child@),
    {
        self.slots.push(child);
        assert(self@ =~= old(self)@.push(child@));
    }

    /// Puts `nodes` where the derived value `by` has its place: they take
    /// the place of what it produced before, and nothing else changes.
    /// Returns whether the value has a place here.
    pub fn replace(&mut self, by: StreamId, nodes: &Vec<NodeId>) -> (found: bool)
        ensures
            final(self)@ == replaced(old(self)@, by, nodes@),
            found == exists|i: int| 0 <= i < old(self)@.len() && (#[trigger] old(self)@[i]).is_by(by),
    {
        let ghost before = self@;
        let mut found = false;
        let mut out: Vec<Child> = Vec::new();
        let mut i: usize = 0;
        while i < self.slots.len()
            invariant
                i <= self.slots.len(),
                self@ == before,
                out@.len() == i,
                forall|j: int| 0 <= j < i ==> (#[trigger] out@[j])@ == before[j].refreshed(by, nodes@),
                found == exists|j: int| 0 <= j < i && (#[trigger] before[j]).is_by(by),
            decreases self.slots.len() - i,
        {
            assert(before[i as int] == self.slots@[i as int]@);
            let slot = match &self.slots[i] {
                Child::Fixed(node) => Child::Fixed(*node),
                Child::Produced { by: owner, nodes: old_nodes } => {
                    if owner.0 == by.0 {
                        found = true;
                        Child::Produced { by, nodes: nodes.clone() }
                    } else {
                        Child::Produced { by: *owner, nodes: old_nodes.clone() }
                    }
                },
            };
            out.push(slot);
            i += 1;
        }
        self.slots = out;
        assert(self@ =~= replaced(before, by, nodes@));
        found
    }

    /// The nodes of all places, in their order.
    pub fn flatten(&self) -> (nodes: Vec<NodeId>)
        ensures
            nodes@ == flattened(self@),
    {
        let mut nodes: Vec<NodeId> = Vec::new();
        let mut i: usize = 0;
        while i < self.slots.len()
            invariant
                i <= self.slots.len(),
                nodes@ == flattened(self@.take(i as int)),
            decreases self.slots.len() - i,
        {
            proof {
                assert(self@.take(i + 1).drop_last() =~= self@.take(i as int));
                assert(self@.take(i + 1).last() == self.slots@[i as int]@);
            }
            match &self.slots[i] {
                Child::Fixed(node) => {
                    nodes.push(*node);
                    assert(nodes@ =~= flattened(self@.take(i as int)) + seq![*node]);
                },
                Child::Produced { nodes: produced, .. } => {
                    let mut k: usize = 0;
                    let ghost start = nodes@;
                    while k < produced.len()
                        invariant
                            k <= produced.len(),
                            nodes@ == start + produced@.take(k as int),
                        decreases produced.len() - k,
                    {
                        nodes.push(produced[k]);
                        assert(nodes@ =~= start + produced@.take(k + 1));
                        k += 1;
                    }
                    assert(produced@.take(k as int) =~= produced@);
                },
            }
            i += 1;
        }
        assert(self@.take(i as int) =~= self@);
        nodes
    }
}

} // verus!
