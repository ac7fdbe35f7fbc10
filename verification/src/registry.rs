//! The registry of subscriptions: who listens to which stream, in which
//! order listeners are told of an event, and how listening ends.

use vstd::prelude::*;
use crate::cell::{Modification, MutationKind, StreamId};

verus! {

/// The name by which a subscription is cancelled.
#[derive(Clone, Copy, Debug, PartialEq, Eq, Structural)]
pub struct SubscriptionHandle(pub u64);

/// The name of what is to be called when a subscription hears an event.
#[derive(Clone, Copy, Debug, PartialEq, Eq, Structural)]
pub struct CallbackId(pub u64);

/// The name of the structure that a subscription belongs to.
#[derive(Clone, Copy, Debug, PartialEq, Eq, Structural)]
pub struct OwnerId(pub u64);

/// One listener on one stream.
#[derive(Clone, Copy, Debug, PartialEq, Eq, Structural)]
pub struct Subscription {
    pub handle: SubscriptionHandle,
    pub stream: StreamId,
    pub callback: CallbackId,
    pub owner: OwnerId,
}

/// One call that an event asks for.
#[derive(Clone, Copy, Debug, PartialEq, Eq, Structural)]
pub struct Delivery {
    pub handle: SubscriptionHandle,
    pub callback: CallbackId,
    pub kind: MutationKind,
}

/// Why the registry refuses a request.
#[derive(Clone, Copy, Debug, PartialEq, Eq, Structural)]
pub enum RegistryError {
    /// The stream is none of this registry.
    UnknownStream,
    /// The registry has handed out every handle it has.
    OutOfHandles,
}

/// The streams and subscriptions of one reactive domain.
#[derive(Debug)]
pub struct SubscriptionRegistry {
    /// For every stream, the streams of cells whose events it carries.
    sources: Vec<Vec<usize>>,
    subscriptions: Vec<Subscription>,
    next_handle: u64,
}

/// The mathematical value of a [`SubscriptionRegistry`].
pub struct RegistryView {
    /// For every stream, the streams of cells whose events it carries.
    pub sources: Seq<Set<usize>>,
    /// The subscriptions, in the order they were made.
    pub subscriptions: Seq<Subscription>,
    pub next_handle: nat,
}

/// The subscriptions of `subs` that `keep` holds of, in their order.
pub open spec fn kept(subs: Seq<Subscription>, keep: spec_fn(Subscription) -> bool) -> Seq<
    Subscription,
>
    decreases subs.len(),
{
    if subs.len() == 0 {
        subs
    } else if keep(subs.last()) {
        kept(subs.drop_last(), keep).push(subs.last())
    } else {
        kept(subs.drop_last(), keep)
    }
}

/// What a vector of source lists holds, as sets.
pub open spec fn sources_view(sources: Seq<Vec<usize>>) -> Seq<Set<usize>> {
    Seq::new(sources.len(), |i: int| sources[i]@.to_set())
}

impl RegistryView {
    /// Whether `stream` is a stream of this registry.
    pub open spec fn knows(self, stream: StreamId) -> bool {
        stream.0 < self.sources.len()
    }

    /// Whether `stream` carries the events of the cell stream `origin`.
    pub open spec fn carries(self, stream: StreamId, origin: StreamId) -> bool {
        self.knows(stream) && self.sources[stream.0 as int].contains(origin.0)
    }

    /// Whether the subscription is told of the event: it is, if its stream
    /// carries the events of the cell, unless the write was silent.
    pub open spec fn hears(self, sub: Subscription, event: Modification) -> bool {
        event.kind != MutationKind::Silent && self.carries(sub.stream, event.stream)
    }

    /// The test for [`RegistryView::hears`], as a value.
    pub open spec fn hearing(self, event: Modification) -> spec_fn(Subscription) -> bool {
        |sub: Subscription| self.hears(sub, event)
    }

    /// The calls that `event` asks for: one for every subscription that
    /// hears it, in the order in which the subscriptions were made.
    pub open spec fn deliveries(self, event: Modification) -> Seq<Delivery> {
        kept(self.subscriptions, self.hearing(event)).map_values(delivering(event.kind))
    }

    /// The streams of cells that a merge of `streams` carries: those that
    /// any of them carries.
    pub open spec fn merged(self, streams: Seq<StreamId>) -> Set<usize> {
        Set::new(
            |x: usize|
                exists|k: int|
                    0 <= k < streams.len() && #[trigger] self.carries(streams[k], StreamId(x)),
        )
    }

    /// Every subscription listens to a stream of the registry, and no two
    /// have the same handle.
    pub open spec fn wf(self) -> bool {
        &&& forall|i: int|
            0 <= i < self.subscriptions.len() ==> (#[trigger] self.subscriptions[i]).handle.0
                < self.next_handle
        &&& forall|i: int, j: int|
            0 <= i < j < self.subscriptions.len() ==> (#[trigger] self.subscriptions[i]).handle
                != (#[trigger] self.subscriptions[j]).handle
        &&& forall|i: int|
            0 <= i < self.subscriptions.len() ==> self.knows(
                (#[trigger] self.subscriptions[i]).stream,
            )
        &&& self.next_handle <= u64::MAX
        &&& self.sources.len() <= usize::MAX
    }

    /// The registry with one more stream, which carries `carried`.
    pub open spec fn with_stream(self, carried: Set<usize>) -> RegistryView {
        RegistryView {
            sources: self.sources.push(carried),
            subscriptions: self.subscriptions,
            next_handle: self.next_handle,
        }
    }

    /// The registry with one more subscription, behind the others.
    pub open spec fn subscribed(self, stream: StreamId, callback: CallbackId, owner: OwnerId)
        -> RegistryView {
        RegistryView {
            sources: self.sources,
            subscriptions: self.subscriptions.push(
                Subscription {
                    handle: SubscriptionHandle(self.next_handle as u64),
                    stream,
                    callback,
                    owner,
                },
            ),
            next_handle: self.next_handle + 1,
        }
    }

    /// The registry with the subscriptions that `keep` holds of.
    pub open spec fn keeping(self, keep: spec_fn(Subscription) -> bool) -> RegistryView {
        RegistryView {
            sources: self.sources,
            subscriptions: kept(self.subscriptions, keep),
            next_handle: self.next_handle,
        }
    }
}

/// The call that an event of the kind `kind` asks for of a subscription.
pub open spec fn delivering(kind: MutationKind) -> spec_fn(Subscription) -> Delivery {
    |sub: Subscription| Delivery { handle: sub.handle, callback: sub.callback, kind }
}

/// The test that a subscription is not the one of `handle`, as a value.
pub open spec fn not_handle(handle: SubscriptionHandle) -> spec_fn(Subscription) -> bool {
    |sub: Subscription| sub.handle != handle
}

/// The test that a subscription does not belong to `owner`, as a value.
pub open spec fn not_owner(owner: OwnerId) -> spec_fn(Subscription) -> bool {
    |sub: Subscription| sub.owner != owner
}

/// What is kept of a sequence stands in it, in the same order, and is all
/// of it that the test holds of.
pub proof fn lemma_kept(subs: Seq<Subscription>, keep: spec_fn(Subscription) -> bool)
    ensures
        kept(subs, keep).len() <= subs.len(),
        forall|k: int|
            0 <= k < kept(subs, keep).len() ==> keep(#[trigger] kept(subs, keep)[k])
                && subs.contains(kept(subs, keep)[k]),
        forall|i: int|
            0 <= i < subs.len() && keep(#[trigger] subs[i]) ==> kept(subs, keep).contains(
                subs[i],
            ),
    decreases subs.len(),
{
    if subs.len() > 0 {
        let head = subs.drop_last();
        lemma_kept(head, keep);
        let out = kept(subs, keep);
        let inner = kept(head, keep);
        assert forall|k: int| 0 <= k < out.len() implies keep(#[trigger] out[k])
            && subs.contains(out[k]) by {
            if k < inner.len() {
                assert(out[k] == inner[k]);
                assert(head.contains(inner[k]));
                let m = choose|m: int| 0 <= m < head.len() && head[m] == inner[k];
                assert(subs[m] == inner[k]);
            } else {
                assert(out[k] == subs[subs.len() - 1]);
            }
        }
        assert forall|i: int| 0 <= i < subs.len() && keep(#[trigger] subs[i]) implies out.contains(
            subs[i],
        ) by {
            if i < head.len() {
                assert(head[i] == subs[i]);
                assert(inner.contains(subs[i]));
                let m = choose|m: int| 0 <= m < inner.len() && inner[m] == subs[i];
                assert(out[m] == subs[i]);
            } else {
                assert(out[out.len() - 1] == subs[i]);
            }
        }
    }
}

/// Keeping some subscriptions of a registry leaves it well formed.
pub proof fn lemma_keeping_wf(r: RegistryView, keep: spec_fn(Subscription) -> bool)
    requires
        r.wf(),
    ensures
        r.keeping(keep).wf(),
    decreases r.subscriptions.len(),
{
    let subs = r.subscriptions;
    let out = kept(subs, keep);
    lemma_kept(subs, keep);
    if subs.len() > 0 {
        let head = RegistryView {
            sources: r.sources,
            subscriptions: subs.drop_last(),
            next_handle: r.next_handle,
        };
        assert(head.wf()) by {
            assert forall|i: int| 0 <= i < head.subscriptions.len() implies (
            #[trigger] head.subscriptions[i]).handle.0 < head.next_handle by {
                assert(head.subscriptions[i] == subs[i]);
            }
            assert forall|i: int, j: int| 0 <= i < j < head.subscriptions.len() implies (
            #[trigger] head.subscriptions[i]).handle != (#[trigger] head.subscriptions[j]).handle by {
                assert(head.subscriptions[i] == subs[i]);
                assert(head.subscriptions[j] == subs[j]);
            }
            assert forall|i: int| 0 <= i < head.subscriptions.len() implies head.knows(
                (#[trigger] head.subscriptions[i]).stream,
            ) by {
                assert(head.subscriptions[i] == subs[i]);
            }
        }
        lemma_keeping_wf(head, keep);
        lemma_kept(subs.drop_last(), keep);
        let inner = kept(subs.drop_last(), keep);
        assert forall|i: int, j: int| 0 <= i < j < out.len() implies (#[trigger] out[i]).handle != (
        #[trigger] out[j]).handle by {
            if j < inner.len() {
                assert(out[i] == inner[i] && out[j] == inner[j]);
                let hk = head.keeping(keep);
                assert(hk.subscriptions[i].handle != hk.subscriptions[j].handle);
            } else {
                assert(out[i] == inner[i]);
                assert(subs.drop_last().contains(inner[i]));
                let m = choose|m: int| 0 <= m < subs.len() - 1 && subs.drop_last()[m] == inner[i];
                assert(subs[m] == inner[i]);
                assert(out[j] == subs[subs.len() - 1]);
                assert(r.subscriptions[m].handle != r.subscriptions[subs.len() - 1].handle);
            }
        }
        assert forall|i: int| 0 <= i < out.len() implies (#[trigger] out[i]).handle.0
            < r.next_handle && r.knows(out[i].stream) by {
            assert(subs.contains(out[i]));
            let m = choose|m: int| 0 <= m < subs.len() && subs[m] == out[i];
        }
    }
}

/// A registry with one more stream is well formed.
pub proof fn lemma_with_stream_wf(r: RegistryView, carried: Set<usize>)
    requires
        r.wf(),
        r.sources.len() < usize::MAX,
    ensures
        r.with_stream(carried).wf(),
{
    let n = r.with_stream(carried);
    assert forall|i: int| 0 <= i < n.subscriptions.len() implies n.knows(
        (#[trigger] n.subscriptions[i]).stream,
    ) by {
        assert(r.knows(r.subscriptions[i].stream));
    }
}

/// A registry with one more subscription on one of its streams is well
/// formed.
pub proof fn lemma_subscribed_wf(
    r: RegistryView,
    stream: StreamId,
    callback: CallbackId,
    owner: OwnerId,
)
    requires
        r.wf(),
        r.knows(stream),
        r.next_handle < u64::MAX,
    ensures
        r.subscribed(stream, callback, owner).wf(),
{
    let n = r.subscribed(stream, callback, owner);
    assert forall|i: int| 0 <= i < n.subscriptions.len() implies (
    #[trigger] n.subscriptions[i]).handle.0 < n.next_handle && n.knows(n.subscriptions[i].stream) by {
        if i < r.subscriptions.len() {
            assert(n.subscriptions[i] == r.subscriptions[i]);
        }
    }
    assert forall|i: int, j: int| 0 <= i < j < n.subscriptions.len() implies (
    #[trigger] n.subscriptions[i]).handle != (#[trigger] n.subscriptions[j]).handle by {
        assert(n.subscriptions[i] == r.subscriptions[i]);
        if j < r.subscriptions.len() {
            assert(n.subscriptions[j] == r.subscriptions[j]);
        }
    }
}

impl View for SubscriptionRegistry {
    type V = RegistryView;

    closed spec fn view(&self) -> RegistryView {
        RegistryView {
            sources: sources_view(self.sources@),
            subscriptions: self.subscriptions@,
            next_handle: self.next_handle as nat,
        }
    }
}

/// Whether `x` stands among the first `n` elements of `list`.
pub open spec fn listed(list: Seq<usize>, n: int, x: usize) -> bool {
    exists|j: int| 0 <= j < n && list[j] == x
}

proof fn lemma_listed_step(list: Seq<usize>, i: int, x: usize)
    requires
        0 <= i < list.len(),
    ensures
        listed(list, i + 1, x) <==> (listed(list, i, x) || list[i] == x),
{
    if listed(list, i + 1, x) {
        let j = choose|j: int| 0 <= j < i + 1 && list[j] == x;
        if j < i {
            assert(listed(list, i, x));
        }
    }
    if listed(list, i, x) {
        let j = choose|j: int| 0 <= j < i && list[j] == x;
        assert(0 <= j < i + 1 && list[j] == x);
    }
}

proof fn lemma_listed_all(list: Seq<usize>, x: usize)
    ensures
        listed(list, list.len() as int, x) <==> list.contains(x),
        list.to_set().contains(x) <==> list.contains(x),
{
    if list.contains(x) {
        let j = choose|j: int| 0 <= j < list.len() && list[j] == x;
        assert(listed(list, list.len() as int, x));
    }
}

proof fn lemma_push_contains(s: Seq<usize>, x: usize, y: usize)
    ensures
        s.push(x).contains(y) <==> (s.contains(y) || y == x),
{
    if s.push(x).contains(y) {
        let m = choose|m: int| 0 <= m < s.push(x).len() && s.push(x)[m] == y;
        if m < s.len() {
            assert(s[m] == y);
        }
    }
    if s.contains(y) {
        let m = choose|m: int| 0 <= m < s.len() && s[m] == y;
        assert(s.push(x)[m] == y);
    }
    if y == x {
        assert(s.push(x)[s.len() as int] == x);
    }
}

/// A merge of one more stream carries what the merge of the others does,
/// and what that stream carries.
proof fn lemma_merged_step(r: RegistryView, streams: Seq<StreamId>, k: int, x: usize)
    requires
        0 <= k < streams.len(),
    ensures
        r.merged(streams.take(k + 1)).contains(x) <==> (r.merged(streams.take(k)).contains(x)
            || r.carries(streams[k], StreamId(x))),
{
    let a = streams.take(k + 1);
    let b = streams.take(k);
    if r.merged(a).contains(x) {
        let q = choose|q: int| 0 <= q < a.len() && #[trigger] r.carries(a[q], StreamId(x));
        if q < k {
            assert(r.carries(b[q], StreamId(x)));
        }
    }
    if r.merged(b).contains(x) {
        let q = choose|q: int| 0 <= q < b.len() && #[trigger] r.carries(b[q], StreamId(x));
        assert(r.carries(a[q], StreamId(x)));
    }
    if r.carries(streams[k], StreamId(x)) {
        assert(r.carries(a[k], StreamId(x)));
    }
}

fn holds(list: &Vec<usize>, x: usize) -> (b: bool)
    ensures
        b == list@.contains(x),
{
    let mut i: usize = 0;
    while i < list.len()
        invariant
            i <= list.len(),
            forall|j: int| 0 <= j < i ==> list@[j] != x,
        decreases list.len() - i,
    {
        if list[i] == x {
            return true;
        }
        i += 1;
    }
    false
}

impl SubscriptionRegistry {
    /// A registry without streams and subscriptions.
    pub fn new() -> (registry: SubscriptionRegistry)
        ensures
            registry@.sources.len() == 0,
            registry@.subscriptions.len() == 0,
            registry@.next_handle == 0,
            registry@.wf(),
    {
        SubscriptionRegistry { sources: Vec::new(), subscriptions: Vec::new(), next_handle: 0 }
    }

    /// The number of streams.
    pub fn stream_count(&self) -> (n: usize)
        ensures
            n == self@.sources.len(),
    {
        self.sources.len()
    }

    /// The number of subscriptions.
    pub fn subscription_count(&self) -> (n: usize)
        ensures
            n == self@.subscriptions.len(),
    {
        self.subscriptions.len()
    }

    /// Whether the registry has a handle left for another subscription.
    pub fn has_handles(&self) -> (b: bool)
        ensures
            b == (self@.next_handle < u64::MAX),
    {
        self.next_handle < u64::MAX
    }

    /// Whether every stream of `streams` is one of this registry.
    pub fn knows_all(&self, streams: &Vec<StreamId>) -> (b: bool)
        ensures
            b == forall|k: int| 0 <= k < streams.len() ==> self@.knows(#[trigger] streams[k]),
    {
        let mut k: usize = 0;
        while k < streams.len()
            invariant
                k <= streams.len(),
                forall|q: int| 0 <= q < k ==> self@.knows(#[trigger] streams[q]),
            decreases streams.len() - k,
        {
            if streams[k].0 >= self.sources.len() {
                assert(!self@.knows(streams[k as int]));
                return false;
            }
            k += 1;
        }
        true
    }

    /// Makes the stream of a new cell: it carries the events of that cell.
    pub fn new_stream(&mut self) -> (stream: StreamId)
        requires
            old(self)@.wf(),
        ensures
            final(self)@.wf(),
            stream.0 == old(self)@.sources.len(),
            final(self)@ == old(self)@.with_stream(set![stream.0]),
    {
        let id = self.sources.len();
        let mut own: Vec<usize> = Vec::new();
        own.push(id);
        self.sources.push(own);
        let total = self.sources.len();
        proof {
            assert(own@.to_set() =~= set![id]) by {
                assert(own@[0] == id);
                assert forall|x: usize| own@.to_set().contains(x) <==> x == id by {
                    if x == id {
                        assert(own@.contains(id));
                    }
                }
            }
            assert(self@.sources =~= old(self)@.sources.push(set![id]));
            lemma_with_stream_wf(old(self)@, set![id]);
        }
        StreamId(id)
    }

    /// Makes one stream of several: it emits whenever one of them does, and
    /// once for every event, however many of them carry it.
    pub fn merge(&mut self, streams: &Vec<StreamId>) -> (r: Result<StreamId, RegistryError>)
        requires
            old(self)@.wf(),
        ensures
            final(self)@.wf(),
            match r {
                Ok(stream) => {
                    &&& forall|k: int| 0 <= k < streams.len() ==> old(self)@.knows(streams[k])
                    &&& stream.0 == old(self)@.sources.len()
                    &&& final(self)@ == old(self)@.with_stream(old(self)@.merged(streams@))
                },
                Err(e) => {
                    &&& e == RegistryError::UnknownStream
                    &&& exists|k: int| 0 <= k < streams.len() && !old(self)@.knows(streams[k])
                    &&& final(self)@ == old(self)@
                },
            },
    {
        let ghost r0 = self@;
        let mut carried: Vec<usize> = Vec::new();
        let mut k: usize = 0;
        proof {
            assert forall|x: usize| #[trigger] carried@.contains(x) <==> r0.merged(
                streams@.take(0),
            ).contains(x) by {}
        }
        while k < streams.len()
            invariant
                k <= streams.len(),
                self@ == r0,
                r0.wf(),
                forall|q: int| 0 <= q < k ==> r0.knows(streams[q]),
                forall|x: usize| #[trigger]
                    carried@.contains(x) <==> r0.merged(streams@.take(k as int)).contains(x),
            decreases streams.len() - k,
        {
            let s = streams[k].0;
            if s >= self.sources.len() {
                return Err(RegistryError::UnknownStream);
            }
            let ghost before = carried@;
            let ghost list = self.sources@[s as int]@;
            let mut i: usize = 0;
            while i < self.sources[s].len()
                invariant
                    i <= list.len(),
                    s < self.sources.len(),
                    list == self.sources@[s as int]@,
                    self@ == r0,
                    forall|x: usize| #[trigger]
                        carried@.contains(x) <==> (before.contains(x) || listed(list, i as int, x)),
                decreases list.len() - i,
            {
                let x = self.sources[s][i];
                let ghost old_carried = carried@;
                if !holds(&carried, x) {
                    carried.push(x);
                }
                proof {
                    assert forall|y: usize| #[trigger]
                        carried@.contains(y) <==> (before.contains(y) || listed(
                            list,
                            i + 1,
                            y,
                        )) by {
                        lemma_listed_step(list, i as int, y);
                        if carried@.len() > old_carried.len() {
                            lemma_push_contains(old_carried, x, y);
                        }
                    }
                }
                i += 1;
            }
            proof {
                assert forall|x: usize| #[trigger]
                    carried@.contains(x) <==> r0.merged(streams@.take(k + 1)).contains(x) by {
                    lemma_merged_step(r0, streams@, k as int, x);
                    lemma_listed_all(list, x);
                    assert(r0.sources[s as int] == list.to_set());
                }
            }
            k += 1;
        }
        let id = self.sources.len();
        proof {
            assert(streams@.take(k as int) =~= streams@);
            assert(carried@.to_set() =~= r0.merged(streams@));
        }
        self.sources.push(carried);
        let total = self.sources.len();
        proof {
            assert(self@.sources =~= r0.sources.push(r0.merged(streams@)));
            lemma_with_stream_wf(r0, r0.merged(streams@));
        }
        Ok(StreamId(id))
    }

    /// Registers a listener on `stream`, behind those that are registered.
    pub fn subscribe(&mut self, stream: StreamId, callback: CallbackId, owner: OwnerId) -> (r:
        Result<SubscriptionHandle, RegistryError>)
        requires
            old(self)@.wf(),
        ensures
            final(self)@.wf(),
            match r {
                Ok(handle) => {
                    &&& old(self)@.knows(stream)
                    &&& old(self)@.next_handle < u64::MAX
                    &&& handle.0 == old(self)@.next_handle
                    &&& final(self)@ == old(self)@.subscribed(stream, callback, owner)
                },
                Err(e) => {
                    &&& final(self)@ == old(self)@
                    &&& e == if !old(self)@.knows(stream) {
                        RegistryError::UnknownStream
                    } else {
                        RegistryError::OutOfHandles
                    }
                    &&& !old(self)@.knows(stream) || old(self)@.next_handle == u64::MAX
                },
            },
    {
        if stream.0 >= self.sources.len() {
            return Err(RegistryError::UnknownStream);
        }
        if self.next_handle == u64::MAX {
            return Err(RegistryError::OutOfHandles);
        }
        let handle = SubscriptionHandle(self.next_handle);
        self.subscriptions.push(Subscription { handle, stream, callback, owner });
        self.next_handle = self.next_handle + 1;
        proof {
            lemma_subscribed_wf(old(self)@, stream, callback, owner);
        }
        Ok(handle)
    }

    /// Ends the subscription of `handle`: from the next event on it hears
    /// nothing. Returns whether there was such a subscription.
    pub fn unsubscribe(&mut self, handle: SubscriptionHandle) -> (found: bool)
        requires
            old(self)@.wf(),
        ensures
            final(self)@.wf(),
            final(self)@ == old(self)@.keeping(not_handle(handle)),
            found == exists|i: int|
                0 <= i < old(self)@.subscriptions.len() && (
                #[trigger] old(self)@.subscriptions[i]).handle == handle,
    {
        let ghost r0 = self@;
        let ghost keep = not_handle(handle);
        let mut rest: Vec<Subscription> = Vec::new();
        let mut found = false;
        let mut i: usize = 0;
        while i < self.subscriptions.len()
            invariant
                i <= self.subscriptions.len(),
                self@ == r0,
                keep == not_handle(handle),
                rest@ == kept(r0.subscriptions.take(i as int), keep),
                found == exists|j: int|
                    0 <= j < i && (#[trigger] r0.subscriptions[j]).handle == handle,
            decreases self.subscriptions.len() - i,
        {
            let sub = self.subscriptions[i];
            proof {
                assert(r0.subscriptions.take(i + 1).drop_last() =~= r0.subscriptions.take(
                    i as int,
                ));
            }
            if sub.handle == handle {
                found = true;
            } else {
                rest.push(sub);
            }
            i += 1;
        }
        proof {
            assert(r0.subscriptions.take(i as int) =~= r0.subscriptions);
            lemma_keeping_wf(r0, keep);
        }
        self.subscriptions = rest;
        found
    }

    /// Ends every subscription of `owner`: a structure that is destroyed
    /// hears nothing from then on. Returns how many subscriptions ended.
    pub fn dispose(&mut self, owner: OwnerId) -> (ended: usize)
        requires
            old(self)@.wf(),
        ensures
            final(self)@.wf(),
            final(self)@ == old(self)@.keeping(not_owner(owner)),
            ended == old(self)@.subscriptions.len() - final(self)@.subscriptions.len(),
    {
        let ghost r0 = self@;
        let ghost keep = not_owner(owner);
        let mut rest: Vec<Subscription> = Vec::new();
        let mut i: usize = 0;
        while i < self.subscriptions.len()
            invariant
                i <= self.subscriptions.len(),
                self@ == r0,
                keep == not_owner(owner),
                rest@ == kept(r0.subscriptions.take(i as int), keep),
                rest@.len() <= i,
            decreases self.subscriptions.len() - i,
        {
            let sub = self.subscriptions[i];
            proof {
                assert(r0.subscriptions.take(i + 1).drop_last() =~= r0.subscriptions.take(
                    i as int,
                ));
            }
            if sub.owner != owner {
                rest.push(sub);
            }
            i += 1;
        }
        proof {
            assert(r0.subscriptions.take(i as int) =~= r0.subscriptions);
            lemma_keeping_wf(r0, keep);
        }
        let ended = self.subscriptions.len() - rest.len();
        self.subscriptions = rest;
        ended
    }

    /// The calls that `event` asks for: one for every subscription that
    /// hears it, in the order in which the subscriptions were made. A silent
    /// write asks for none.
    pub fn emit(&self, event: Modification) -> (calls: Vec<Delivery>)
        requires
            self@.wf(),
        ensures
            calls@ == self@.deliveries(event),
    {
        let ghost r = self@;
        let ghost hearing = r.hearing(event);
        let ghost deliver = delivering(event.kind);
        let mut calls: Vec<Delivery> = Vec::new();
        let mut i: usize = 0;
        while i < self.subscriptions.len()
            invariant
                i <= self.subscriptions.len(),
                r == self@,
                r.wf(),
                hearing == r.hearing(event),
                deliver == delivering(event.kind),
                calls@ == kept(r.subscriptions.take(i as int), hearing).map_values(deliver),
            decreases self.subscriptions.len() - i,
        {
            let sub = self.subscriptions[i];
            proof {
                assert(r.subscriptions.take(i + 1).drop_last() =~= r.subscriptions.take(i as int));
                assert(r.knows(r.subscriptions[i as int].stream));
            }
            let heard = match event.kind {
                MutationKind::Silent => false,
                _ => holds(&self.sources[sub.stream.0], event.stream.0),
            };
            proof {
                lemma_listed_all(self.sources@[sub.stream.0 as int]@, event.stream.0);
            }
            assert(heard == r.hears(sub, event));
            if heard {
                let ghost before = kept(r.subscriptions.take(i as int), hearing);
                calls.push(Delivery { handle: sub.handle, callback: sub.callback, kind: event.kind });
                assert(calls@ =~= before.push(sub).map_values(deliver));
            }
            i += 1;
        }
        proof {
            assert(r.subscriptions.take(i as int) =~= r.subscriptions);
        }
        calls
    }
}

} // verus!
