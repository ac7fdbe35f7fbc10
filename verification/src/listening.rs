//! What holds of every event: who is told of it, how often, and in which
//! order.

use vstd::prelude::*;
use crate::cell::{Modification, MutationKind, StreamId};
use crate::registry::{
    delivering, kept, lemma_kept, lemma_subscribed_wf, lemma_with_stream_wf, not_handle,
    not_owner, CallbackId, Delivery, OwnerId, RegistryView, Subscription, SubscriptionHandle,
};

verus! {

/// How many of `calls` go to the subscription of `handle`.
pub open spec fn count_for(calls: Seq<Delivery>, handle: SubscriptionHandle) -> nat
    decreases calls.len(),
{
    if calls.len() == 0 {
        0
    } else {
        count_for(calls.drop_last(), handle) + if calls.last().handle == handle {
            1nat
        } else {
            0nat
        }
    }
}

/// The calls for the subscriptions kept of `subs`, one for one.
pub open spec fn calls_of(
    subs: Seq<Subscription>,
    keep: spec_fn(Subscription) -> bool,
    kind: MutationKind,
) -> Seq<Delivery> {
    kept(subs, keep).map_values(delivering(kind))
}

/// The calls for a sequence with one more subscription.
pub proof fn lemma_calls_step(
    subs: Seq<Subscription>,
    keep: spec_fn(Subscription) -> bool,
    kind: MutationKind,
)
    requires
        subs.len() > 0,
    ensures
        calls_of(subs, keep, kind) == if keep(subs.last()) {
            calls_of(subs.drop_last(), keep, kind).push(delivering(kind)(subs.last()))
        } else {
            calls_of(subs.drop_last(), keep, kind)
        },
{
    let head = kept(subs.drop_last(), keep);
    if keep(subs.last()) {
        assert(head.push(subs.last()).map_values(delivering(kind)) =~= head.map_values(
            delivering(kind),
        ).push(delivering(kind)(subs.last())));
    }
}

/// No call goes to a subscription that is not among those asked.
pub proof fn lemma_count_absent(
    subs: Seq<Subscription>,
    keep: spec_fn(Subscription) -> bool,
    kind: MutationKind,
    handle: SubscriptionHandle,
)
    requires
        forall|i: int| 0 <= i < subs.len() && keep(#[trigger] subs[i]) ==> subs[i].handle != handle,
    ensures
        count_for(calls_of(subs, keep, kind), handle) == 0,
    decreases subs.len(),
{
    if subs.len() > 0 {
        let head = subs.drop_last();
        assert forall|i: int| 0 <= i < head.len() && keep(#[trigger] head[i]) implies head[i].handle
            != handle by {
            assert(head[i] == subs[i]);
        }
        lemma_count_absent(head, keep, kind, handle);
        lemma_calls_step(subs, keep, kind);
        let calls = calls_of(head, keep, kind);
        if keep(subs.last()) {
            assert(subs[subs.len() - 1].handle != handle);
            assert(calls.push(delivering(kind)(subs.last())).drop_last() =~= calls);
        }
    }
}

/// One call goes to a subscription that is asked, none to one that is not,
/// where no two subscriptions have one handle.
pub proof fn lemma_count_one(
    subs: Seq<Subscription>,
    keep: spec_fn(Subscription) -> bool,
    kind: MutationKind,
    i: int,
)
    requires
        0 <= i < subs.len(),
        forall|a: int, b: int|
            0 <= a < b < subs.len() ==> (#[trigger] subs[a]).handle != (#[trigger] subs[b]).handle,
    ensures
        count_for(calls_of(subs, keep, kind), subs[i].handle) == if keep(subs[i]) {
            1nat
        } else {
            0nat
        },
    decreases subs.len(),
{
    let head = subs.drop_last();
    let handle = subs[i].handle;
    lemma_calls_step(subs, keep, kind);
    let calls = calls_of(head, keep, kind);
    if keep(subs.last()) {
        assert(calls.push(delivering(kind)(subs.last())).drop_last() =~= calls);
    }
    if i == subs.len() - 1 {
        assert forall|a: int| 0 <= a < head.len() && keep(#[trigger] head[a]) implies head[a].handle
            != handle by {
            assert(head[a] == subs[a]);
            assert(subs[a].handle != subs[i].handle);
        }
        lemma_count_absent(head, keep, kind, handle);
    } else {
        assert forall|a: int, b: int| 0 <= a < b < head.len() implies (#[trigger] head[a]).handle
            != (#[trigger] head[b]).handle by {
            assert(head[a] == subs[a] && head[b] == subs[b]);
        }
        assert(head[i] == subs[i]);
        lemma_count_one(head, keep, kind, i);
        assert(subs[i].handle != subs[subs.len() - 1].handle);
    }
}

/// Every subscription that hears an event is told of it exactly once, and
/// a subscription that does not hear it is not told: however many of the
/// streams merged into its stream carry the event.
pub proof fn heard_once(r: RegistryView, event: Modification, i: int)
    requires
        r.wf(),
        0 <= i < r.subscriptions.len(),
    ensures
        count_for(r.deliveries(event), r.subscriptions[i].handle) == if r.hears(
            r.subscriptions[i],
            event,
        ) {
            1nat
        } else {
            0nat
        },
{
    lemma_count_one(r.subscriptions, r.hearing(event), event.kind, i);
}

/// Nobody is told of a silent write.
pub proof fn silent_is_heard_by_nobody(r: RegistryView, event: Modification)
    requires
        event.kind == MutationKind::Silent,
    ensures
        r.deliveries(event).len() == 0,
{
    lemma_kept(r.subscriptions, r.hearing(event));
    let told = kept(r.subscriptions, r.hearing(event));
    if told.len() > 0 {
        assert(r.hearing(event)(told[0]));
    }
}

/// A listener on the stream of a cell is told exactly once of every write
/// to the cell that is not silent.
pub proof fn subscriber_hears_each_write(r: RegistryView, event: Modification, i: int)
    requires
        r.wf(),
        0 <= i < r.subscriptions.len(),
        r.carries(r.subscriptions[i].stream, event.stream),
    ensures
        count_for(r.deliveries(event), r.subscriptions[i].handle) == if event.kind
            == MutationKind::Silent {
            0nat
        } else {
            1nat
        },
{
    heard_once(r, event, i);
}

/// A listener on the merge of two streams is told once of an event that
/// one of them carries: not once for each stream of the merge.
pub proof fn merge_delivers_once(
    r: RegistryView,
    a: StreamId,
    b: StreamId,
    callback: CallbackId,
    owner: OwnerId,
    event: Modification,
)
    requires
        r.wf(),
        r.next_handle < u64::MAX,
        r.sources.len() < usize::MAX,
        r.carries(a, event.stream) || r.carries(b, event.stream),
        event.kind != MutationKind::Silent,
    ensures
        ({
            let merged = StreamId(r.sources.len() as usize);
            let listening = r.with_stream(r.merged(seq![a, b])).subscribed(merged, callback, owner);
            count_for(listening.deliveries(event), SubscriptionHandle(r.next_handle as u64)) == 1
        }),
{
    let streams = seq![a, b];
    let merged = StreamId(r.sources.len() as usize);
    let with_merge = r.with_stream(r.merged(streams));
    lemma_with_stream_wf(r, r.merged(streams));
    assert(with_merge.knows(merged)) by {
        assert(r.knows(a) || r.knows(b));
    }
    lemma_subscribed_wf(with_merge, merged, callback, owner);
    let listening = with_merge.subscribed(merged, callback, owner);
    let i = r.subscriptions.len() as int;
    assert(listening.subscriptions[i].stream == merged);
    assert(r.merged(streams).contains(event.stream.0)) by {
        if r.carries(a, event.stream) {
            assert(r.carries(streams[0], StreamId(event.stream.0)));
        } else {
            assert(r.carries(streams[1], StreamId(event.stream.0)));
        }
    }
    assert(listening.hears(listening.subscriptions[i], event));
    heard_once(listening, event, i);
}

/// What is kept of a sequence stands in the order it has there.
pub proof fn lemma_kept_order(
    subs: Seq<Subscription>,
    keep: spec_fn(Subscription) -> bool,
    p: int,
    q: int,
) -> (found: (int, int))
    requires
        0 <= p < q < kept(subs, keep).len(),
    ensures
        0 <= found.0 < found.1 < subs.len(),
        subs[found.0] == kept(subs, keep)[p],
        subs[found.1] == kept(subs, keep)[q],
    decreases subs.len(),
{
    let head = subs.drop_last();
    let inner = kept(head, keep);
    lemma_kept(head, keep);
    if q < inner.len() {
        let (i, j) = lemma_kept_order(head, keep, p, q);
        assert(head[i] == subs[i] && head[j] == subs[j]);
        (i, j)
    } else {
        assert(kept(subs, keep)[p] == inner[p]);
        assert(head.contains(inner[p]));
        let i = choose|i: int| 0 <= i < head.len() && head[i] == inner[p];
        assert(subs[i] == head[i]);
        (i, subs.len() - 1)
    }
}

/// Listeners are told of an event in the order in which they subscribed.
pub proof fn told_in_subscription_order(r: RegistryView, event: Modification, p: int, q: int) -> (
    found: (int, int)
)
    requires
        0 <= p < q < r.deliveries(event).len(),
    ensures
        0 <= found.0 < found.1 < r.subscriptions.len(),
        r.subscriptions[found.0].handle == r.deliveries(event)[p].handle,
        r.subscriptions[found.1].handle == r.deliveries(event)[q].handle,
{
    lemma_kept_order(r.subscriptions, r.hearing(event), p, q)
}

/// A subscription that has ended is told of nothing.
pub proof fn unsubscribed_hears_nothing(
    r: RegistryView,
    handle: SubscriptionHandle,
    event: Modification,
)
    ensures
        count_for(r.keeping(not_handle(handle)).deliveries(event), handle) == 0,
{
    let left = r.keeping(not_handle(handle));
    lemma_kept(r.subscriptions, not_handle(handle));
    assert forall|i: int|
        0 <= i < left.subscriptions.len() && left.hearing(event)(
            #[trigger] left.subscriptions[i],
        ) implies left.subscriptions[i].handle != handle by {
        assert(not_handle(handle)(left.subscriptions[i]));
    }
    lemma_count_absent(left.subscriptions, left.hearing(event), event.kind, handle);
}

/// A structure that has been disposed of is told of nothing: no call of an
/// event goes to a subscription that was its own.
pub proof fn disposed_hears_nothing(r: RegistryView, owner: OwnerId, event: Modification, i: int)
    requires
        r.wf(),
        0 <= i < r.subscriptions.len(),
        r.subscriptions[i].owner == owner,
    ensures
        count_for(r.keeping(not_owner(owner)).deliveries(event), r.subscriptions[i].handle) == 0,
{
    let left = r.keeping(not_owner(owner));
    let handle = r.subscriptions[i].handle;
    lemma_kept(r.subscriptions, not_owner(owner));
    assert forall|k: int|
        0 <= k < left.subscriptions.len() && left.hearing(event)(
            #[trigger] left.subscriptions[k],
        ) implies left.subscriptions[k].handle != handle by {
        let sub = left.subscriptions[k];
        assert(not_owner(owner)(sub));
        assert(r.subscriptions.contains(sub));
        let j = choose|j: int| 0 <= j < r.subscriptions.len() && r.subscriptions[j] == sub;
        if j < i {
            assert(r.subscriptions[j].handle != r.subscriptions[i].handle);
        } else if i < j {
            assert(r.subscriptions[i].handle != r.subscriptions[j].handle);
        }
    }
    lemma_count_absent(left.subscriptions, left.hearing(event), event.kind, handle);
}

} // verus!
