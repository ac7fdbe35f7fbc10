//! Derived values: computed from state cells, computed anew when one of the
//! cells is written, and themselves streams that others can listen to.

use vstd::prelude::*;
use crate::cell::{Modification, MutationKind, StreamId};
use crate::registry::{
    CallbackId, OwnerId, RegistryView, SubscriptionHandle, SubscriptionRegistry,
};

verus! {

/// Why a derived value cannot be made.
#[derive(Clone, Copy, Debug, PartialEq, Eq, Structural)]
pub enum DerivationError {
    /// The value depends on no cell: it would never be computed anew.
    NoDependency,
    /// A dependency is no stream of the registry.
    UnknownStream,
    /// The registry has handed out every handle it has.
    OutOfHandles,
}

/// A value computed from the values of cells: `I` is what the cells hold,
/// `V` what is made of it.
pub struct DerivedValue<I, V, F> {
    inputs: core::marker::PhantomData<I>,
    compute: F,
    dependencies: Vec<StreamId>,
    value: V,
    upstream: StreamId,
    output: StreamId,
    subscription: SubscriptionHandle,
    recomputed: usize,
}

/// The mathematical value of a [`DerivedValue`].
pub struct DerivedView<V, F> {
    pub compute: F,
    /// The streams of the cells that the value is computed from.
    pub dependencies: Seq<StreamId>,
    /// The value as it was computed last.
    pub value: V,
    /// The merge of the dependencies, on which the value listens.
    pub upstream: StreamId,
    /// The stream on which the value tells of itself.
    pub output: StreamId,
    /// The subscription by which the value listens.
    pub subscription: SubscriptionHandle,
    /// How often the value was computed anew.
    pub recomputed: nat,
}

impl<I, V, F> View for DerivedValue<I, V, F> {
    type V = DerivedView<V, F>;

    closed spec fn view(&self) -> DerivedView<V, F> {
        DerivedView {
            compute: self.compute,
            dependencies: self.dependencies@,
            value: self.value,
            upstream: self.upstream,
            output: self.output,
            subscription: self.subscription,
            recomputed: self.recomputed as nat,
        }
    }
}

/// The registry once a value derived from `dependencies` listens in it: it
/// has the merge of the dependencies and the stream of the value, and the
/// subscription of the value on the merge.
pub open spec fn listening(
    r: RegistryView,
    dependencies: Seq<StreamId>,
    callback: CallbackId,
    owner: OwnerId,
) -> RegistryView {
    r.with_stream(r.merged(dependencies)).with_stream(
        set![(r.sources.len() + 1) as usize],
    ).subscribed(StreamId(r.sources.len() as usize), callback, owner)
}

/// Whether every stream of `dependencies` is one of the registry.
pub open spec fn all_known(r: RegistryView, dependencies: Seq<StreamId>) -> bool {
    forall|k: int| 0 <= k < dependencies.len() ==> r.knows(#[trigger] dependencies[k])
}

impl<I, V, F: Fn(&Vec<I>) -> V> DerivedValue<I, V, F> {
    /// Makes a value that is computed by `compute` from the values of the
    /// cells behind `dependencies`. The value is computed at once, from
    /// `inputs`; then it listens, with `callback`, to the merge of its
    /// dependencies.
    ///
    /// A value without dependencies is refused.
    pub fn new(
        registry: &mut SubscriptionRegistry,
        dependencies: Vec<StreamId>,
        compute: F,
        inputs: &Vec<I>,
        callback: CallbackId,
        owner: OwnerId,
    ) -> (r: Result<DerivedValue<I, V, F>, DerivationError>)
        requires
            old(registry)@.wf(),
            call_requires(compute, (inputs,)),
        ensures
            final(registry)@.wf(),
            match r {
                Ok(derived) => {
                    &&& dependencies.len() > 0
                    &&& all_known(old(registry)@, dependencies@)
                    &&& old(registry)@.next_handle < u64::MAX
                    &&& call_ensures(compute, (inputs,), derived@.value)
                    &&& derived@.compute == compute
                    &&& derived@.dependencies == dependencies@
                    &&& derived@.recomputed == 0
                    &&& derived@.upstream.0 == old(registry)@.sources.len()
                    &&& derived@.output.0 == old(registry)@.sources.len() + 1
                    &&& derived@.subscription.0 == old(registry)@.next_handle
                    &&& final(registry)@ == listening(
                        old(registry)@,
                        dependencies@,
                        callback,
                        owner,
                    )
                },
                Err(e) => {
                    &&& final(registry)@ == old(registry)@
                    &&& e == if dependencies.len() == 0 {
                        DerivationError::NoDependency
                    } else if !all_known(old(registry)@, dependencies@) {
                        DerivationError::UnknownStream
                    } else {
                        DerivationError::OutOfHandles
                    }
                    &&& dependencies.len() == 0 || !all_known(old(registry)@, dependencies@) || old(
                        registry,
                    )@.next_handle == u64::MAX
                },
            },
    {
        if dependencies.len() == 0 {
            return Err(DerivationError::NoDependency);
        }
        if !registry.has_handles() {
            // nothing has been registered yet: find out which error it is
            let known = registry.knows_all(&dependencies);
            return Err(
                if known {
                    DerivationError::OutOfHandles
                } else {
                    DerivationError::UnknownStream
                },
            );
        }
        if !registry.knows_all(&dependencies) {
            return Err(DerivationError::UnknownStream);
        }
        let value = compute(inputs);
        let upstream = match registry.merge(&dependencies) {
            Ok(stream) => stream,
            Err(_) => {
                return Err(DerivationError::UnknownStream);
            },
        };
        let output = registry.new_stream();
        let subscription = match registry.subscribe(upstream, callback, owner) {
            Ok(handle) => handle,
            Err(_) => {
                return Err(DerivationError::OutOfHandles);
            },
        };
        Ok(
            DerivedValue {
                inputs: core::marker::PhantomData,
                compute,
                dependencies,
                value,
                upstream,
                output,
                subscription,
                recomputed: 0,
            },
        )
    }

    /// The value as it was computed last.
    pub fn value(&self) -> (v: &V)
        ensures
            *v == self@.value,
    {
        &self.value
    }

    /// The stream on which the value tells of itself.
    pub fn output(&self) -> (stream: StreamId)
        ensures
            stream == self@.output,
    {
        self.output
    }

    /// The merge of the dependencies, on which the value listens.
    pub fn upstream(&self) -> (stream: StreamId)
        ensures
            stream == self@.upstream,
    {
        self.upstream
    }

    /// The subscription by which the value listens.
    pub fn subscription(&self) -> (handle: SubscriptionHandle)
        ensures
            handle == self@.subscription,
    {
        self.subscription
    }

    /// How often the value was computed anew.
    pub fn recomputed(&self) -> (n: usize)
        ensures
            n == self@.recomputed,
    {
        self.recomputed
    }

    /// Takes a notification of the kind `kind` from a dependency, the cells
    /// now holding `inputs`.
    ///
    /// A write that everyone is told of has the value computed anew, once,
    /// before this call returns. A shallow write is passed on as it is,
    /// without computing. Either way those who listen to the value are told:
    /// whether the new value differs from the old one is not for the value
    /// to judge.
    pub fn notified(&mut self, kind: MutationKind, inputs: &Vec<I>) -> (event: Option<
        Modification,
    >)
        requires
            kind == MutationKind::Notify ==> call_requires(old(self)@.compute, (inputs,)),
            old(self)@.recomputed < usize::MAX,
        ensures
            final(self)@.compute == old(self)@.compute,
            final(self)@.dependencies == old(self)@.dependencies,
            final(self)@.upstream == old(self)@.upstream,
            final(self)@.output == old(self)@.output,
            final(self)@.subscription == old(self)@.subscription,
            match kind {
                MutationKind::Notify => {
                    &&& call_ensures(old(self)@.compute, (inputs,), final(self)@.value)
                    &&& final(self)@.recomputed == old(self)@.recomputed + 1
                    &&& event == Some(
                        Modification { stream: old(self)@.output, kind: MutationKind::Notify },
                    )
                },
                MutationKind::Shallow => {
                    &&& final(self)@.value == old(self)@.value
                    &&& final(self)@.recomputed == old(self)@.recomputed
                    &&& event == Some(
                        Modification { stream: old(self)@.output, kind: MutationKind::Shallow },
                    )
                },
                MutationKind::Silent => {
                    &&& final(self)@.value == old(self)@.value
                    &&& final(self)@.recomputed == old(self)@.recomputed
                    &&& event is None
                },
            },
    {
        match kind {
            MutationKind::Notify => {
                self.value = (self.compute)(inputs);
                self.recomputed = self.recomputed + 1;
                Some(Modification { stream: self.output, kind: MutationKind::Notify })
            },
            MutationKind::Shallow => Some(
                Modification { stream: self.output, kind: MutationKind::Shallow },
            ),
            MutationKind::Silent => None,
        }
    }
}

} // verus!
