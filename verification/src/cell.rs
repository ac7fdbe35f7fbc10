//! State cells: one value each, read under shared leases, written under an
//! exclusive one, with an event for every write that changed the value.

use vstd::prelude::*;

verus! {

/// The stream of events of one cell, or a merge of such streams.
#[derive(Clone, Copy, Debug, PartialEq, Eq, Structural)]
pub struct StreamId(pub usize);

/// How a write wants to be heard.
#[derive(Clone, Copy, Debug, PartialEq, Eq, Structural)]
pub enum MutationKind {
    /// Everyone who listens is told.
    Notify,
    /// Nobody is told: something else derives what depends on the value.
    Silent,
    /// Listeners are told that the value is another one, not that what is
    /// derived from its parts has to be computed anew.
    Shallow,
}

/// A second lease was asked for while an exclusive one is held, or an
/// exclusive one while any is held.
#[derive(Clone, Copy, Debug, PartialEq, Eq, Structural)]
pub struct BorrowConflict;

/// The event of a write that changed the value of a cell.
#[derive(Clone, Copy, Debug, PartialEq, Eq, Structural)]
pub struct Modification {
    pub stream: StreamId,
    pub kind: MutationKind,
}

/// The token of a shared lease.
#[derive(Debug, PartialEq, Eq)]
pub struct ReadGuard {
    stream: StreamId,
}

/// The token of an exclusive lease.
#[derive(Debug, PartialEq, Eq)]
pub struct WriteGuard {
    stream: StreamId,
}

impl ReadGuard {
    /// The stream of the cell that the lease is held on.
    pub closed spec fn cell(self) -> StreamId {
        self.stream
    }
}

impl WriteGuard {
    /// The stream of the cell that the lease is held on.
    pub closed spec fn cell(self) -> StreamId {
        self.stream
    }
}

/// How many leases of each kind are held on a cell.
pub struct Leases {
    pub readers: nat,
    pub writers: nat,
}

/// What can be asked of the leases of a cell.
pub enum LeaseOp {
    Read,
    EndRead,
    Write,
    EndWrite,
}

impl Leases {
    /// No lease is held.
    pub open spec fn none() -> Leases {
        Leases { readers: 0, writers: 0 }
    }

    /// At most one exclusive lease is held, and no shared one beside it.
    pub open spec fn exclusive(self) -> bool {
        self.writers <= 1 && (self.writers == 1 ==> self.readers == 0)
    }

    /// Whether `op` asks for a lease that cannot be had now.
    pub open spec fn conflicts(self, op: LeaseOp) -> bool {
        match op {
            LeaseOp::Read => self.writers > 0,
            LeaseOp::Write => self.writers > 0 || self.readers > 0,
            LeaseOp::EndRead => false,
            LeaseOp::EndWrite => false,
        }
    }

    /// The leases after `op`: a lease that cannot be had is not given, and
    /// ending a lease that is not held changes nothing.
    pub open spec fn step(self, op: LeaseOp) -> Leases {
        if self.conflicts(op) {
            self
        } else {
            match op {
                LeaseOp::Read => Leases { readers: self.readers + 1, writers: self.writers },
                LeaseOp::Write => Leases { readers: self.readers, writers: self.writers + 1 },
                LeaseOp::EndRead => Leases {
                    readers: if self.readers > 0 {
                        (self.readers - 1) as nat
                    } else {
                        0
                    },
                    writers: self.writers,
                },
                LeaseOp::EndWrite => Leases {
                    readers: self.readers,
                    writers: if self.writers > 0 {
                        (self.writers - 1) as nat
                    } else {
                        0
                    },
                },
            }
        }
    }

    /// The leases after all of `ops`, one after the other.
    pub open spec fn run(self, ops: Seq<LeaseOp>) -> Leases
        decreases ops.len(),
    {
        if ops.len() == 0 {
            self
        } else {
            self.run(ops.drop_last()).step(ops.last())
        }
    }
}

/// Whatever leases are asked for and ended on a cell, in whatever order, at
/// most one exclusive lease is held at any time, and no shared one beside
/// it.
pub proof fn leases_stay_exclusive(ops: Seq<LeaseOp>)
    ensures
        Leases::none().run(ops).exclusive(),
    decreases ops.len(),
{
    if ops.len() > 0 {
        leases_stay_exclusive(ops.drop_last());
    }
}

/// While an exclusive lease is held, asking for another one is a conflict,
/// and so is asking for a shared one.
pub proof fn nested_write_conflicts(ops: Seq<LeaseOp>)
    requires
        Leases::none().run(ops).writers > 0,
    ensures
        Leases::none().run(ops).conflicts(LeaseOp::Write),
        Leases::none().run(ops).conflicts(LeaseOp::Read),
        Leases::none().run(ops.push(LeaseOp::Write)) == Leases::none().run(ops),
{
    assert(ops.push(LeaseOp::Write).drop_last() =~= ops);
}

/// One value, with the leases held on it.
pub struct StateCell<V> {
    value: V,
    readers: usize,
    writing: Option<MutationKind>,
    mutated: bool,
    stream: StreamId,
}

/// The mathematical value of a [`StateCell`].
pub struct CellView<V> {
    pub value: V,
    pub leases: Leases,
    /// How the exclusive lease, if one is held, wants to be heard.
    pub kind: Option<MutationKind>,
    /// Whether the value was written under the exclusive lease.
    pub mutated: bool,
    pub stream: StreamId,
}

impl<V> CellView<V> {
    /// The same cell with other leases.
    pub open spec fn with_leases(self, leases: Leases) -> CellView<V> {
        CellView {
            value: self.value,
            leases,
            kind: self.kind,
            mutated: self.mutated,
            stream: self.stream,
        }
    }

    /// The cell under a fresh exclusive lease of the kind `kind`.
    pub open spec fn written(self, kind: MutationKind) -> CellView<V> {
        CellView {
            value: self.value,
            leases: self.leases.step(LeaseOp::Write),
            kind: Some(kind),
            mutated: false,
            stream: self.stream,
        }
    }

    /// The cell after `value` was stored under the exclusive lease.
    pub open spec fn stored(self, value: V) -> CellView<V> {
        CellView {
            value,
            leases: self.leases,
            kind: self.kind,
            mutated: true,
            stream: self.stream,
        }
    }

    /// The cell after the exclusive lease has ended.
    pub open spec fn released(self) -> CellView<V> {
        CellView {
            value: self.value,
            leases: self.leases.step(LeaseOp::EndWrite),
            kind: None,
            mutated: false,
            stream: self.stream,
        }
    }

    /// The event that the end of the exclusive lease emits: one if the value
    /// was written, none otherwise.
    pub open spec fn event(self) -> Option<Modification> {
        match self.kind {
            Some(kind) => if self.mutated {
                Some(Modification { stream: self.stream, kind })
            } else {
                None
            },
            None => None,
        }
    }

    /// The leases are exclusive, and the cell knows the kind of the
    /// exclusive lease exactly while one is held.
    pub open spec fn inv(self) -> bool {
        &&& self.leases.exclusive()
        &&& self.kind is Some <==> self.leases.writers == 1
        &&& self.mutated ==> self.kind is Some
        &&& self.leases.readers <= usize::MAX
    }
}

impl<V> View for StateCell<V> {
    type V = CellView<V>;

    closed spec fn view(&self) -> CellView<V> {
        CellView {
            value: self.value,
            leases: Leases {
                readers: self.readers as nat,
                writers: if self.writing is Some {
                    1
                } else {
                    0
                },
            },
            kind: self.writing,
            mutated: self.mutated && self.writing is Some,
            stream: self.stream,
        }
    }
}

impl<V> StateCell<V> {
    /// A cell that holds `value` and emits its events on `stream`.
    pub fn new(value: V, stream: StreamId) -> (cell: StateCell<V>)
        ensures
            cell@ == (CellView {
                value,
                leases: Leases::none(),
                kind: None,
                mutated: false,
                stream,
            }),
            cell@.inv(),
    {
        StateCell { value, readers: 0, writing: None, mutated: false, stream }
    }

    /// The stream on which the cell emits its events.
    pub fn modifications(&self) -> (stream: StreamId)
        ensures
            stream == self@.stream,
    {
        self.stream
    }

    /// The number of shared leases that are held.
    pub fn readers(&self) -> (n: usize)
        ensures
            n == self@.leases.readers,
    {
        self.readers
    }

    /// Whether an exclusive lease is held.
    pub fn is_writing(&self) -> (b: bool)
        ensures
            b == (self@.leases.writers > 0),
    {
        self.writing.is_some()
    }

    /// The value as it is now.
    pub fn value(&self) -> (v: &V)
        ensures
            *v == self@.value,
    {
        &self.value
    }

    /// Takes a shared lease: any number of them can be held at a time, but
    /// none beside an exclusive lease.
    pub fn read(&mut self) -> (r: Result<ReadGuard, BorrowConflict>)
        requires
            old(self)@.inv(),
            old(self)@.leases.readers < usize::MAX,
        ensures
            final(self)@.inv(),
            final(self)@ == old(self)@.with_leases(old(self)@.leases.step(LeaseOp::Read)),
            r is Err <==> old(self)@.leases.conflicts(LeaseOp::Read),
            r matches Ok(guard) ==> guard.cell() == old(self)@.stream,
    {
        if self.writing.is_some() {
            Err(BorrowConflict)
        } else {
            self.readers = self.readers + 1;
            Ok(ReadGuard { stream: self.stream })
        }
    }

    /// Ends a shared lease. The token of a lease on another cell ends
    /// nothing.
    pub fn end_read(&mut self, guard: ReadGuard)
        requires
            old(self)@.inv(),
        ensures
            final(self)@.inv(),
            final(self)@ == if guard.cell() == old(self)@.stream {
                old(self)@.with_leases(old(self)@.leases.step(LeaseOp::EndRead))
            } else {
                old(self)@
            },
    {
        if guard.stream.0 == self.stream.0 && self.readers > 0 {
            self.readers = self.readers - 1;
        }
    }

    /// Takes the exclusive lease, of the kind `kind`: it cannot be had while
    /// any lease is held.
    pub fn write_as(&mut self, kind: MutationKind) -> (r: Result<WriteGuard, BorrowConflict>)
        requires
            old(self)@.inv(),
        ensures
            final(self)@.inv(),
            match r {
                Ok(guard) => !old(self)@.leases.conflicts(LeaseOp::Write) && final(self)@ == old(
                    self,
                )@.written(kind) && guard.cell() == old(self)@.stream,
                Err(_) => old(self)@.leases.conflicts(LeaseOp::Write) && final(self)@ == old(
                    self,
                )@,
            },
    {
        if self.writing.is_some() || self.readers > 0 {
            Err(BorrowConflict)
        } else {
            self.writing = Some(kind);
            self.mutated = false;
            Ok(WriteGuard { stream: self.stream })
        }
    }

    /// Takes the exclusive lease for a write that everyone is told of.
    pub fn write(&mut self) -> (r: Result<WriteGuard, BorrowConflict>)
        requires
            old(self)@.inv(),
        ensures
            final(self)@.inv(),
            match r {
                Ok(guard) => !old(self)@.leases.conflicts(LeaseOp::Write) && final(self)@ == old(
                    self,
                )@.written(MutationKind::Notify) && guard.cell() == old(self)@.stream,
                Err(_) => old(self)@.leases.conflicts(LeaseOp::Write) && final(self)@ == old(
                    self,
                )@,
            },
    {
        self.write_as(MutationKind::Notify)
    }

    /// Takes the exclusive lease for a write that nobody is told of.
    pub fn write_silent(&mut self) -> (r: Result<WriteGuard, BorrowConflict>)
        requires
            old(self)@.inv(),
        ensures
            final(self)@.inv(),
            match r {
                Ok(guard) => !old(self)@.leases.conflicts(LeaseOp::Write) && final(self)@ == old(
                    self,
                )@.written(MutationKind::Silent) && guard.cell() == old(self)@.stream,
                Err(_) => old(self)@.leases.conflicts(LeaseOp::Write) && final(self)@ == old(
                    self,
                )@,
            },
    {
        self.write_as(MutationKind::Silent)
    }

    /// Takes the exclusive lease for a write of which listeners are told
    /// only that the value is another one.
    pub fn write_shallow(&mut self) -> (r: Result<WriteGuard, BorrowConflict>)
        requires
            old(self)@.inv(),
        ensures
            final(self)@.inv(),
            match r {
                Ok(guard) => !old(self)@.leases.conflicts(LeaseOp::Write) && final(self)@ == old(
                    self,
                )@.written(MutationKind::Shallow) && guard.cell() == old(self)@.stream,
                Err(_) => old(self)@.leases.conflicts(LeaseOp::Write) && final(self)@ == old(
                    self,
                )@,
            },
    {
        self.write_as(MutationKind::Shallow)
    }

    /// Stores `value` under the exclusive lease. Without that lease, or with
    /// the token of a lease on another cell, nothing is stored.
    pub fn set(&mut self, guard: &WriteGuard, value: V)
        requires
            old(self)@.inv(),
        ensures
            final(self)@.inv(),
            final(self)@ == if old(self)@.leases.writers > 0 && guard.cell() == old(self)@.stream {
                old(self)@.stored(value)
            } else {
                old(self)@
            },
    {
        if self.writing.is_some() && guard.stream.0 == self.stream.0 {
            self.value = value;
            self.mutated = true;
        }
    }

    /// Ends the exclusive lease. Returns the event of the write, if the
    /// value was written: it is emitted only now, so that nobody sees a
    /// value that is half written. The token of a lease on another cell ends
    /// nothing.
    pub fn end_write(&mut self, guard: WriteGuard) -> (event: Option<Modification>)
        requires
            old(self)@.inv(),
        ensures
            final(self)@.inv(),
            final(self)@ == if guard.cell() == old(self)@.stream {
                old(self)@.released()
            } else {
                old(self)@
            },
            event == if guard.cell() == old(self)@.stream {
                old(self)@.event()
            } else {
                None
            },
    {
        if guard.stream.0 != self.stream.0 {
            return None;
        }
        let event = match self.writing {
            Some(kind) => {
                if self.mutated {
                    Some(Modification { stream: self.stream, kind })
                } else {
                    None
                }
            },
            None => None,
        };
        self.writing = None;
        self.mutated = false;
        event
    }

    /// Writes `value` in one step: takes the exclusive lease of the kind
    /// `kind`, stores the value and ends the lease. Returns the event of the
    /// write.
    pub fn modify(&mut self, kind: MutationKind, value: V) -> (r: Result<
        Modification,
        BorrowConflict,
    >)
        requires
            old(self)@.inv(),
        ensures
            final(self)@.inv(),
            match r {
                Ok(event) => !old(self)@.leases.conflicts(LeaseOp::Write) && final(self)@ == old(
                    self,
                )@.written(kind).stored(value).released() && event == (Modification {
                    stream: old(self)@.stream,
                    kind,
                }),
                Err(_) => old(self)@.leases.conflicts(LeaseOp::Write) && final(self)@ == old(
                    self,
                )@,
            },
    {
        match self.write_as(kind) {
            Ok(guard) => {
                self.set(&guard, value);
                match self.end_write(guard) {
                    Some(event) => Ok(event),
                    None => Ok(Modification { stream: self.stream, kind }),
                }
            },
            Err(x) => Err(x),
        }
    }
}

} // verus!
