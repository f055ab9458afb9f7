//! Cycler execution engine: the bookkeeping protocol of the
//! thread-per-cycler execution model.
//!
//! A cycler is Idle until started, Running while it cycles, and Stopped —
//! terminally — on cancellation or on an unrecoverable error. A real-time
//! cycler drives the canonical clock: each cycle it opens the write handle
//! on its own buffer, originates an aggregate entry for the new timestamp,
//! archives its snapshot for perception lookups, drains completed
//! perception results, prunes by the pending watermark, and publishes. A
//! perception cycler is triggered by an input captured at some real-time
//! instant: it announces that instant, runs its stages, finalizes its
//! result into the owner's queue and publishes its own buffer.
//!
//! Cancellation is cooperative: a shared flag checked once per cycle
//! boundary. Any stage failure aborts the cycle unpublished, stops the
//! cycler and raises the process-wide flag — fail-stop, no retry.

use vstd::prelude::*;

use crate::Timestamp;
use crate::archive::HistoricArchive;
use crate::hardware::HardwareInterface;
use crate::buffer::{ReadHandle, StateBuffer, WriteHandle};
use crate::merge::{Aggregate, MergeQueue};

verus! {

/// The two scheduling kinds of a cycler.
#[derive(Clone, Copy, Debug, PartialEq, Eq, Structural)]
pub enum CyclerKind {
    /// Fixed-period; drives actuation and the canonical clock.
    RealTime,
    /// Event-triggered, asynchronous to the real-time loop.
    Perception,
}

/// The lifecycle of a cycler. Stopped is terminal.
#[derive(Clone, Copy, Debug, PartialEq, Eq, Structural)]
pub enum CyclerState {
    Idle,
    Running,
    Stopped,
}

/// Why the engine refused an operation.
#[derive(Clone, Copy, Debug, PartialEq, Eq, Structural)]
pub enum EngineError {
    /// A buffer needs at least two slots.
    TooFewSlots,
    /// An archive needs room for at least one entry.
    ZeroArchiveCapacity,
    /// Only an Idle cycler can be started.
    NotIdle,
    /// The cycler is not Running.
    NotRunning,
    /// A cycle or trigger is already open.
    CycleAlreadyOpen,
    /// No cycle or trigger is open.
    NoOpenCycle,
    /// The clock handed a timestamp at or before the previous one.
    ClockWentBackwards,
    /// Every slot is held by a reader.
    AllSlotsBusy,
    /// A completed result names a timestamp with no aggregate entry.
    MissingAggregateEntry,
    /// The capture timestamp is already announced or already finalized.
    DuplicateTrigger,
    /// Finalize found no matching open announce.
    TriggerNotOpen,
}

/// Process-wide cooperative cancellation: set once, checked by every
/// cycler at its cycle boundary.
pub struct CancellationFlag {
    cancelled: bool,
}

impl CancellationFlag {
    /// Whether cancellation was requested.
    pub closed spec fn is_cancelled_spec(&self) -> bool {
        self.cancelled
    }

    /// Creates a flag with no cancellation requested.
    pub fn new() -> (r: Self)
        ensures
            !r.is_cancelled_spec(),
    {
        CancellationFlag { cancelled: false }
    }

    /// Requests process-wide shutdown. Never unset.
    pub fn cancel(&mut self)
        ensures
            final(self).is_cancelled_spec(),
    {
        self.cancelled = true;
    }

    /// Reads the flag.
    pub fn is_cancelled(&self) -> (r: bool)
        ensures
            r == self.is_cancelled_spec(),
    {
        self.cancelled
    }
}

/// A stage runs only when all of its required inputs are present; with
/// any absent the stage is skipped and its outputs are forced absent.
pub fn required_inputs_present<V>(inputs: &Vec<Option<V>>) -> (r: bool)
    ensures
        r <==> forall|i: int| 0 <= i < inputs@.len() ==> inputs@[i] is Some,
{
    let n = inputs.len();
    let mut i: usize = 0;
    while i < n
        invariant
            n == inputs@.len(),
            i <= n,
            forall|j: int| 0 <= j < i ==> inputs@[j] is Some,
        decreases n - i,
    {
        if inputs[i].is_none() {
            return false;
        }
        i = i + 1;
    }
    true
}

/// A real-time cycler: owner of its state buffer, of the lookback archive
/// of its own snapshots, and of the aggregate its perception producers
/// report into. It originates the canonical timestamps.
pub struct RealtimeCycler<T, U> {
    state: CyclerState,
    buffer: StateBuffer<T>,
    archive: HistoricArchive<T>,
    aggregate: Aggregate<U>,
    open_cycle: Option<(Timestamp, WriteHandle)>,
    last_cycle: Option<Timestamp>,
}

impl<T, U> RealtimeCycler<T, U> {
    /// The lifecycle state.
    pub closed spec fn state_spec(&self) -> CyclerState {
        self.state
    }

    /// The cycler's own state buffer.
    pub closed spec fn buffer_spec(&self) -> StateBuffer<T> {
        self.buffer
    }

    /// The archive of this cycler's own snapshots.
    pub closed spec fn archive_spec(&self) -> HistoricArchive<T> {
        self.archive
    }

    /// The per-timestamp aggregate this cycler owns.
    pub closed spec fn aggregate_spec(&self) -> Aggregate<U> {
        self.aggregate
    }

    /// The timestamp of the open cycle, if one is open.
    pub closed spec fn open_cycle_ts(&self) -> Option<Timestamp> {
        match self.open_cycle {
            Some((ts, _)) => Some(ts),
            None => None,
        }
    }

    /// The timestamp of the most recently begun cycle.
    pub closed spec fn last_cycle_spec(&self) -> Option<Timestamp> {
        self.last_cycle
    }

    /// `a` and `b` agree on everything but the lifecycle state.
    pub open spec fn same_components(a: Self, b: Self) -> bool {
        &&& a.buffer_spec() == b.buffer_spec()
        &&& a.archive_spec() == b.archive_spec()
        &&& a.aggregate_spec() == b.aggregate_spec()
        &&& a.open_cycle_ts() == b.open_cycle_ts()
        &&& a.last_cycle_spec() == b.last_cycle_spec()
    }

    /// Well-formedness, established by `new` and preserved by every
    /// operation.
    pub closed spec fn wf(&self) -> bool {
        &&& self.buffer.wf()
        &&& self.archive.wf()
        &&& self.aggregate.wf()
        &&& match self.open_cycle {
            Some((ts, h)) => {
                &&& self.state == CyclerState::Running
                &&& self.last_cycle == Some(ts)
                &&& self.buffer.writing_to(h.slot_spec())
                &&& self.buffer.readers_at(h.slot_spec()) == 0
                &&& self.aggregate.has_entry(ts)
            },
            None => !self.buffer.write_open(),
        }
        &&& match self.last_cycle {
            Some(last) => {
                &&& forall|i: int| 0 <= i < self.aggregate@.len() ==> self.aggregate@[i].0
                    <= last
                &&& forall|i: int| 0 <= i < self.archive@.len() ==> self.archive@[i].0 <= last
            },
            None => self.aggregate@.len() == 0 && self.archive@.len() == 0,
        }
    }

    /// Creates an Idle real-time cycler over the given slot pool and an
    /// archive of the given capacity. The pool needs at least two slots
    /// and the archive room for at least one entry; anything less is a
    /// configuration error.
    pub fn new(slots: Vec<T>, archive_capacity: usize) -> (r: Result<Self, EngineError>)
        ensures
            slots@.len() < 2 ==> r == Err::<Self, EngineError>(EngineError::TooFewSlots),
            slots@.len() >= 2 && archive_capacity == 0 ==> r == Err::<Self, EngineError>(
                EngineError::ZeroArchiveCapacity,
            ),
            slots@.len() >= 2 && archive_capacity >= 1 ==> (r matches Ok(cycler) && {
                &&& cycler.wf()
                &&& cycler.state_spec() == CyclerState::Idle
                &&& cycler.open_cycle_ts() is None
                &&& cycler.last_cycle_spec() is None
                &&& cycler.archive_spec()@ == Seq::<(Timestamp, T)>::empty()
                &&& cycler.archive_spec().capacity_spec() == archive_capacity
                &&& cycler.aggregate_spec()@ == Seq::<(Timestamp, Seq<U>)>::empty()
                &&& cycler.buffer_spec().len_spec() == slots@.len()
                &&& cycler.buffer_spec().current_spec() == 0
                &&& forall|i: int| 0 <= i < slots@.len() ==> cycler.buffer_spec().value_at(i)
                    == slots@[i]
                &&& forall|i: int| 0 <= i < slots@.len() ==> cycler.buffer_spec().readers_at(i)
                    == 0
            }),
    {
        let buffer = match StateBuffer::new(slots) {
            Ok(buffer) => buffer,
            Err(_) => {
                return Err(EngineError::TooFewSlots);
            },
        };
        let archive = match HistoricArchive::new(archive_capacity) {
            Ok(archive) => archive,
            Err(_) => {
                return Err(EngineError::ZeroArchiveCapacity);
            },
        };
        Ok(
            RealtimeCycler {
                state: CyclerState::Idle,
                buffer,
                archive,
                aggregate: Aggregate::new(),
                open_cycle: None,
                last_cycle: None,
            },
        )
    }

    /// Starts the cycler: Idle becomes Running; anything else is refused.
    pub fn start(&mut self) -> (r: Result<(), EngineError>)
        requires
            old(self).wf(),
        ensures
            final(self).wf(),
            r is Err <==> old(self).state_spec() != CyclerState::Idle,
            r is Err ==> r == Err::<(), EngineError>(EngineError::NotIdle) && *final(self) == *old(self),
            r is Ok ==> final(self).state_spec() == CyclerState::Running
                && Self::same_components(*old(self), *final(self)),
    {
        if !matches!(self.state, CyclerState::Idle) {
            return Err(EngineError::NotIdle);
        }
        self.state = CyclerState::Running;
        Ok(())
    }

    /// The cooperative cancellation check at the cycle boundary: a
    /// Running cycler stops when the flag is set; the result says whether
    /// the cycler is still Running.
    pub fn check_cancellation(&mut self, flag: &CancellationFlag) -> (running: bool)
        requires
            old(self).wf(),
            old(self).open_cycle_ts() is None,
        ensures
            final(self).wf(),
            running <==> final(self).state_spec() == CyclerState::Running,
            old(self).state_spec() == CyclerState::Running && flag.is_cancelled_spec()
                ==> final(self).state_spec() == CyclerState::Stopped && Self::same_components(
                *old(self),
                *final(self),
            ),
            !(old(self).state_spec() == CyclerState::Running && flag.is_cancelled_spec())
                ==> *final(self) == *old(self),
    {
        if matches!(self.state, CyclerState::Running) {
            if flag.is_cancelled() {
                self.state = CyclerState::Stopped;
                return false;
            }
            return true;
        }
        false
    }

    /// Opens the cycle for the freshly originated timestamp `now`: takes
    /// the write handle on the own buffer and creates the aggregate entry
    /// that perception producers will report into. The clock is monotonic:
    /// `now` must lie strictly after the previous cycle.
    pub fn begin_cycle(&mut self, now: Timestamp) -> (r: Result<(), EngineError>)
        requires
            old(self).wf(),
        ensures
            final(self).wf(),
            r == Err::<(), EngineError>(EngineError::NotRunning) <==> old(self).state_spec()
                != CyclerState::Running,
            r == Err::<(), EngineError>(EngineError::CycleAlreadyOpen) <==> old(self).state_spec()
                == CyclerState::Running && old(self).open_cycle_ts() is Some,
            r == Err::<(), EngineError>(EngineError::ClockWentBackwards) <==> {
                &&& old(self).state_spec() == CyclerState::Running
                &&& old(self).open_cycle_ts() is None
                &&& match old(self).last_cycle_spec() {
                    Some(last) => now <= last,
                    None => false,
                }
            },
            r == Err::<(), EngineError>(EngineError::AllSlotsBusy) <==> {
                &&& old(self).state_spec() == CyclerState::Running
                &&& old(self).open_cycle_ts() is None
                &&& match old(self).last_cycle_spec() {
                    Some(last) => now > last,
                    None => true,
                }
                &&& forall|i: int|
                    0 <= i < old(self).buffer_spec().len_spec() ==> old(self).buffer_spec().readers_at(i) > 0
            },
            r is Err <==> old(self).state_spec() != CyclerState::Running || old(self).open_cycle_ts() is Some || (match old(self).last_cycle_spec() {
                Some(last) => now <= last,
                None => false,
            }) || (forall|i: int|
                0 <= i < old(self).buffer_spec().len_spec() ==> old(self).buffer_spec().readers_at(i) > 0),
            r is Err ==> *final(self) == *old(self),
            r is Ok ==> {
                &&& final(self).state_spec() == CyclerState::Running
                &&& final(self).open_cycle_ts() == Some(now)
                &&& final(self).last_cycle_spec() == Some(now)
                &&& final(self).aggregate_spec()@ == old(self).aggregate_spec()@.push(
                    (now, Seq::<U>::empty()),
                )
                &&& final(self).archive_spec() == old(self).archive_spec()
                &&& final(self).buffer_spec().len_spec() == old(self).buffer_spec().len_spec()
                &&& final(self).buffer_spec().current_spec() == old(self).buffer_spec().current_spec()
                &&& final(self).buffer_spec().write_open()
                &&& forall|i: int| 0 <= i < old(self).buffer_spec().len_spec() ==> final(self).buffer_spec().value_at(i) == old(self).buffer_spec().value_at(i)
                &&& forall|i: int| 0 <= i < old(self).buffer_spec().len_spec() ==> final(self).buffer_spec().readers_at(i) == old(self).buffer_spec().readers_at(i)
            },
    {
        if !matches!(self.state, CyclerState::Running) {
            return Err(EngineError::NotRunning);
        }
        if self.open_cycle.is_some() {
            return Err(EngineError::CycleAlreadyOpen);
        }
        if let Some(last) = self.last_cycle {
            if now <= last {
                return Err(EngineError::ClockWentBackwards);
            }
        }
        let handle = match self.buffer.acquire_write() {
            Ok(handle) => handle,
            Err(_) => {
                return Err(EngineError::AllSlotsBusy);
            },
        };
        proof {
            assert(!(forall|i: int|
                0 <= i < old(self).buffer_spec().len_spec() ==> old(self).buffer_spec().readers_at(i) > 0)) by {
                assert(old(self).buffer_spec().readers_at(handle.slot_spec()) == 0);
            }
        }
        match self.aggregate.create_entry(now) {
            Ok(()) => {},
            Err(_) => {
                proof {
                    assert(false);
                }
            },
        }
        self.open_cycle = Some((now, handle));
        self.last_cycle = Some(now);
        proof {
            let agg = self.aggregate@;
            assert(agg == old(self).aggregate_spec()@.push((now, Seq::<U>::empty())));
            assert(agg[agg.len() - 1].0 == now);
            assert(self.aggregate.has_entry(now));
            assert forall|i: int| 0 <= i < agg.len() implies agg[i].0 <= now by {
                if i < agg.len() - 1 {
                    assert(agg[i] == old(self).aggregate_spec()@[i]);
                }
            }
            assert forall|i: int| 0 <= i < self.archive@.len() implies self.archive@[i].0
                <= now by {
                assert(self.archive@[i] == old(self).archive_spec()@[i]);
            }
        }
        Ok(())
    }

    /// Archives a snapshot of the outputs under the open cycle's
    /// timestamp, so that perception cyclers can look this instant up.
    pub fn archive_snapshot(&mut self, value: T) -> (r: Result<(), EngineError>)
        requires
            old(self).wf(),
        ensures
            final(self).wf(),
            r is Err <==> old(self).open_cycle_ts() is None,
            r is Err ==> r == Err::<(), EngineError>(EngineError::NoOpenCycle) && *final(self)
                == *old(self),
            r is Ok ==> {
                &&& final(self).archive_spec()@ == HistoricArchive::<T>::recorded(
                    old(self).archive_spec()@,
                    old(self).archive_spec().capacity_spec(),
                    old(self).open_cycle_ts()->Some_0,
                    value,
                )
                &&& final(self).archive_spec().capacity_spec() == old(self).archive_spec().capacity_spec()
                &&& final(self).buffer_spec() == old(self).buffer_spec()
                &&& final(self).aggregate_spec() == old(self).aggregate_spec()
                &&& final(self).state_spec() == old(self).state_spec()
                &&& final(self).open_cycle_ts() == old(self).open_cycle_ts()
                &&& final(self).last_cycle_spec() == old(self).last_cycle_spec()
            },
    {
        let timestamp = match &self.open_cycle {
            Some((ts, _)) => *ts,
            None => {
                return Err(EngineError::NoOpenCycle);
            },
        };
        match self.archive.record(timestamp, value) {
            Ok(()) => {},
            Err(_) => {
                proof {
                    assert(false);
                }
            },
        }
        Ok(())
    }

    /// Releases the write handle, publishing `outputs` as the new current
    /// snapshot, and closes the cycle. Views already acquired by readers
    /// stay unchanged; readers that acquire from now on see `outputs`.
    pub fn finish_cycle(&mut self, outputs: T) -> (r: Result<(), EngineError>)
        requires
            old(self).wf(),
        ensures
            final(self).wf(),
            r is Err <==> old(self).open_cycle_ts() is None,
            r is Err ==> r == Err::<(), EngineError>(EngineError::NoOpenCycle) && *final(self)
                == *old(self),
            r is Ok ==> {
                &&& final(self).open_cycle_ts() is None
                &&& final(self).state_spec() == old(self).state_spec()
                &&& final(self).last_cycle_spec() == old(self).last_cycle_spec()
                &&& final(self).archive_spec() == old(self).archive_spec()
                &&& final(self).aggregate_spec() == old(self).aggregate_spec()
                &&& final(self).buffer_spec().len_spec() == old(self).buffer_spec().len_spec()
                &&& !final(self).buffer_spec().write_open()
                &&& final(self).buffer_spec().value_at(
                    final(self).buffer_spec().current_spec(),
                ) == outputs
                &&& forall|i: int| 0 <= i < old(self).buffer_spec().len_spec() ==> final(self).buffer_spec().readers_at(i) == old(self).buffer_spec().readers_at(i)
                &&& StateBuffer::<T>::held_views_unchanged(
                    old(self).buffer_spec(),
                    final(self).buffer_spec(),
                )
            },
    {
        let open = self.open_cycle.take();
        match open {
            Some((_ts, handle)) => {
                let ghost pre = self.buffer;
                let ghost hs = handle.slot_spec();
                self.buffer.write(&handle, outputs);
                let ghost mid = self.buffer;
                self.buffer.publish(handle);
                proof {
                    pre.lemma_writing_slot_in_range(hs);
                    assert(self.buffer.current_spec() == hs);
                    assert(0 <= hs < mid.len_spec());
                    assert(mid.value_at(hs) == outputs);
                    assert(self.buffer.value_at(hs) == mid.value_at(hs));
                    assert(self.buffer.value_at(self.buffer.current_spec()) == outputs);
                    assert forall|i: int|
                        0 <= i < pre.len_spec() && pre.readers_at(i) > 0
                        implies self.buffer.value_at(i) == pre.value_at(i) by {
                        assert(mid.value_at(i) == pre.value_at(i));
                    }
                    assert(StateBuffer::<T>::held_views_unchanged(pre, self.buffer));
                }
                Ok(())
            },
            None => Err(EngineError::NoOpenCycle),
        }
    }

    /// The aggregate contents after draining every queue in order: the
    /// sequence-level mirror of `drain`.
    pub open spec fn drained_all(
        agg: Seq<(Timestamp, Seq<U>)>,
        queues: Seq<MergeQueue<U>>,
    ) -> Seq<(Timestamp, Seq<U>)>
        decreases queues.len(),
    {
        if queues.len() == 0 {
            agg
        } else {
            Self::drained_all(
                Aggregate::<U>::drained(agg, queues[0].completed_spec()),
                queues.skip(1),
            )
        }
    }

    /// Once per cycle, moves every completed result of every producer
    /// into the aggregate entry of its timestamp. A completed result for
    /// a timestamp with no entry is a contract violation — prevented by
    /// construction when producers only report timestamps this cycler
    /// originated: then each entry pre-exists. A violation is fatal: the
    /// cycler stops, nothing moves, and the violation is reported.
    pub fn drain(&mut self, queues: &mut Vec<MergeQueue<U>>) -> (r: Result<(), EngineError>)
        requires
            old(self).wf(),
            forall|q: int| 0 <= q < old(queues)@.len() ==> (#[trigger] old(queues)@[q]).wf(),
        ensures
            final(self).wf(),
            forall|q: int| 0 <= q < final(queues)@.len() ==> (#[trigger] final(queues)@[q]).wf(),
            final(queues)@.len() == old(queues)@.len(),
            r == Err::<(), EngineError>(EngineError::NotRunning) <==> old(self).state_spec()
                != CyclerState::Running,
            r == Err::<(), EngineError>(EngineError::MissingAggregateEntry) <==> {
                &&& old(self).state_spec() == CyclerState::Running
                &&& exists|q: int, i: int|
                    0 <= q < old(queues)@.len() && 0 <= i < old(queues)@[q].completed_spec().len() && !old(self).aggregate_spec().has_entry(
                        #[trigger] old(queues)@[q].completed_spec()[i].0,
                    )
            },
            r is Err <==> old(self).state_spec() != CyclerState::Running || (exists|q: int, i: int|
                0 <= q < old(queues)@.len() && 0 <= i < old(queues)@[q].completed_spec().len()
                    && !old(self).aggregate_spec().has_entry(
                    #[trigger] old(queues)@[q].completed_spec()[i].0,
                )),
            r is Err ==> {
                &&& *final(queues) == *old(queues)
                &&& final(self).aggregate_spec() == old(self).aggregate_spec()
                &&& final(self).archive_spec() == old(self).archive_spec()
                &&& final(self).last_cycle_spec() == old(self).last_cycle_spec()
                &&& final(self).buffer_spec().current_spec() == old(self).buffer_spec().current_spec()
                &&& forall|i: int| 0 <= i < old(self).buffer_spec().len_spec() ==> final(self).buffer_spec().value_at(i) == old(self).buffer_spec().value_at(i)
                &&& forall|i: int| 0 <= i < old(self).buffer_spec().len_spec() ==> final(self).buffer_spec().readers_at(i) == old(self).buffer_spec().readers_at(i)
            },
            r == Err::<(), EngineError>(EngineError::NotRunning) ==> *final(self) == *old(self),
            r == Err::<(), EngineError>(EngineError::MissingAggregateEntry) ==> final(self).state_spec() == CyclerState::Stopped && final(self).open_cycle_ts() is None,
            r is Ok ==> {
                &&& final(self).aggregate_spec()@ == Self::drained_all(
                    old(self).aggregate_spec()@,
                    old(queues)@,
                )
                &&& forall|q: int|
                    0 <= q < old(queues)@.len() ==> (#[trigger] final(queues)@[q]).announced_spec()
                        == old(queues)@[q].announced_spec() && final(queues)@[q].completed_spec()
                        == Seq::<(Timestamp, U)>::empty()
                &&& final(self).archive_spec() == old(self).archive_spec()
                &&& final(self).buffer_spec() == old(self).buffer_spec()
                &&& final(self).state_spec() == old(self).state_spec()
                &&& final(self).open_cycle_ts() == old(self).open_cycle_ts()
                &&& final(self).last_cycle_spec() == old(self).last_cycle_spec()
            },
    {
        if !matches!(self.state, CyclerState::Running) {
            return Err(EngineError::NotRunning);
        }
        let n = queues.len();
        let mut q: usize = 0;
        while q < n
            invariant
                *self == *old(self),
                *queues == *old(queues),
                old(self).wf(),
                old(self).state_spec() == CyclerState::Running,
                forall|p: int| 0 <= p < old(queues)@.len() ==> (#[trigger] old(queues)@[p]).wf(),
                n == queues@.len(),
                q <= n,
                forall|p: int, i: int|
                    0 <= p < q && 0 <= i < queues@[p].completed_spec().len()
                        ==> self.aggregate_spec().has_entry(
                        #[trigger] queues@[p].completed_spec()[i].0,
                    ),
            decreases n - q,
        {
            if !queues[q].all_completed_have_entries(&self.aggregate) {
                proof {
                    let i = choose|i: int|
                        0 <= i < queues@[q as int].completed_spec().len()
                            && !self.aggregate.has_entry(
                            queues@[q as int].completed_spec()[i].0,
                        );
                    assert(!old(self).aggregate_spec().has_entry(
                        old(queues)@[q as int].completed_spec()[i].0,
                    ));
                }
                let open = self.open_cycle.take();
                match open {
                    Some((_ts, handle)) => {
                        self.buffer.abort_write(handle);
                    },
                    None => {},
                }
                self.state = CyclerState::Stopped;
                return Err(EngineError::MissingAggregateEntry);
            }
            q = q + 1;
        }
        let ghost agg0 = self.aggregate@;
        proof {
            assert(old(queues)@.skip(0) =~= old(queues)@);
        }
        let mut q: usize = 0;
        while q < n
            invariant
                old(self).wf(),
                forall|p: int| 0 <= p < old(queues)@.len() ==> (#[trigger] old(queues)@[p]).wf(),
                n == queues@.len(),
                n == old(queues)@.len(),
                q <= n,
                agg0 == old(self).aggregate_spec()@,
                self.state == old(self).state_spec(),
                self.state == CyclerState::Running,
                self.buffer == old(self).buffer_spec(),
                self.archive == old(self).archive_spec(),
                self.open_cycle == old(self).open_cycle_spec_full(),
                self.last_cycle == old(self).last_cycle_spec(),
                self.aggregate.wf(),
                self.aggregate@.len() == agg0.len(),
                forall|k: int| 0 <= k < agg0.len() ==> self.aggregate@[k].0 == agg0[k].0,
                Self::drained_all(agg0, old(queues)@) == Self::drained_all(
                    self.aggregate@,
                    old(queues)@.skip(q as int),
                ),
                forall|p: int| q <= p < n ==> queues@[p] == old(queues)@[p],
                forall|p: int|
                    0 <= p < q ==> (#[trigger] queues@[p]).wf() && queues@[p].announced_spec()
                        == old(queues)@[p].announced_spec() && queues@[p].completed_spec()
                        == Seq::<(Timestamp, U)>::empty(),
                forall|p: int, i: int|
                    q <= p < n && 0 <= i < queues@[p].completed_spec().len()
                        ==> self.aggregate.has_entry(
                        #[trigger] queues@[p].completed_spec()[i].0,
                    ),
            decreases n - q,
        {
            let ghost agg_pre = self.aggregate@;
            let queue = crate::merge::vec_entry_mut(queues, q);
            match queue.drain_into(&mut self.aggregate) {
                Ok(()) => {},
                Err(_) => {
                    proof {
                        assert(false);
                    }
                },
            }
            proof {
                let remaining = old(queues)@.skip(q as int);
                assert(remaining[0] == old(queues)@[q as int]);
                assert(remaining.skip(1) =~= old(queues)@.skip(q + 1 as int));
                assert(Self::drained_all(agg_pre, remaining) == Self::drained_all(
                    Aggregate::<U>::drained(agg_pre, remaining[0].completed_spec()),
                    remaining.skip(1),
                ));
                assert(self.aggregate@ == Aggregate::<U>::drained(
                    agg_pre,
                    old(queues)@[q as int].completed_spec(),
                ));
                assert forall|p: int, i: int|
                    q + 1 <= p < n && 0 <= i < queues@[p].completed_spec().len()
                    implies self.aggregate.has_entry(
                    #[trigger] queues@[p].completed_spec()[i].0,
                ) by {
                    let t2 = queues@[p].completed_spec()[i].0;
                    let w = choose|w: int| 0 <= w < agg_pre.len() && agg_pre[w].0 == t2;
                    assert(self.aggregate@[w].0 == t2);
                }
            }
            q = q + 1;
        }
        proof {
            assert(old(queues)@.skip(n as int) =~= Seq::<MergeQueue<U>>::empty());
            assert(self.aggregate@ == Self::drained_all(agg0, old(queues)@));
            match old(self).open_cycle_spec_full() {
                Some((ts, h)) => {
                    let w = choose|w: int| 0 <= w < agg0.len() && agg0[w].0 == ts;
                    assert(self.aggregate@[w].0 == ts);
                    assert(self.aggregate.has_entry(ts));
                },
                None => {},
            }
            match old(self).last_cycle_spec() {
                Some(last) => {
                    assert forall|i: int| 0 <= i < self.aggregate@.len()
                        implies self.aggregate@[i].0 <= last by {
                        assert(self.aggregate@[i].0 == agg0[i].0);
                    }
                },
                None => {},
            }
        }
        Ok(())
    }

    /// The open cycle with its write handle; internal shape of the state.
    closed spec fn open_cycle_spec_full(&self) -> Option<(Timestamp, WriteHandle)> {
        self.open_cycle
    }

    /// Drops aggregate entries and archived snapshots that are resolved:
    /// strictly older than the pending watermark (and than the open
    /// cycle's own instant, whose entry always survives). The caller
    /// hands in the watermark it read with `earliest_pending_timestamp`.
    pub fn prune(&mut self, watermark: Option<Timestamp>) -> (r: Result<(), EngineError>)
        requires
            old(self).wf(),
        ensures
            final(self).wf(),
            r is Err <==> old(self).open_cycle_ts() is None,
            r is Err ==> r == Err::<(), EngineError>(EngineError::NoOpenCycle) && *final(self)
                == *old(self),
            r is Ok ==> {
                let ts = old(self).open_cycle_ts()->Some_0;
                let limit = match watermark {
                    Some(w) => if w < ts {
                        w
                    } else {
                        ts
                    },
                    None => ts,
                };
                &&& final(self).aggregate_spec()@ == old(self).aggregate_spec()@.skip(
                    Aggregate::<U>::first_at_or_after(old(self).aggregate_spec()@, limit),
                )
                &&& forall|i: int| 0 <= i < final(self).aggregate_spec()@.len() ==> final(self).aggregate_spec()@[i].0 >= limit
                &&& final(self).archive_spec()@ == old(self).archive_spec()@.skip(
                    HistoricArchive::<T>::first_at_or_after(old(self).archive_spec()@, limit),
                )
                &&& forall|i: int| 0 <= i < final(self).archive_spec()@.len() ==> final(self).archive_spec()@[i].0 >= limit
                &&& final(self).aggregate_spec().has_entry(ts)
                &&& final(self).buffer_spec() == old(self).buffer_spec()
                &&& final(self).state_spec() == old(self).state_spec()
                &&& final(self).open_cycle_ts() == old(self).open_cycle_ts()
                &&& final(self).last_cycle_spec() == old(self).last_cycle_spec()
            },
    {
        let ts = match &self.open_cycle {
            Some((ts, _)) => *ts,
            None => {
                return Err(EngineError::NoOpenCycle);
            },
        };
        let limit = match watermark {
            Some(w) => if w < ts {
                w
            } else {
                ts
            },
            None => ts,
        };
        let ghost agg_pre = self.aggregate;
        self.aggregate.prune_before(limit);
        proof {
            Aggregate::<U>::lemma_prune_keeps_pending_entries(
                agg_pre,
                self.aggregate,
                limit,
                ts,
            );
        }
        let ghost archive_pre = self.archive;
        self.archive.prune_before(limit);
        proof {
            let ka = Aggregate::<U>::first_at_or_after(agg_pre@, limit);
            let kr = HistoricArchive::<T>::first_at_or_after(archive_pre@, limit);
            match self.last_cycle {
                Some(last) => {
                    assert forall|i: int| 0 <= i < self.aggregate@.len()
                        implies self.aggregate@[i].0 <= last by {
                        assert(self.aggregate@[i] == agg_pre@[i + ka]);
                    }
                    assert forall|i: int| 0 <= i < self.archive@.len()
                        implies self.archive@[i].0 <= last by {
                        assert(self.archive@[i] == archive_pre@[i + kr]);
                    }
                },
                None => {},
            }
        }
        Ok(())
    }

    /// A stage failed: aborts the open cycle unpublished, stops this
    /// cycler for good and raises process-wide cancellation. No retry —
    /// fail-stop rather than repeating stale actuation.
    pub fn fail(&mut self, flag: &mut CancellationFlag)
        requires
            old(self).wf(),
        ensures
            final(self).wf(),
            final(self).state_spec() == CyclerState::Stopped,
            final(flag).is_cancelled_spec(),
            final(self).open_cycle_ts() is None,
            final(self).last_cycle_spec() == old(self).last_cycle_spec(),
            final(self).archive_spec() == old(self).archive_spec(),
            final(self).aggregate_spec() == old(self).aggregate_spec(),
            final(self).buffer_spec().len_spec() == old(self).buffer_spec().len_spec(),
            final(self).buffer_spec().current_spec() == old(self).buffer_spec().current_spec(),
            forall|i: int| 0 <= i < old(self).buffer_spec().len_spec() ==> final(self).buffer_spec().value_at(i) == old(self).buffer_spec().value_at(i),
            forall|i: int| 0 <= i < old(self).buffer_spec().len_spec() ==> final(self).buffer_spec().readers_at(i) == old(self).buffer_spec().readers_at(i),
    {
        let open = self.open_cycle.take();
        match open {
            Some((_ts, handle)) => {
                self.buffer.abort_write(handle);
            },
            None => {},
        }
        self.state = CyclerState::Stopped;
        flag.cancel();
    }

    /// Reads the sensor state from the hardware collaborator, which
    /// blocks with bounded latency. Whatever comes back, the cycler's
    /// state is sound: on success nothing changes; a hardware failure is
    /// a cycle failure, so the cycler stops and raises process-wide
    /// cancellation rather than continuing with stale sensor data.
    pub fn read_sensors_via<H, S, C, M>(
        &mut self,
        hardware: &mut H,
        flag: &mut CancellationFlag,
    ) -> (r: Option<S>) where H: HardwareInterface<S, C, M>
        requires
            old(self).wf(),
        ensures
            final(self).wf(),
            r is Some ==> *final(self) == *old(self) && *final(flag) == *old(flag),
            r is None ==> {
                &&& final(self).state_spec() == CyclerState::Stopped
                &&& final(flag).is_cancelled_spec()
                &&& final(self).open_cycle_ts() is None
                &&& final(self).archive_spec() == old(self).archive_spec()
                &&& final(self).aggregate_spec() == old(self).aggregate_spec()
            },
    {
        match hardware.read_sensors() {
            Ok(sensors) => Some(sensors),
            Err(_) => {
                self.fail(flag);
                None
            },
        }
    }

    /// Applies the actuation command through the hardware collaborator.
    /// A failure is a cycle failure: fail-stop, no retry with stale
    /// actuation.
    pub fn write_actuators_via<H, S, C, M>(
        &mut self,
        hardware: &mut H,
        command: C,
        flag: &mut CancellationFlag,
    ) -> (r: bool) where H: HardwareInterface<S, C, M>
        requires
            old(self).wf(),
        ensures
            final(self).wf(),
            r ==> *final(self) == *old(self) && *final(flag) == *old(flag),
            !r ==> final(self).state_spec() == CyclerState::Stopped
                && final(flag).is_cancelled_spec(),
    {
        match hardware.write_actuators(command) {
            Ok(()) => true,
            Err(_) => {
                self.fail(flag);
                false
            },
        }
    }

    /// The lifecycle state.
    pub fn state(&self) -> (r: CyclerState)
        ensures
            r == self.state_spec(),
    {
        self.state
    }

    /// The timestamp of the open cycle, if one is open.
    pub fn open_timestamp(&self) -> (r: Option<Timestamp>)
        ensures
            r == self.open_cycle_ts(),
    {
        match &self.open_cycle {
            Some((ts, _)) => Some(*ts),
            None => None,
        }
    }

    /// The archive of this cycler's snapshots, for historic lookups.
    pub fn archive(&self) -> (r: &HistoricArchive<T>)
        requires
            self.wf(),
        ensures
            *r == self.archive_spec(),
            r.wf(),
    {
        &self.archive
    }

    /// The aggregate of drained perception results.
    pub fn aggregate(&self) -> (r: &Aggregate<U>)
        requires
            self.wf(),
        ensures
            *r == self.aggregate_spec(),
            r.wf(),
    {
        &self.aggregate
    }

    /// Acquires a read handle on this cycler's published snapshot, for
    /// another cycler's use. Absent when the published slot is the one
    /// being rewritten — a two-slot writer's fallback — since no stable
    /// snapshot exists at that moment; the caller treats the view as
    /// absent this cycle, as it would an absent historic lookup.
    pub fn acquire_read(&mut self) -> (r: Option<ReadHandle>)
        requires
            old(self).wf(),
            old(self).buffer_spec().readers_at(old(self).buffer_spec().current_spec())
                < usize::MAX,
        ensures
            final(self).wf(),
            r is None <==> old(self).buffer_spec().writing_to(
                old(self).buffer_spec().current_spec(),
            ),
            r is None ==> *final(self) == *old(self),
            r matches Some(h) ==> {
                &&& final(self).buffer_spec().valid_read(h)
                &&& h.slot_spec() == old(self).buffer_spec().current_spec()
                &&& final(self).buffer_spec().value_at(h.slot_spec()) == old(self).buffer_spec().value_at(old(self).buffer_spec().current_spec())
                &&& final(self).state_spec() == old(self).state_spec()
                &&& final(self).open_cycle_ts() == old(self).open_cycle_ts()
                &&& final(self).last_cycle_spec() == old(self).last_cycle_spec()
                &&& final(self).archive_spec() == old(self).archive_spec()
                &&& final(self).aggregate_spec() == old(self).aggregate_spec()
                &&& forall|i: int| 0 <= i < old(self).buffer_spec().len_spec() ==> final(self).buffer_spec().value_at(i) == old(self).buffer_spec().value_at(i)
            },
    {
        if self.buffer.rewriting_current() {
            return None;
        }
        let h = self.buffer.acquire_read();
        proof {
            match &self.open_cycle {
                Some((_ts, wh)) => {
                    old(self).buffer_spec().lemma_writing_slot_in_range(wh.slot_spec());
                    assert(self.buffer.readers_at(wh.slot_spec()) == 0);
                },
                None => {},
            }
        }
        Some(h)
    }

    /// Reads the stable snapshot a handle refers to.
    pub fn read_value<'a>(&'a self, h: &ReadHandle) -> (v: &'a T)
        requires
            self.wf(),
            self.buffer_spec().valid_read(*h),
        ensures
            *v == self.buffer_spec().value_at(h.slot_spec()),
    {
        self.buffer.read(h)
    }

    /// Releases a read handle.
    pub fn release_read(&mut self, h: ReadHandle)
        requires
            old(self).wf(),
            old(self).buffer_spec().valid_read(h),
        ensures
            final(self).wf(),
            final(self).state_spec() == old(self).state_spec(),
            final(self).open_cycle_ts() == old(self).open_cycle_ts(),
            final(self).last_cycle_spec() == old(self).last_cycle_spec(),
            final(self).archive_spec() == old(self).archive_spec(),
            final(self).aggregate_spec() == old(self).aggregate_spec(),
            forall|i: int| 0 <= i < old(self).buffer_spec().len_spec() ==> final(self).buffer_spec().value_at(i) == old(self).buffer_spec().value_at(i),
    {
        proof {
            match &self.open_cycle {
                Some((_ts, wh)) => {
                    old(self).buffer_spec().lemma_writing_slot_in_range(wh.slot_spec());
                    assert(h.slot_spec() != wh.slot_spec());
                },
                None => {},
            }
        }
        self.buffer.release_read(h)
    }
}

/// A perception cycler: event-triggered, asynchronous to the real-time
/// loop. It owns its own state buffer; for each triggering input,
/// captured at a real-time instant, it announces that instant into its
/// producer queue, runs its stages, finalizes the result and publishes.
pub struct PerceptionCycler<T> {
    state: CyclerState,
    buffer: StateBuffer<T>,
    open_trigger: Option<(Timestamp, WriteHandle)>,
    last_trigger: Option<Timestamp>,
}

impl<T> PerceptionCycler<T> {
    /// The lifecycle state.
    pub closed spec fn state_spec(&self) -> CyclerState {
        self.state
    }

    /// The cycler's own state buffer.
    pub closed spec fn buffer_spec(&self) -> StateBuffer<T> {
        self.buffer
    }

    /// The capture timestamp of the open trigger, if one is open.
    pub closed spec fn open_trigger_ts(&self) -> Option<Timestamp> {
        match self.open_trigger {
            Some((ts, _)) => Some(ts),
            None => None,
        }
    }

    /// The capture timestamp of the most recent trigger.
    pub closed spec fn last_trigger_spec(&self) -> Option<Timestamp> {
        self.last_trigger
    }

    /// Well-formedness, established by `new` and preserved by every
    /// operation.
    pub closed spec fn wf(&self) -> bool {
        &&& self.buffer.wf()
        &&& match self.open_trigger {
            Some((ts, h)) => {
                &&& self.state == CyclerState::Running
                &&& self.last_trigger == Some(ts)
                &&& self.buffer.writing_to(h.slot_spec())
                &&& self.buffer.readers_at(h.slot_spec()) == 0
            },
            None => !self.buffer.write_open(),
        }
    }

    /// Creates an Idle perception cycler over the given slot pool.
    pub fn new(slots: Vec<T>) -> (r: Result<Self, EngineError>)
        ensures
            slots@.len() < 2 ==> r == Err::<Self, EngineError>(EngineError::TooFewSlots),
            slots@.len() >= 2 ==> (r matches Ok(cycler) && {
                &&& cycler.wf()
                &&& cycler.state_spec() == CyclerState::Idle
                &&& cycler.open_trigger_ts() is None
                &&& cycler.last_trigger_spec() is None
                &&& cycler.buffer_spec().len_spec() == slots@.len()
                &&& cycler.buffer_spec().current_spec() == 0
                &&& forall|i: int| 0 <= i < slots@.len() ==> cycler.buffer_spec().value_at(i)
                    == slots@[i]
                &&& forall|i: int| 0 <= i < slots@.len() ==> cycler.buffer_spec().readers_at(i)
                    == 0
            }),
    {
        let buffer = match StateBuffer::new(slots) {
            Ok(buffer) => buffer,
            Err(_) => {
                return Err(EngineError::TooFewSlots);
            },
        };
        Ok(
            PerceptionCycler {
                state: CyclerState::Idle,
                buffer,
                open_trigger: None,
                last_trigger: None,
            },
        )
    }

    /// `a` and `b` agree on everything but the lifecycle state.
    pub open spec fn same_components(a: Self, b: Self) -> bool {
        &&& a.buffer_spec() == b.buffer_spec()
        &&& a.open_trigger_ts() == b.open_trigger_ts()
        &&& a.last_trigger_spec() == b.last_trigger_spec()
    }

    /// Starts the cycler: Idle becomes Running; anything else is refused.
    pub fn start(&mut self) -> (r: Result<(), EngineError>)
        requires
            old(self).wf(),
        ensures
            final(self).wf(),
            r is Err <==> old(self).state_spec() != CyclerState::Idle,
            r is Err ==> r == Err::<(), EngineError>(EngineError::NotIdle) && *final(self) == *old(self),
            r is Ok ==> final(self).state_spec() == CyclerState::Running
                && Self::same_components(*old(self), *final(self)),
    {
        if !matches!(self.state, CyclerState::Idle) {
            return Err(EngineError::NotIdle);
        }
        self.state = CyclerState::Running;
        Ok(())
    }

    /// The cooperative cancellation check, made while blocked waiting for
    /// the next triggering input; the result says whether the cycler is
    /// still Running.
    pub fn check_cancellation(&mut self, flag: &CancellationFlag) -> (running: bool)
        requires
            old(self).wf(),
            old(self).open_trigger_ts() is None,
        ensures
            final(self).wf(),
            running <==> final(self).state_spec() == CyclerState::Running,
            old(self).state_spec() == CyclerState::Running && flag.is_cancelled_spec()
                ==> final(self).state_spec() == CyclerState::Stopped && Self::same_components(
                *old(self),
                *final(self),
            ),
            !(old(self).state_spec() == CyclerState::Running && flag.is_cancelled_spec())
                ==> *final(self) == *old(self),
    {
        if matches!(self.state, CyclerState::Running) {
            if flag.is_cancelled() {
                self.state = CyclerState::Stopped;
                return false;
            }
            return true;
        }
        false
    }

    /// A triggering input arrived, captured at real-time instant
    /// `capture`: announces into the producer queue that a result for
    /// that instant is in flight and opens the write handle on the own
    /// buffer. Capture times are monotonic per producer; a capture
    /// already announced or already finalized signals a duplicate
    /// trigger and is refused.
    pub fn begin_trigger(&mut self, capture: Timestamp, queue: &mut MergeQueue<T>) -> (r: Result<
        (),
        EngineError,
    >)
        requires
            old(self).wf(),
            old(queue).wf(),
        ensures
            final(self).wf(),
            final(queue).wf(),
            r == Err::<(), EngineError>(EngineError::NotRunning) <==> old(self).state_spec()
                != CyclerState::Running,
            r == Err::<(), EngineError>(EngineError::CycleAlreadyOpen) <==> old(self).state_spec()
                == CyclerState::Running && old(self).open_trigger_ts() is Some,
            r == Err::<(), EngineError>(EngineError::ClockWentBackwards) <==> {
                &&& old(self).state_spec() == CyclerState::Running
                &&& old(self).open_trigger_ts() is None
                &&& match old(self).last_trigger_spec() {
                    Some(last) => capture <= last,
                    None => false,
                }
            },
            r == Err::<(), EngineError>(EngineError::AllSlotsBusy) <==> {
                &&& old(self).state_spec() == CyclerState::Running
                &&& old(self).open_trigger_ts() is None
                &&& match old(self).last_trigger_spec() {
                    Some(last) => capture > last,
                    None => true,
                }
                &&& forall|i: int|
                    0 <= i < old(self).buffer_spec().len_spec() ==> old(self).buffer_spec().readers_at(i) > 0
            },
            r == Err::<(), EngineError>(EngineError::DuplicateTrigger) <==> {
                &&& old(self).state_spec() == CyclerState::Running
                &&& old(self).open_trigger_ts() is None
                &&& match old(self).last_trigger_spec() {
                    Some(last) => capture > last,
                    None => true,
                }
                &&& !(forall|i: int|
                    0 <= i < old(self).buffer_spec().len_spec() ==> old(self).buffer_spec().readers_at(i) > 0)
                &&& (old(queue).is_open(capture) || old(queue).is_completed(capture))
            },
            r is Err <==> old(self).state_spec() != CyclerState::Running || old(self).open_trigger_ts() is Some || (match old(self).last_trigger_spec() {
                Some(last) => capture <= last,
                None => false,
            }) || (forall|i: int|
                0 <= i < old(self).buffer_spec().len_spec() ==> old(self).buffer_spec().readers_at(i) > 0)
                || old(queue).is_open(capture) || old(queue).is_completed(capture),
            r is Err ==> {
                &&& final(self).state_spec() == old(self).state_spec()
                &&& final(self).open_trigger_ts() is None == (old(self).open_trigger_ts() is None)
                &&& final(self).last_trigger_spec() == old(self).last_trigger_spec()
                &&& *final(queue) == *old(queue)
                &&& final(self).buffer_spec().len_spec() == old(self).buffer_spec().len_spec()
                &&& final(self).buffer_spec().current_spec() == old(self).buffer_spec().current_spec()
                &&& forall|i: int| 0 <= i < old(self).buffer_spec().len_spec() ==> final(self).buffer_spec().value_at(i) == old(self).buffer_spec().value_at(i)
                &&& forall|i: int| 0 <= i < old(self).buffer_spec().len_spec() ==> final(self).buffer_spec().readers_at(i) == old(self).buffer_spec().readers_at(i)
            },
            r is Ok ==> {
                &&& final(self).state_spec() == CyclerState::Running
                &&& final(self).open_trigger_ts() == Some(capture)
                &&& final(self).last_trigger_spec() == Some(capture)
                &&& final(queue).announced_spec() == old(queue).announced_spec().push(capture)
                &&& final(queue).completed_spec() == old(queue).completed_spec()
                &&& final(queue).is_open(capture)
                &&& final(self).buffer_spec().write_open()
                &&& final(self).buffer_spec().len_spec() == old(self).buffer_spec().len_spec()
                &&& final(self).buffer_spec().current_spec() == old(self).buffer_spec().current_spec()
                &&& forall|i: int| 0 <= i < old(self).buffer_spec().len_spec() ==> final(self).buffer_spec().value_at(i) == old(self).buffer_spec().value_at(i)
                &&& forall|i: int| 0 <= i < old(self).buffer_spec().len_spec() ==> final(self).buffer_spec().readers_at(i) == old(self).buffer_spec().readers_at(i)
            },
    {
        if !matches!(self.state, CyclerState::Running) {
            return Err(EngineError::NotRunning);
        }
        if self.open_trigger.is_some() {
            return Err(EngineError::CycleAlreadyOpen);
        }
        if let Some(last) = self.last_trigger {
            if capture <= last {
                return Err(EngineError::ClockWentBackwards);
            }
        }
        let handle = match self.buffer.acquire_write() {
            Ok(handle) => handle,
            Err(_) => {
                return Err(EngineError::AllSlotsBusy);
            },
        };
        proof {
            assert(!(forall|i: int|
                0 <= i < old(self).buffer_spec().len_spec() ==> old(self).buffer_spec().readers_at(i) > 0)) by {
                assert(old(self).buffer_spec().readers_at(handle.slot_spec()) == 0);
            }
        }
        match queue.announce(capture) {
            Ok(()) => {},
            Err(_) => {
                self.buffer.abort_write(handle);
                return Err(EngineError::DuplicateTrigger);
            },
        }
        self.open_trigger = Some((capture, handle));
        self.last_trigger = Some(capture);
        Ok(())
    }

    /// Closes the trigger: finalizes `result` into the producer queue —
    /// the one finalize matching the announce — and publishes `outputs`
    /// as the own buffer's new current snapshot. An announce no longer
    /// open in the queue is a contract violation: the result is refused,
    /// nothing is published, and the cycler stops.
    pub fn finish_trigger(
        &mut self,
        outputs: T,
        result: T,
        queue: &mut MergeQueue<T>,
    ) -> (r: Result<(), EngineError>)
        requires
            old(self).wf(),
            old(queue).wf(),
        ensures
            final(self).wf(),
            final(queue).wf(),
            r == Err::<(), EngineError>(EngineError::NoOpenCycle) <==> old(self).open_trigger_ts() is None,
            r == Err::<(), EngineError>(EngineError::NoOpenCycle) ==> *final(self) == *old(self)
                && *final(queue) == *old(queue),
            r == Err::<(), EngineError>(EngineError::TriggerNotOpen) <==> (old(self).open_trigger_ts() matches Some(ts) && !old(queue).is_open(ts)),
            r is Err <==> old(self).open_trigger_ts() is None || (old(self).open_trigger_ts()
                matches Some(ts) && !old(queue).is_open(ts)),
            r == Err::<(), EngineError>(EngineError::TriggerNotOpen) ==> {
                &&& final(self).state_spec() == CyclerState::Stopped
                &&& final(self).open_trigger_ts() is None
                &&& *final(queue) == *old(queue)
                &&& final(self).buffer_spec().current_spec() == old(self).buffer_spec().current_spec()
                &&& forall|i: int| 0 <= i < old(self).buffer_spec().len_spec() ==> final(self).buffer_spec().value_at(i) == old(self).buffer_spec().value_at(i)
            },
            r is Ok ==> {
                &&& old(self).open_trigger_ts() matches Some(ts) && {
                    &&& exists|j: int|
                        0 <= j < old(queue).announced_spec().len() && old(queue).announced_spec()[j] == ts && final(queue).announced_spec() == old(queue).announced_spec().remove(j)
                    &&& final(queue).completed_spec() == old(queue).completed_spec().push(
                        (ts, result),
                    )
                }
                &&& final(self).state_spec() == old(self).state_spec()
                &&& final(self).open_trigger_ts() is None
                &&& final(self).last_trigger_spec() == old(self).last_trigger_spec()
                &&& final(self).buffer_spec().len_spec() == old(self).buffer_spec().len_spec()
                &&& !final(self).buffer_spec().write_open()
                &&& final(self).buffer_spec().value_at(
                    final(self).buffer_spec().current_spec(),
                ) == outputs
                &&& forall|i: int| 0 <= i < old(self).buffer_spec().len_spec() ==> final(self).buffer_spec().readers_at(i) == old(self).buffer_spec().readers_at(i)
                &&& StateBuffer::<T>::held_views_unchanged(
                    old(self).buffer_spec(),
                    final(self).buffer_spec(),
                )
            },
    {
        let open = self.open_trigger.take();
        match open {
            Some((ts, handle)) => {
                match queue.finalize(ts, result) {
                    Ok(()) => {},
                    Err(_) => {
                        self.buffer.abort_write(handle);
                        self.state = CyclerState::Stopped;
                        return Err(EngineError::TriggerNotOpen);
                    },
                }
                let ghost pre = self.buffer;
                let ghost hs = handle.slot_spec();
                self.buffer.write(&handle, outputs);
                let ghost mid = self.buffer;
                self.buffer.publish(handle);
                proof {
                    pre.lemma_writing_slot_in_range(hs);
                    assert(self.buffer.current_spec() == hs);
                    assert(mid.value_at(hs) == outputs);
                    assert(self.buffer.value_at(hs) == mid.value_at(hs));
                    assert(self.buffer.value_at(self.buffer.current_spec()) == outputs);
                    assert forall|i: int|
                        0 <= i < pre.len_spec() && pre.readers_at(i) > 0
                        implies self.buffer.value_at(i) == pre.value_at(i) by {
                        assert(mid.value_at(i) == pre.value_at(i));
                    }
                    assert(StateBuffer::<T>::held_views_unchanged(pre, self.buffer));
                }
                Ok(())
            },
            None => Err(EngineError::NoOpenCycle),
        }
    }

    /// A stage failed on this input: aborts the trigger unpublished,
    /// stops this cycler for good and raises process-wide cancellation.
    pub fn fail(&mut self, flag: &mut CancellationFlag)
        requires
            old(self).wf(),
        ensures
            final(self).wf(),
            final(self).state_spec() == CyclerState::Stopped,
            final(flag).is_cancelled_spec(),
            final(self).open_trigger_ts() is None,
            final(self).last_trigger_spec() == old(self).last_trigger_spec(),
            final(self).buffer_spec().len_spec() == old(self).buffer_spec().len_spec(),
            final(self).buffer_spec().current_spec() == old(self).buffer_spec().current_spec(),
            forall|i: int| 0 <= i < old(self).buffer_spec().len_spec() ==> final(self).buffer_spec().value_at(i) == old(self).buffer_spec().value_at(i),
            forall|i: int| 0 <= i < old(self).buffer_spec().len_spec() ==> final(self).buffer_spec().readers_at(i) == old(self).buffer_spec().readers_at(i),
    {
        let open = self.open_trigger.take();
        match open {
            Some((_ts, handle)) => {
                self.buffer.abort_write(handle);
            },
            None => {},
        }
        self.state = CyclerState::Stopped;
        flag.cancel();
    }

    /// The lifecycle state.
    pub fn state(&self) -> (r: CyclerState)
        ensures
            r == self.state_spec(),
    {
        self.state
    }

    /// The capture timestamp of the open trigger, if one is open.
    pub fn open_timestamp(&self) -> (r: Option<Timestamp>)
        ensures
            r == self.open_trigger_ts(),
    {
        match &self.open_trigger {
            Some((ts, _)) => Some(*ts),
            None => None,
        }
    }

    /// Acquires a read handle on this cycler's published snapshot, for
    /// another cycler's use. Absent when the published slot is the one
    /// being rewritten — a two-slot writer's fallback — since no stable
    /// snapshot exists at that moment.
    pub fn acquire_read(&mut self) -> (r: Option<ReadHandle>)
        requires
            old(self).wf(),
            old(self).buffer_spec().readers_at(old(self).buffer_spec().current_spec())
                < usize::MAX,
        ensures
            final(self).wf(),
            r is None <==> old(self).buffer_spec().writing_to(
                old(self).buffer_spec().current_spec(),
            ),
            r is None ==> *final(self) == *old(self),
            r matches Some(h) ==> {
                &&& final(self).buffer_spec().valid_read(h)
                &&& h.slot_spec() == old(self).buffer_spec().current_spec()
                &&& final(self).buffer_spec().value_at(h.slot_spec()) == old(self).buffer_spec().value_at(old(self).buffer_spec().current_spec())
                &&& final(self).state_spec() == old(self).state_spec()
                &&& final(self).open_trigger_ts() == old(self).open_trigger_ts()
                &&& final(self).last_trigger_spec() == old(self).last_trigger_spec()
                &&& forall|i: int| 0 <= i < old(self).buffer_spec().len_spec() ==> final(self).buffer_spec().value_at(i) == old(self).buffer_spec().value_at(i)
            },
    {
        if self.buffer.rewriting_current() {
            return None;
        }
        let h = self.buffer.acquire_read();
        proof {
            match &self.open_trigger {
                Some((_ts, wh)) => {
                    old(self).buffer_spec().lemma_writing_slot_in_range(wh.slot_spec());
                    assert(self.buffer.readers_at(wh.slot_spec()) == 0);
                },
                None => {},
            }
        }
        Some(h)
    }

    /// Reads the stable snapshot a handle refers to.
    pub fn read_value<'a>(&'a self, h: &ReadHandle) -> (v: &'a T)
        requires
            self.wf(),
            self.buffer_spec().valid_read(*h),
        ensures
            *v == self.buffer_spec().value_at(h.slot_spec()),
    {
        self.buffer.read(h)
    }

    /// Releases a read handle.
    pub fn release_read(&mut self, h: ReadHandle)
        requires
            old(self).wf(),
            old(self).buffer_spec().valid_read(h),
        ensures
            final(self).wf(),
            final(self).state_spec() == old(self).state_spec(),
            final(self).open_trigger_ts() == old(self).open_trigger_ts(),
            final(self).last_trigger_spec() == old(self).last_trigger_spec(),
            forall|i: int| 0 <= i < old(self).buffer_spec().len_spec() ==> final(self).buffer_spec().value_at(i) == old(self).buffer_spec().value_at(i),
    {
        proof {
            match &self.open_trigger {
                Some((_ts, wh)) => {
                    old(self).buffer_spec().lemma_writing_slot_in_range(wh.slot_spec());
                    assert(h.slot_spec() != wh.slot_spec());
                },
                None => {},
            }
        }
        self.buffer.release_read(h)
    }
}

} // verus!
