//! Slotted state buffer: one writer publishes snapshots, many readers see
//! a stable view.
//!
//! The buffer owns a fixed pool of at least two slots and a "current"
//! index naming the latest published snapshot. A read handle refers to the
//! slot that was current when it was acquired; the snapshot it refers to
//! never changes while the handle is live. A write handle grants exclusive
//! access to a slot no reader holds — one that is not current where
//! possible, falling back to the published slot when every other slot is
//! reader-held; releasing the handle publishes its slot as the new
//! current. Storing a snapshot demands that its slot is still reader-free
//! at that moment, so an already-acquired view never changes. At most one
//! write handle is open at a time: asking for a second one signals a
//! scheduling defect and is refused as a usage error, as is construction
//! with fewer than two slots.

use vstd::prelude::*;

verus! {

/// Why the buffer refused an operation.
#[derive(Clone, Copy, Debug, PartialEq, Eq, Structural)]
pub enum BufferError {
    /// A buffer needs at least two slots.
    TooFewSlots,
    /// A write handle is already open; one writer at a time.
    WriteAlreadyOpen,
    /// Every slot is held by a reader.
    AllSlotsBusy,
}

/// Shared access to the snapshot that was current at acquisition.
pub struct ReadHandle {
    slot: usize,
}

impl ReadHandle {
    /// The slot this handle refers to.
    pub closed spec fn slot_spec(&self) -> int {
        self.slot as int
    }
}

/// Exclusive access to the one slot being rewritten.
pub struct WriteHandle {
    slot: usize,
}

impl WriteHandle {
    /// The slot this handle refers to.
    pub closed spec fn slot_spec(&self) -> int {
        self.slot as int
    }
}

/// Fixed pool of snapshot slots with an atomically switched current index,
/// written by exactly one writer and read through stable handles.
pub struct StateBuffer<T> {
    slots: Vec<T>,
    reader_counts: Vec<usize>,
    current: usize,
    write_slot: Option<usize>,
}

impl<T> StateBuffer<T> {
    /// How many slots the pool holds.
    pub closed spec fn len_spec(&self) -> int {
        self.slots@.len() as int
    }

    /// The snapshot stored in slot `i`.
    pub closed spec fn value_at(&self, i: int) -> T {
        self.slots@[i]
    }

    /// How many live read handles refer to slot `i`.
    pub closed spec fn readers_at(&self, i: int) -> nat {
        self.reader_counts@[i] as nat
    }

    /// The index of the latest published snapshot.
    pub closed spec fn current_spec(&self) -> int {
        self.current as int
    }

    /// Whether a write handle is open.
    pub closed spec fn write_open(&self) -> bool {
        self.write_slot is Some
    }

    /// Whether the open write handle refers to slot `i`.
    pub closed spec fn writing_to(&self, i: int) -> bool {
        self.write_slot matches Some(w) && w as int == i
    }

    /// Well-formedness: at least two slots, a reader count per slot, a
    /// current index in range, and any open write slot in range.
    pub closed spec fn wf(&self) -> bool {
        &&& self.slots@.len() == self.reader_counts@.len()
        &&& self.slots@.len() >= 2
        &&& (self.current as int) < self.slots@.len()
        &&& match self.write_slot {
            Some(w) => (w as int) < self.slots@.len(),
            None => true,
        }
    }

    /// The open write slot is in range.
    pub proof fn lemma_writing_slot_in_range(self, i: int)
        requires
            self.wf(),
            self.writing_to(i),
        ensures
            0 <= i < self.len_spec(),
    {
    }

    /// Whether `h` is a live read handle of this buffer.
    pub open spec fn valid_read(&self, h: ReadHandle) -> bool {
        0 <= h.slot_spec() < self.len_spec() && self.readers_at(h.slot_spec()) > 0
    }

    /// Read stability: every snapshot some live reader refers to is the
    /// same in `post` as in `pre`.
    pub open spec fn held_views_unchanged(pre: Self, post: Self) -> bool {
        forall|i: int|
            0 <= i < pre.len_spec() && pre.readers_at(i) > 0 ==> post.value_at(i)
                == pre.value_at(i)
    }

    /// Law of writer progress: while at most one slot is reader-held,
    /// some slot is reader-free, so `acquire_write` cannot report
    /// `AllSlotsBusy`. In particular a two-slot buffer with one
    /// concurrent reader never starves its writer, under any interleaving
    /// of reads and writes.
    pub proof fn lemma_one_reader_cannot_starve_the_writer(self, held: int)
        requires
            self.wf(),
            forall|i: int| 0 <= i < self.len_spec() && i != held ==> self.readers_at(i) == 0,
        ensures
            !(forall|i: int| 0 <= i < self.len_spec() ==> self.readers_at(i) > 0),
    {
        if held == 0 {
            assert(self.readers_at(1) == 0);
        } else {
            assert(self.readers_at(0) == 0);
        }
    }

    /// Creates a buffer over the given slot pool; every slot starts with
    /// no readers and slot zero is the published snapshot.
    pub fn new(slots: Vec<T>) -> (r: Result<Self, BufferError>)
        ensures
            slots@.len() < 2 ==> r == Err::<Self, BufferError>(BufferError::TooFewSlots),
            slots@.len() >= 2 ==> (r matches Ok(buffer) && {
                &&& buffer.wf()
                &&& buffer.len_spec() == slots@.len()
                &&& forall|i: int| 0 <= i < buffer.len_spec() ==> buffer.value_at(i) == slots@[i]
                &&& forall|i: int| 0 <= i < buffer.len_spec() ==> buffer.readers_at(i) == 0
                &&& buffer.current_spec() == 0
                &&& !buffer.write_open()
            }),
    {
        let n = slots.len();
        if n < 2 {
            return Err(BufferError::TooFewSlots);
        }
        let mut reader_counts: Vec<usize> = Vec::new();
        let mut i: usize = 0;
        while i < n
            invariant
                i <= n,
                reader_counts@.len() == i,
                forall|j: int| 0 <= j < i ==> reader_counts@[j] == 0,
            decreases n - i,
        {
            reader_counts.push(0);
            i = i + 1;
        }
        Ok(StateBuffer { slots, reader_counts, current: 0, write_slot: None })
    }

    /// Acquires a read handle over the snapshot current at call time. The
    /// handle stays valid, and the snapshot it refers to stays the same,
    /// until the handle is released.
    pub fn acquire_read(&mut self) -> (h: ReadHandle)
        requires
            old(self).wf(),
            old(self).readers_at(old(self).current_spec()) < usize::MAX,
        ensures
            final(self).wf(),
            h.slot_spec() == old(self).current_spec(),
            final(self).valid_read(h),
            final(self).len_spec() == old(self).len_spec(),
            final(self).current_spec() == old(self).current_spec(),
            final(self).write_open() == old(self).write_open(),
            forall|i: int| 0 <= i < old(self).len_spec() ==> final(self).value_at(i)
                == old(self).value_at(i),
            final(self).readers_at(old(self).current_spec())
                == old(self).readers_at(old(self).current_spec()) + 1,
            forall|i: int|
                0 <= i < old(self).len_spec() && i != old(self).current_spec()
                    ==> final(self).readers_at(i) == old(self).readers_at(i),
            forall|i: int| old(self).writing_to(i) <==> final(self).writing_to(i),
            Self::held_views_unchanged(*old(self), *final(self)),
    {
        let slot = self.current;
        let count = self.reader_counts[slot];
        self.reader_counts[slot] = count + 1;
        ReadHandle { slot }
    }

    /// Reads the snapshot a handle refers to.
    pub fn read<'a>(&'a self, h: &ReadHandle) -> (v: &'a T)
        requires
            self.wf(),
            self.valid_read(*h),
        ensures
            *v == self.value_at(h.slot_spec()),
    {
        &self.slots[h.slot]
    }

    /// Releases a read handle, freeing its slot for a later writer once no
    /// other reader holds it. No snapshot changes.
    pub fn release_read(&mut self, h: ReadHandle)
        requires
            old(self).wf(),
            old(self).valid_read(h),
        ensures
            final(self).wf(),
            final(self).len_spec() == old(self).len_spec(),
            final(self).current_spec() == old(self).current_spec(),
            final(self).write_open() == old(self).write_open(),
            forall|i: int| 0 <= i < old(self).len_spec() ==> final(self).value_at(i)
                == old(self).value_at(i),
            final(self).readers_at(h.slot_spec()) == old(self).readers_at(h.slot_spec()) - 1,
            forall|i: int|
                0 <= i < old(self).len_spec() && i != h.slot_spec() ==> final(self).readers_at(i)
                    == old(self).readers_at(i),
            forall|i: int| old(self).writing_to(i) <==> final(self).writing_to(i),
            Self::held_views_unchanged(*old(self), *final(self)),
    {
        let slot = h.slot;
        let count = self.reader_counts[slot];
        self.reader_counts[slot] = count - 1;
    }

    /// Opens the single write handle over a slot no reader holds: one
    /// that is not the published slot where possible, else the published
    /// slot itself. Asking while a write handle is open is a fatal usage
    /// error; only when every slot is reader-held must the writer retry
    /// once a reader releases — with more slots than concurrent readers
    /// that never happens.
    pub fn acquire_write(&mut self) -> (r: Result<WriteHandle, BufferError>)
        requires
            old(self).wf(),
        ensures
            final(self).wf(),
            final(self).len_spec() == old(self).len_spec(),
            final(self).current_spec() == old(self).current_spec(),
            forall|i: int| 0 <= i < old(self).len_spec() ==> final(self).value_at(i)
                == old(self).value_at(i),
            forall|i: int| 0 <= i < old(self).len_spec() ==> final(self).readers_at(i)
                == old(self).readers_at(i),
            Self::held_views_unchanged(*old(self), *final(self)),
            r == Err::<WriteHandle, BufferError>(BufferError::WriteAlreadyOpen)
                <==> old(self).write_open(),
            r == Err::<WriteHandle, BufferError>(BufferError::AllSlotsBusy)
                <==> !old(self).write_open() && (forall|i: int|
                    0 <= i < old(self).len_spec() ==> old(self).readers_at(i) > 0),
            r is Err <==> old(self).write_open() || (forall|i: int|
                0 <= i < old(self).len_spec() ==> old(self).readers_at(i) > 0),
            r is Err ==> *final(self) == *old(self),
            r matches Ok(h) ==> {
                &&& 0 <= h.slot_spec() < old(self).len_spec()
                &&& old(self).readers_at(h.slot_spec()) == 0
                &&& ((exists|i: int|
                    0 <= i < old(self).len_spec() && i != old(self).current_spec()
                        && old(self).readers_at(i) == 0) ==> h.slot_spec() != old(
                    self,
                ).current_spec())
                &&& final(self).write_open()
                &&& final(self).writing_to(h.slot_spec())
            },
    {
        if self.write_slot.is_some() {
            return Err(BufferError::WriteAlreadyOpen);
        }
        let n = self.slots.len();
        let mut i: usize = 0;
        while i < n
            invariant
                self.wf(),
                *self == *old(self),
                n == self.len_spec(),
                i <= n,
                !self.write_open(),
                forall|j: int|
                    0 <= j < i && j != self.current_spec() ==> self.readers_at(j) > 0,
            decreases n - i,
        {
            if i != self.current && self.reader_counts[i] == 0 {
                proof {
                    assert(!(forall|j: int|
                        0 <= j < old(self).len_spec() ==> old(self).readers_at(j) > 0)) by {
                        assert(old(self).readers_at(i as int) == 0);
                    }
                }
                self.write_slot = Some(i);
                return Ok(WriteHandle { slot: i });
            }
            i = i + 1;
        }
        if self.reader_counts[self.current] == 0 {
            let slot = self.current;
            proof {
                assert(!(forall|j: int|
                    0 <= j < old(self).len_spec() ==> old(self).readers_at(j) > 0)) by {
                    assert(old(self).readers_at(slot as int) == 0);
                }
                assert(!(exists|j: int|
                    0 <= j < old(self).len_spec() && j != old(self).current_spec() && old(
                        self,
                    ).readers_at(j) == 0));
            }
            self.write_slot = Some(slot);
            return Ok(WriteHandle { slot });
        }
        Err(BufferError::AllSlotsBusy)
    }

    /// Whether the open write handle sits on the published slot — the
    /// fallback a two-slot writer takes when the other slot is
    /// reader-held. While it does, there is no stable snapshot to hand a
    /// new reader.
    pub fn rewriting_current(&self) -> (r: bool)
        ensures
            r == self.writing_to(self.current_spec()),
    {
        match &self.write_slot {
            Some(w) => *w == self.current,
            None => false,
        }
    }

    /// Stores `value` into the slot the write handle holds, which must
    /// still be reader-free at this moment: every live view stays
    /// unchanged.
    pub fn write(&mut self, h: &WriteHandle, value: T)
        requires
            old(self).wf(),
            old(self).writing_to(h.slot_spec()),
            old(self).readers_at(h.slot_spec()) == 0,
        ensures
            final(self).wf(),
            final(self).len_spec() == old(self).len_spec(),
            final(self).current_spec() == old(self).current_spec(),
            final(self).value_at(h.slot_spec()) == value,
            forall|i: int|
                0 <= i < old(self).len_spec() && i != h.slot_spec() ==> final(self).value_at(i)
                    == old(self).value_at(i),
            forall|i: int| 0 <= i < old(self).len_spec() ==> final(self).readers_at(i)
                == old(self).readers_at(i),
            forall|i: int| old(self).writing_to(i) <==> final(self).writing_to(i),
            Self::held_views_unchanged(*old(self), *final(self)),
    {
        self.slots[h.slot] = value;
    }

    /// Abandons the write handle without publishing: the cycle was
    /// aborted, so readers keep seeing the previous snapshot.
    pub fn abort_write(&mut self, h: WriteHandle)
        requires
            old(self).wf(),
            old(self).writing_to(h.slot_spec()),
        ensures
            final(self).wf(),
            final(self).len_spec() == old(self).len_spec(),
            final(self).current_spec() == old(self).current_spec(),
            !final(self).write_open(),
            forall|i: int| 0 <= i < old(self).len_spec() ==> final(self).value_at(i)
                == old(self).value_at(i),
            forall|i: int| 0 <= i < old(self).len_spec() ==> final(self).readers_at(i)
                == old(self).readers_at(i),
            Self::held_views_unchanged(*old(self), *final(self)),
    {
        self.write_slot = None;
    }

    /// Releases the write handle, publishing its slot as the new current
    /// snapshot, visible to readers that acquire from now on.
    pub fn publish(&mut self, h: WriteHandle)
        requires
            old(self).wf(),
            old(self).writing_to(h.slot_spec()),
        ensures
            final(self).wf(),
            final(self).len_spec() == old(self).len_spec(),
            final(self).current_spec() == h.slot_spec(),
            !final(self).write_open(),
            forall|i: int| 0 <= i < old(self).len_spec() ==> final(self).value_at(i)
                == old(self).value_at(i),
            forall|i: int| 0 <= i < old(self).len_spec() ==> final(self).readers_at(i)
                == old(self).readers_at(i),
            Self::held_views_unchanged(*old(self), *final(self)),
    {
        self.current = h.slot;
        self.write_slot = None;
    }
}

} // verus!
