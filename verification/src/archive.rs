//! Bounded, timestamp-ordered lookback store with oldest-entry eviction.
//!
//! A `HistoricArchive` keeps the most recent snapshots of one cycler's
//! output, keyed by capture timestamp. Insertions must arrive in
//! non-decreasing timestamp order; an out-of-order insertion is refused,
//! never silently reordered. When the archive is full the globally oldest
//! entry is evicted. Lookups are either strict (exact timestamp) or soft
//! (nearest earlier timestamp).

use vstd::prelude::*;

use crate::Timestamp;

verus! {

/// Why the archive refused an operation.
#[derive(Clone, Copy, Debug, PartialEq, Eq, Structural)]
pub enum ArchiveError {
    /// An archive must have room for at least one entry.
    ZeroCapacity,
    /// The timestamp lies before the newest recorded entry.
    OutOfOrder,
}

/// Bounded ordered map from timestamp to snapshot, evicting its oldest
/// entry when a recording would exceed the capacity.
pub struct HistoricArchive<T> {
    entries: Vec<(Timestamp, T)>,
    capacity: usize,
}

impl<T> View for HistoricArchive<T> {
    type V = Seq<(Timestamp, T)>;

    closed spec fn view(&self) -> Seq<(Timestamp, T)> {
        self.entries@
    }
}

impl<T> HistoricArchive<T> {
    /// The number of entries the archive retains at most.
    pub closed spec fn capacity_spec(&self) -> nat {
        self.capacity as nat
    }

    /// Well-formedness: positive capacity, length within capacity, and
    /// strictly increasing timestamps.
    pub open spec fn wf(&self) -> bool {
        &&& 1 <= self.capacity_spec()
        &&& self@.len() <= self.capacity_spec()
        &&& forall|i: int, j: int|
            0 <= i < j < self@.len() ==> self@[i].0 < self@[j].0
    }

    /// Whether some entry carries this exact timestamp.
    pub open spec fn contains_timestamp(&self, timestamp: Timestamp) -> bool {
        exists|i: int| 0 <= i < self@.len() && self@[i].0 == timestamp
    }

    /// The contents after recording `(timestamp, value)`: an entry with the
    /// same timestamp as the newest is replaced; otherwise the pair is
    /// appended and, over capacity, the oldest entry leaves.
    pub open spec fn recorded(
        s: Seq<(Timestamp, T)>,
        capacity: nat,
        timestamp: Timestamp,
        value: T,
    ) -> Seq<(Timestamp, T)> {
        if s.len() > 0 && s.last().0 == timestamp {
            s.update(s.len() - 1, (timestamp, value))
        } else {
            let grown = s.push((timestamp, value));
            if grown.len() > capacity {
                grown.remove(0)
            } else {
                grown
            }
        }
    }

    /// Creates an archive for at most `capacity` entries.
    pub fn new(capacity: usize) -> (r: Result<Self, ArchiveError>)
        ensures
            capacity == 0 ==> r == Err::<Self, ArchiveError>(ArchiveError::ZeroCapacity),
            capacity >= 1 ==> (r matches Ok(archive)
                && archive.wf()
                && archive@ == Seq::<(Timestamp, T)>::empty()
                && archive.capacity_spec() == capacity),
    {
        if capacity == 0 {
            Err(ArchiveError::ZeroCapacity)
        } else {
            Ok(HistoricArchive { entries: Vec::new(), capacity })
        }
    }

    /// How many entries are currently retained.
    pub fn len(&self) -> (r: usize)
        ensures
            r == self@.len(),
    {
        self.entries.len()
    }

    /// The newest recorded timestamp, if any entry exists.
    pub fn latest_timestamp(&self) -> (r: Option<Timestamp>)
        ensures
            self@.len() == 0 ==> r is None,
            self@.len() > 0 ==> r == Some(self@.last().0),
    {
        if self.entries.len() == 0 {
            None
        } else {
            Some(self.entries[self.entries.len() - 1].0)
        }
    }

    /// Records a snapshot. Timestamps must not go backwards: an insertion
    /// before the newest entry is refused and leaves the archive unchanged.
    /// Recording at the newest timestamp replaces that snapshot; a newer
    /// timestamp appends, evicting the oldest entry when over capacity.
    pub fn record(&mut self, timestamp: Timestamp, value: T) -> (r: Result<(), ArchiveError>)
        requires
            old(self).wf(),
        ensures
            final(self).wf(),
            final(self).capacity_spec() == old(self).capacity_spec(),
            r is Err <==> old(self)@.len() > 0 && timestamp < old(self)@.last().0,
            r is Err ==> r == Err::<(), ArchiveError>(ArchiveError::OutOfOrder)
                && final(self)@ == old(self)@,
            r is Ok ==> final(self)@ == Self::recorded(
                old(self)@,
                old(self).capacity_spec(),
                timestamp,
                value,
            ),
    {
        let n = self.entries.len();
        if n > 0 {
            let newest = self.entries[n - 1].0;
            if timestamp < newest {
                return Err(ArchiveError::OutOfOrder);
            }
            if timestamp == newest {
                self.entries.pop();
                self.entries.push((timestamp, value));
                proof {
                    assert(self.entries@ =~= old(self)@.update(
                        old(self)@.len() - 1,
                        (timestamp, value),
                    ));
                }
                return Ok(());
            }
        }
        self.entries.push((timestamp, value));
        if self.entries.len() > self.capacity {
            self.entries.remove(0);
        }
        Ok(())
    }

    /// Strict lookup: the snapshot recorded exactly at `timestamp`, absent
    /// when that instant was never recorded or already evicted.
    pub fn get(&self, timestamp: Timestamp) -> (r: Option<&T>)
        requires
            self.wf(),
        ensures
            match r {
                Some(value) => exists|i: int|
                    0 <= i < self@.len() && self@[i] == (timestamp, *value),
                None => !self.contains_timestamp(timestamp),
            },
    {
        let n = self.entries.len();
        let mut i: usize = 0;
        while i < n
            invariant
                n == self@.len(),
                i <= n,
                forall|j: int| 0 <= j < i ==> self@[j].0 != timestamp,
            decreases n - i,
        {
            if self.entries[i].0 == timestamp {
                return Some(&self.entries[i].1);
            }
            i = i + 1;
        }
        None
    }

    /// Index `i` names the newest entry not younger than `timestamp`.
    pub open spec fn is_latest_at_or_before(&self, timestamp: Timestamp, i: int) -> bool {
        &&& 0 <= i < self@.len()
        &&& self@[i].0 <= timestamp
        &&& forall|j: int|
            0 <= j < self@.len() && self@[j].0 <= timestamp ==> self@[j].0 <= self@[i].0
    }

    /// Soft lookup: the snapshot with the greatest timestamp at or before
    /// `timestamp`, absent when every retained entry is newer.
    pub fn get_at_or_before(&self, timestamp: Timestamp) -> (r: Option<&T>)
        requires
            self.wf(),
        ensures
            match r {
                Some(value) => exists|i: int|
                    self.is_latest_at_or_before(timestamp, i) && self@[i].1 == *value,
                None => forall|i: int| 0 <= i < self@.len() ==> self@[i].0 > timestamp,
            },
    {
        let n = self.entries.len();
        let mut i: usize = n;
        while i > 0
            invariant
                self.wf(),
                n == self@.len(),
                i <= n,
                forall|j: int| i <= j < n ==> self@[j].0 > timestamp,
            decreases i,
        {
            i = i - 1;
            if self.entries[i].0 <= timestamp {
                proof {
                    assert forall|j: int|
                        0 <= j < self@.len() && self@[j].0 <= timestamp
                        implies self@[j].0 <= self@[i as int].0 by {
                        if j > i as int {
                            assert(self@[j].0 > timestamp);
                        }
                    }
                    assert(self.is_latest_at_or_before(timestamp, i as int));
                }
                return Some(&self.entries[i].1);
            }
        }
        None
    }

    /// Drops every entry older than `limit`, retaining all entries with
    /// timestamps at or after it.
    pub fn prune_before(&mut self, limit: Timestamp)
        requires
            old(self).wf(),
        ensures
            final(self).wf(),
            final(self).capacity_spec() == old(self).capacity_spec(),
            0 <= Self::first_at_or_after(old(self)@, limit) <= old(self)@.len(),
            final(self)@ == old(self)@.skip(Self::first_at_or_after(old(self)@, limit)),
            forall|i: int| 0 <= i < final(self)@.len() ==> final(self)@[i].0 >= limit,
    {
        while self.entries.len() > 0 && self.entries[0].0 < limit
            invariant
                self.wf(),
                self.capacity_spec() == old(self).capacity_spec(),
                old(self)@.skip(Self::first_at_or_after(old(self)@, limit))
                    == self@.skip(Self::first_at_or_after(self@, limit)),
            decreases self.entries.len(),
        {
            proof {
                Self::lemma_first_at_or_after_bounds(self@, limit);
                Self::lemma_first_at_or_after_bounds(self@.skip(1), limit);
                assert(Self::first_at_or_after(self@, limit)
                    == 1 + Self::first_at_or_after(self@.skip(1), limit));
                assert(self@.remove(0) =~= self@.skip(1));
                assert(self@.skip(1).skip(Self::first_at_or_after(self@.skip(1), limit))
                    =~= self@.skip(Self::first_at_or_after(self@, limit)));
                assert forall|p: int, q: int| 0 <= p < q < self@.skip(1).len()
                    implies self@.skip(1)[p].0 < self@.skip(1)[q].0 by {
                    assert(self@.skip(1)[p] == self@[p + 1]);
                    assert(self@.skip(1)[q] == self@[q + 1]);
                }
            }
            self.entries.remove(0);
        }
        proof {
            assert(Self::first_at_or_after(self@, limit) == 0);
            assert(self@.skip(0) =~= self@);
            Self::lemma_first_at_or_after_bounds(old(self)@, limit);
        }
    }

    /// How many leading entries lie strictly before `limit`.
    pub open spec fn first_at_or_after(s: Seq<(Timestamp, T)>, limit: Timestamp) -> int
        decreases s.len(),
    {
        if s.len() == 0 || s[0].0 >= limit {
            0
        } else {
            1 + Self::first_at_or_after(s.skip(1), limit)
        }
    }

    proof fn lemma_first_at_or_after_bounds(s: Seq<(Timestamp, T)>, limit: Timestamp)
        ensures
            0 <= Self::first_at_or_after(s, limit) <= s.len(),
        decreases s.len(),
    {
        if s.len() == 0 || s[0].0 >= limit {
        } else {
            Self::lemma_first_at_or_after_bounds(s.skip(1), limit);
        }
    }

    /// The contents after recording each pair of `entries` in turn,
    /// starting from `s0`: the sequence-level mirror of repeated `record`.
    pub open spec fn recorded_all(
        s0: Seq<(Timestamp, T)>,
        capacity: nat,
        entries: Seq<(Timestamp, T)>,
    ) -> Seq<(Timestamp, T)>
        decreases entries.len(),
    {
        if entries.len() == 0 {
            s0
        } else {
            Self::recorded(
                Self::recorded_all(s0, capacity, entries.drop_last()),
                capacity,
                entries.last().0,
                entries.last().1,
            )
        }
    }

    /// Law of bounded retention: recording any strictly increasing run of
    /// entries into an empty archive of capacity `capacity` retains exactly
    /// the most recent `capacity` of them (all of them while they fit).
    /// Every older entry has been evicted, so by `get`'s contract a strict
    /// lookup on an evicted timestamp comes back absent.
    pub proof fn lemma_eviction_retains_most_recent(
        capacity: nat,
        entries: Seq<(Timestamp, T)>,
    )
        requires
            capacity >= 1,
            forall|i: int, j: int| 0 <= i < j < entries.len() ==> entries[i].0 < entries[j].0,
        ensures
            Self::recorded_all(Seq::empty(), capacity, entries) == if entries.len() <= capacity {
                entries
            } else {
                entries.skip(entries.len() - capacity)
            },
        decreases entries.len(),
    {
        let n = entries.len() as int;
        if n == 0 {
            assert(Self::recorded_all(Seq::empty(), capacity, entries) =~= entries);
        } else {
            let prefix = entries.drop_last();
            Self::lemma_eviction_retains_most_recent(capacity, prefix);
            let prev = Self::recorded_all(Seq::empty(), capacity, prefix);
            let last = entries.last();
            if n - 1 > 0 {
                assert(prev.len() > 0);
                assert(prev.last() == prefix.last());
                assert(prefix.last().0 < last.0);
            }
            let grown = prev.push(last);
            assert(Self::recorded(prev, capacity, last.0, last.1) == if grown.len() > capacity {
                grown.remove(0)
            } else {
                grown
            });
            if n <= capacity {
                assert(grown =~= entries);
            } else if n - 1 <= capacity {
                assert(prev == prefix);
                assert(grown.len() > capacity);
                assert(grown.remove(0) =~= entries.skip(n - capacity));
            } else {
                assert(prev == prefix.skip(n - 1 - capacity));
                assert(grown.len() > capacity);
                assert(grown.remove(0) =~= entries.skip(n - capacity));
            }
        }
    }

    /// Corollary: after such a run, every evicted timestamp — one of the
    /// first `entries.len() - capacity` — is absent from the archive, so
    /// by `get`'s contract its strict lookup returns nothing.
    pub proof fn lemma_evicted_timestamps_are_absent(
        capacity: nat,
        entries: Seq<(Timestamp, T)>,
        k: int,
    )
        requires
            capacity >= 1,
            forall|i: int, j: int| 0 <= i < j < entries.len() ==> entries[i].0 < entries[j].0,
            entries.len() > capacity,
            0 <= k < entries.len() - capacity,
        ensures
            forall|i: int|
                0 <= i < Self::recorded_all(Seq::empty(), capacity, entries).len()
                    ==> (#[trigger] Self::recorded_all(Seq::empty(), capacity, entries)[i]).0
                    != entries[k].0,
    {
        Self::lemma_eviction_retains_most_recent(capacity, entries);
        let retained = Self::recorded_all(Seq::empty(), capacity, entries);
        let dropped = entries.len() - capacity;
        assert forall|i: int| 0 <= i < retained.len() implies (#[trigger] retained[i]).0
            != entries[k].0 by {
            assert(retained[i] == entries[i + dropped]);
            assert(entries[k].0 < entries[i + dropped].0);
        }
    }
}

} // verus!
