//! Cross-rate merge queue: asynchronous producers deposit timestamp-tagged
//! results that one owning consumer folds into per-timestamp aggregates.
//!
//! A producer `announce`s a timestamp to say a result for that instant is
//! in flight, and later `finalize`s it with the completed value — exactly
//! one finalize per announce. The earliest still-open announce is the
//! producer's watermark. The owning real-time cycler creates an
//! [`Aggregate`] entry for every timestamp it originates and, once per
//! cycle, drains every completed entry into the aggregate at the matching
//! timestamp. Draining into a timestamp with no existing entry is a
//! contract violation and is reported, never silently dropped.

use vstd::prelude::*;

use crate::Timestamp;

verus! {

/// Why the merge queue or the aggregate refused an operation.
#[derive(Clone, Copy, Debug, PartialEq, Eq, Structural)]
pub enum MergeError {
    /// The timestamp is already announced and still open.
    AlreadyAnnounced,
    /// The timestamp was already finalized and awaits draining.
    AlreadyFinalized,
    /// Finalize without a matching open announce.
    NotAnnounced,
    /// A completed result names a timestamp with no aggregate entry.
    NoAggregateEntry,
    /// Aggregate entries must be created in strictly increasing order.
    OutOfOrder,
}

/// One producer's end of the merge queue: its open watermarks and its
/// completed, not yet drained results.
pub struct MergeQueue<T> {
    announced: Vec<Timestamp>,
    completed: Vec<(Timestamp, T)>,
}

/// Per-timestamp collection point: for every originated timestamp, the
/// list of results drained so far, in arrival order.
pub struct Aggregate<T> {
    entries: Vec<(Timestamp, Vec<T>)>,
}

impl<T> View for Aggregate<T> {
    type V = Seq<(Timestamp, Seq<T>)>;

    closed spec fn view(&self) -> Seq<(Timestamp, Seq<T>)> {
        self.entries@.map_values(|e: (Timestamp, Vec<T>)| (e.0, e.1@))
    }
}

impl<T> MergeQueue<T> {
    /// The still-open announced timestamps, in announcement order.
    pub closed spec fn announced_spec(&self) -> Seq<Timestamp> {
        self.announced@
    }

    /// The finalized, not yet drained results, in completion order.
    pub closed spec fn completed_spec(&self) -> Seq<(Timestamp, T)> {
        self.completed@
    }

    /// Well-formedness: announced and completed timestamps are unique and
    /// do not overlap — each announce is finalized at most once.
    pub open spec fn wf(&self) -> bool {
        &&& forall|i: int, j: int|
            0 <= i < j < self.announced_spec().len() ==> self.announced_spec()[i]
                != self.announced_spec()[j]
        &&& forall|i: int, j: int|
            0 <= i < j < self.completed_spec().len() ==> self.completed_spec()[i].0
                != self.completed_spec()[j].0
        &&& forall|i: int, j: int|
            0 <= i < self.announced_spec().len() && 0 <= j < self.completed_spec().len()
                ==> self.announced_spec()[i] != self.completed_spec()[j].0
    }

    /// Whether `timestamp` is announced and still open.
    pub open spec fn is_open(&self, timestamp: Timestamp) -> bool {
        self.announced_spec().contains(timestamp)
    }

    /// Whether a completed, undrained result carries `timestamp`.
    pub open spec fn is_completed(&self, timestamp: Timestamp) -> bool {
        exists|i: int|
            0 <= i < self.completed_spec().len() && self.completed_spec()[i].0 == timestamp
    }

    /// `timestamp` is the smallest still-open announce.
    pub open spec fn is_earliest_open(&self, timestamp: Timestamp) -> bool {
        &&& self.is_open(timestamp)
        &&& forall|i: int|
            0 <= i < self.announced_spec().len() ==> timestamp <= self.announced_spec()[i]
    }

    /// Creates an empty producer queue.
    pub fn new() -> (r: Self)
        ensures
            r.wf(),
            r.announced_spec() == Seq::<Timestamp>::empty(),
            r.completed_spec() == Seq::<(Timestamp, T)>::empty(),
    {
        MergeQueue { announced: Vec::new(), completed: Vec::new() }
    }

    /// Records the open watermark "a result for `timestamp` is in
    /// flight". A timestamp still open or already finalized is refused.
    pub fn announce(&mut self, timestamp: Timestamp) -> (r: Result<(), MergeError>)
        requires
            old(self).wf(),
        ensures
            final(self).wf(),
            r == Err::<(), MergeError>(MergeError::AlreadyAnnounced)
                <==> old(self).is_open(timestamp),
            r == Err::<(), MergeError>(MergeError::AlreadyFinalized)
                <==> !old(self).is_open(timestamp) && old(self).is_completed(timestamp),
            r is Err <==> old(self).is_open(timestamp) || old(self).is_completed(timestamp),
            r is Err ==> *final(self) == *old(self),
            r is Ok ==> final(self).announced_spec() == old(self).announced_spec().push(timestamp)
                && final(self).completed_spec() == old(self).completed_spec()
                && final(self).is_open(timestamp),
    {
        let mut i: usize = 0;
        let n = self.announced.len();
        while i < n
            invariant
                *self == *old(self),
                old(self).wf(),
                n == self.announced_spec().len(),
                i <= n,
                forall|j: int| 0 <= j < i ==> self.announced_spec()[j] != timestamp,
            decreases n - i,
        {
            if self.announced[i] == timestamp {
                proof {
                    assert(self.announced_spec().contains(timestamp));
                }
                return Err(MergeError::AlreadyAnnounced);
            }
            i = i + 1;
        }
        proof {
            assert(!self.is_open(timestamp));
        }
        let mut k: usize = 0;
        let m = self.completed.len();
        while k < m
            invariant
                *self == *old(self),
                old(self).wf(),
                !old(self).is_open(timestamp),
                m == self.completed_spec().len(),
                k <= m,
                forall|j: int| 0 <= j < k ==> self.completed_spec()[j].0 != timestamp,
            decreases m - k,
        {
            if self.completed[k].0 == timestamp {
                return Err(MergeError::AlreadyFinalized);
            }
            k = k + 1;
        }
        self.announced.push(timestamp);
        proof {
            assert(self.announced_spec().last() == timestamp);
        }
        Ok(())
    }

    /// Closes the matching announce with the completed value. Exactly one
    /// finalize per announce: a timestamp that is not open is refused.
    pub fn finalize(&mut self, timestamp: Timestamp, value: T) -> (r: Result<(), MergeError>)
        requires
            old(self).wf(),
        ensures
            final(self).wf(),
            r is Err <==> !old(self).is_open(timestamp),
            r is Err ==> r == Err::<(), MergeError>(MergeError::NotAnnounced)
                && *final(self) == *old(self),
            r is Ok ==> exists|j: int|
                0 <= j < old(self).announced_spec().len()
                    && old(self).announced_spec()[j] == timestamp
                    && final(self).announced_spec() == old(self).announced_spec().remove(j)
                    && final(self).completed_spec() == old(self).completed_spec().push(
                    (timestamp, value),
                ),
            r is Ok ==> !final(self).is_open(timestamp) && final(self).is_completed(timestamp),
    {
        let mut i: usize = 0;
        let n = self.announced.len();
        while i < n
            invariant
                *self == *old(self),
                old(self).wf(),
                n == self.announced_spec().len(),
                i <= n,
                forall|j: int| 0 <= j < i ==> self.announced_spec()[j] != timestamp,
            decreases n - i,
        {
            if self.announced[i] == timestamp {
                let ghost oa = self.announced_spec();
                self.announced.remove(i);
                self.completed.push((timestamp, value));
                proof {
                    oa.remove_ensures(i as int);
                    assert(self.announced_spec() == oa.remove(i as int));
                    assert(oa[i as int] == timestamp);
                    assert(old(self).is_open(timestamp));
                    assert(0 <= (i as int) < old(self).announced_spec().len());
                    assert(old(self).announced_spec()[i as int] == timestamp
                        && self.announced_spec() == old(self).announced_spec().remove(i as int)
                        && self.completed_spec() == old(self).completed_spec().push(
                        (timestamp, value),
                    ));
                    assert forall|p: int| 0 <= p < self.announced_spec().len()
                        implies self.announced_spec()[p] != timestamp by {
                        if p < i as int {
                            assert(self.announced_spec()[p] == oa[p]);
                        } else {
                            assert(self.announced_spec()[p] == oa[p + 1]);
                        }
                    }
                    assert(self.completed_spec().last() == (timestamp, value));
                }
                return Ok(());
            }
            i = i + 1;
        }
        proof {
            assert(!old(self).is_open(timestamp));
        }
        Err(MergeError::NotAnnounced)
    }

    /// Law: an announce can only move the watermark to an earlier
    /// instant, never past the one already open. `pre` and `post` are the
    /// queue before and after a successful `announce` of `u`.
    pub proof fn lemma_announce_never_advances_watermark(
        pre: Self,
        post: Self,
        u: Timestamp,
        t: Timestamp,
        t2: Timestamp,
    )
        requires
            post.announced_spec() == pre.announced_spec().push(u),
            pre.is_earliest_open(t),
            post.is_earliest_open(t2),
        ensures
            t2 <= t,
    {
        let i = choose|i: int|
            0 <= i < pre.announced_spec().len() && pre.announced_spec()[i] == t;
        assert(post.announced_spec()[i] == t);
    }

    /// Law: the watermark stays put while any other announce is
    /// finalized. `pre` and `post` are the queue around a successful
    /// `finalize` that removed announce `j`, and `t` is the earliest open
    /// instant, not the one finalized.
    pub proof fn lemma_watermark_held_until_matching_finalize(
        pre: Self,
        post: Self,
        j: int,
        t: Timestamp,
    )
        requires
            0 <= j < pre.announced_spec().len(),
            post.announced_spec() == pre.announced_spec().remove(j),
            pre.announced_spec()[j] != t,
            pre.is_earliest_open(t),
        ensures
            post.is_earliest_open(t),
    {
        pre.announced_spec().remove_ensures(j);
        let i = choose|i: int|
            0 <= i < pre.announced_spec().len() && pre.announced_spec()[i] == t;
        if i < j {
            assert(post.announced_spec()[i] == t);
        } else {
            assert(post.announced_spec()[i - 1] == t);
        }
        assert(post.announced_spec().contains(t));
        assert forall|k: int| 0 <= k < post.announced_spec().len()
            implies t <= post.announced_spec()[k] by {
            if k < j {
                assert(post.announced_spec()[k] == pre.announced_spec()[k]);
            } else {
                assert(post.announced_spec()[k] == pre.announced_spec()[k + 1]);
            }
        }
    }

    /// Law: once its matching finalize lands, the watermark advances past
    /// the finalized instant (or becomes none): every remaining open
    /// announce is strictly later.
    pub proof fn lemma_watermark_advances_after_matching_finalize(
        pre: Self,
        post: Self,
        j: int,
        t: Timestamp,
    )
        requires
            pre.wf(),
            0 <= j < pre.announced_spec().len(),
            post.announced_spec() == pre.announced_spec().remove(j),
            pre.announced_spec()[j] == t,
            pre.is_earliest_open(t),
        ensures
            forall|k: int| 0 <= k < post.announced_spec().len()
                ==> post.announced_spec()[k] > t,
    {
        pre.announced_spec().remove_ensures(j);
        assert forall|k: int| 0 <= k < post.announced_spec().len()
            implies post.announced_spec()[k] > t by {
            if k < j {
                assert(post.announced_spec()[k] == pre.announced_spec()[k]);
                assert(pre.announced_spec()[k] != pre.announced_spec()[j]);
            } else {
                assert(post.announced_spec()[k] == pre.announced_spec()[k + 1]);
                assert(pre.announced_spec()[k + 1] != pre.announced_spec()[j]);
            }
        }
    }

    /// The producer's watermark: its earliest still-open announce, absent
    /// when every announce has been finalized.
    pub fn earliest_open_timestamp(&self) -> (r: Option<Timestamp>)
        ensures
            match r {
                Some(timestamp) => self.is_earliest_open(timestamp),
                None => self.announced_spec().len() == 0,
            },
    {
        let n = self.announced.len();
        let mut best: Option<Timestamp> = None;
        let mut i: usize = 0;
        while i < n
            invariant
                n == self.announced_spec().len(),
                i <= n,
                i == 0 ==> best is None,
                i > 0 ==> match best {
                    Some(b) => self.announced_spec().subrange(0, i as int).contains(b)
                        && forall|j: int| 0 <= j < i ==> b <= self.announced_spec()[j],
                    None => false,
                },
            decreases n - i,
        {
            let candidate = self.announced[i];
            match best {
                None => {
                    best = Some(candidate);
                }
                Some(b) => {
                    if candidate < b {
                        best = Some(candidate);
                    }
                }
            }
            proof {
                let taken = self.announced_spec().subrange(0, i + 1 as int);
                match best {
                    Some(b) => {
                        if b == candidate {
                            assert(taken[i as int] == candidate);
                            assert(taken.contains(b));
                        } else {
                            assert(self.announced_spec().subrange(0, i as int)
                                .contains(b));
                            let w = choose|w: int|
                                0 <= w < i && self.announced_spec().subrange(0, i as int)[w] == b;
                            assert(taken[w] == b);
                            assert(taken.contains(b));
                        }
                    }
                    None => {
                        assert(false);
                    }
                }
            }
            i = i + 1;
        }
        proof {
            if n > 0 {
                match best {
                    Some(b) => {
                        let s = self.announced_spec();
                        assert(s.subrange(0, n as int) =~= s);
                    }
                    None => {}
                }
            }
        }
        best
    }

    /// Whether every completed, undrained result has a matching entry in
    /// the aggregate — the precondition of a safe drain.
    pub fn all_completed_have_entries(&self, aggregate: &Aggregate<T>) -> (r: bool)
        ensures
            r <==> forall|i: int|
                0 <= i < self.completed_spec().len() ==> aggregate.has_entry(
                    #[trigger] self.completed_spec()[i].0,
                ),
    {
        let n = self.completed.len();
        let mut i: usize = 0;
        while i < n
            invariant
                n == self.completed_spec().len(),
                i <= n,
                forall|j: int| 0 <= j < i ==> aggregate.has_entry(
                    #[trigger] self.completed_spec()[j].0,
                ),
            decreases n - i,
        {
            if !aggregate.contains(self.completed[i].0) {
                return false;
            }
            i = i + 1;
        }
        true
    }

    /// Moves every completed result into the aggregate entry of its
    /// timestamp, in completion order. When some completed result has no
    /// matching entry this is a contract violation: nothing moves and the
    /// violation is reported.
    pub fn drain_into(&mut self, aggregate: &mut Aggregate<T>) -> (r: Result<(), MergeError>)
        requires
            old(self).wf(),
            old(aggregate).wf(),
        ensures
            final(self).wf(),
            final(aggregate).wf(),
            r is Err <==> exists|i: int|
                0 <= i < old(self).completed_spec().len()
                    && !old(aggregate).has_entry(#[trigger] old(self).completed_spec()[i].0),
            r is Err ==> r == Err::<(), MergeError>(MergeError::NoAggregateEntry)
                && *final(self) == *old(self) && *final(aggregate) == *old(aggregate),
            r is Ok ==> {
                &&& final(self).completed_spec() == Seq::<(Timestamp, T)>::empty()
                &&& final(self).announced_spec() == old(self).announced_spec()
                &&& final(aggregate)@ == Aggregate::<T>::drained(
                    old(aggregate)@,
                    old(self).completed_spec(),
                )
            },
            final(aggregate)@.len() == old(aggregate)@.len(),
            forall|i: int| 0 <= i < old(aggregate)@.len() ==> final(aggregate)@[i].0
                == old(aggregate)@[i].0,
    {
        let n = self.completed.len();
        let mut i: usize = 0;
        while i < n
            invariant
                *self == *old(self),
                *aggregate == *old(aggregate),
                old(self).wf(),
                old(aggregate).wf(),
                n == self.completed_spec().len(),
                i <= n,
                forall|j: int| 0 <= j < i ==> aggregate.has_entry(
                    #[trigger] self.completed_spec()[j].0,
                ),
            decreases n - i,
        {
            if !aggregate.contains(self.completed[i].0) {
                proof {
                    assert(!old(aggregate).has_entry(old(self).completed_spec()[i as int].0));
                }
                return Err(MergeError::NoAggregateEntry);
            }
            i = i + 1;
        }
        while self.completed.len() > 0
            invariant
                self.wf(),
                aggregate.wf(),
                old(self).wf(),
                old(aggregate).wf(),
                self.announced_spec() == old(self).announced_spec(),
                forall|j: int| 0 <= j < self.completed_spec().len() ==> aggregate.has_entry(
                    #[trigger] self.completed_spec()[j].0,
                ),
                Aggregate::<T>::drained(old(aggregate)@, old(self).completed_spec())
                    == Aggregate::<T>::drained(aggregate@, self.completed_spec()),
                aggregate@.len() == old(aggregate)@.len(),
                forall|k: int| 0 <= k < old(aggregate)@.len() ==> aggregate@[k].0
                    == old(aggregate)@[k].0,
            decreases self.completed.len(),
        {
            let ghost pre_completed = self.completed_spec();
            let ghost pre_agg = aggregate@;
            let (timestamp, value) = self.completed.remove(0);
            proof {
                assert(pre_completed[0].0 == timestamp);
                assert(self.completed_spec() =~= pre_completed.skip(1));
                assert(aggregate.has_entry(timestamp));
            }
            aggregate.push_unchecked(timestamp, value);
            proof {
                assert(aggregate@ == Aggregate::<T>::pushed(pre_agg, timestamp, value));
                assert(Aggregate::<T>::drained(pre_agg, pre_completed) == Aggregate::<T>::drained(
                    aggregate@,
                    self.completed_spec(),
                ));
                assert forall|j: int| 0 <= j < self.completed_spec().len()
                    implies aggregate.has_entry(#[trigger] self.completed_spec()[j].0) by {
                    let t2 = self.completed_spec()[j].0;
                    assert(pre_completed[j + 1].0 == t2);
                    let w = choose|w: int| 0 <= w < pre_agg.len() && pre_agg[w].0 == t2;
                    assert(aggregate@[w].0 == t2);
                }
            }
        }
        proof {
            assert(self.completed_spec() =~= Seq::<(Timestamp, T)>::empty());
        }
        Ok(())
    }
}

impl<T> MergeQueue<T> {
    /// Every open or completed timestamp of the queue has an entry in
    /// the aggregate. The owner guarantees this by construction: it
    /// creates an entry for every timestamp it originates, producers
    /// only announce originated timestamps, and pruning stays below the
    /// pending watermark.
    pub open spec fn covered_by(&self, aggregate: Aggregate<T>) -> bool {
        &&& forall|i: int|
            0 <= i < self.announced_spec().len() ==> aggregate.has_entry(
                #[trigger] self.announced_spec()[i],
            )
        &&& forall|i: int|
            0 <= i < self.completed_spec().len() ==> aggregate.has_entry(
                #[trigger] self.completed_spec()[i].0,
            )
    }

    /// Law: a finalize preserves coverage — the completed result's
    /// timestamp was an open, covered announce, so its entry pre-exists
    /// and the drain into it cannot hit a missing entry. `pre` and
    /// `post` are the queue around a successful `finalize`.
    pub proof fn lemma_finalize_preserves_coverage(
        pre: Self,
        post: Self,
        j: int,
        t: Timestamp,
        v: T,
        aggregate: Aggregate<T>,
    )
        requires
            0 <= j < pre.announced_spec().len(),
            pre.announced_spec()[j] == t,
            post.announced_spec() == pre.announced_spec().remove(j),
            post.completed_spec() == pre.completed_spec().push((t, v)),
            pre.covered_by(aggregate),
        ensures
            post.covered_by(aggregate),
    {
        pre.announced_spec().remove_ensures(j);
        assert forall|i: int| 0 <= i < post.announced_spec().len()
            implies aggregate.has_entry(#[trigger] post.announced_spec()[i]) by {
            if i < j {
                assert(post.announced_spec()[i] == pre.announced_spec()[i]);
            } else {
                assert(post.announced_spec()[i] == pre.announced_spec()[i + 1]);
            }
        }
        assert forall|i: int| 0 <= i < post.completed_spec().len()
            implies aggregate.has_entry(#[trigger] post.completed_spec()[i].0) by {
            if i < pre.completed_spec().len() {
                assert(post.completed_spec()[i] == pre.completed_spec()[i]);
            } else {
                assert(post.completed_spec()[i].0 == t);
                assert(pre.announced_spec()[j] == t);
            }
        }
    }

    /// Law: pruning with the pending watermark preserves coverage —
    /// every open or completed timestamp lies at or after the watermark,
    /// and `prune_before` keeps every entry at or after its limit.
    pub proof fn lemma_prune_preserves_coverage(
        queue: Self,
        pre: Aggregate<T>,
        post: Aggregate<T>,
        limit: Timestamp,
    )
        requires
            queue.covered_by(pre),
            post@ == pre@.skip(Aggregate::<T>::first_at_or_after(pre@, limit)),
            forall|i: int|
                0 <= i < queue.announced_spec().len() ==> #[trigger] queue.announced_spec()[i]
                    >= limit,
            forall|i: int|
                0 <= i < queue.completed_spec().len() ==> #[trigger] queue.completed_spec()[i].0
                    >= limit,
        ensures
            queue.covered_by(post),
    {
        assert forall|i: int| 0 <= i < queue.announced_spec().len()
            implies post.has_entry(#[trigger] queue.announced_spec()[i]) by {
            Aggregate::<T>::lemma_prune_keeps_pending_entries(
                pre,
                post,
                limit,
                queue.announced_spec()[i],
            );
        }
        assert forall|i: int| 0 <= i < queue.completed_spec().len()
            implies post.has_entry(#[trigger] queue.completed_spec()[i].0) by {
            Aggregate::<T>::lemma_prune_keeps_pending_entries(
                pre,
                post,
                limit,
                queue.completed_spec()[i].0,
            );
        }
    }
}

/// The pending watermark across all producers of one consumer: the
/// minimum over the queues' earliest open timestamps, absent when no
/// producer has an open announce.
pub fn earliest_pending_timestamp<T>(queues: &Vec<MergeQueue<T>>) -> (r: Option<Timestamp>)
    ensures
        match r {
            Some(timestamp) => {
                &&& exists|q: int|
                    0 <= q < queues@.len() && (#[trigger] queues@[q]).is_earliest_open(timestamp)
                &&& forall|q: int, i: int|
                    0 <= q < queues@.len() && 0 <= i < queues@[q].announced_spec().len()
                        ==> timestamp <= #[trigger] queues@[q].announced_spec()[i]
            },
            None => forall|q: int|
                0 <= q < queues@.len() ==> (#[trigger] queues@[q]).announced_spec().len() == 0,
        },
{
    let mut best: Option<Timestamp> = None;
    let mut q: usize = 0;
    let n = queues.len();
    while q < n
        invariant
            n == queues@.len(),
            q <= n,
            match best {
                Some(b) => {
                    &&& exists|p: int|
                        0 <= p < q && (#[trigger] queues@[p]).is_earliest_open(b)
                    &&& forall|p: int, i: int|
                        0 <= p < q && 0 <= i < queues@[p].announced_spec().len()
                            ==> b <= #[trigger] queues@[p].announced_spec()[i]
                },
                None => forall|p: int|
                    0 <= p < q ==> (#[trigger] queues@[p]).announced_spec().len() == 0,
            },
        decreases n - q,
    {
        let candidate = queues[q].earliest_open_timestamp();
        match candidate {
            Some(c) => {
                match best {
                    None => {
                        best = Some(c);
                    }
                    Some(b) => {
                        if c < b {
                            best = Some(c);
                        }
                    }
                }
            }
            None => {}
        }
        q = q + 1;
    }
    best
}

impl<T> Aggregate<T> {
    /// Well-formedness: entry timestamps strictly increase, so each
    /// originated instant has exactly one entry.
    pub open spec fn wf(&self) -> bool {
        forall|i: int, j: int| 0 <= i < j < self@.len() ==> self@[i].0 < self@[j].0
    }

    /// Whether an entry exists for `timestamp`.
    pub open spec fn has_entry(&self, timestamp: Timestamp) -> bool {
        exists|i: int| 0 <= i < self@.len() && self@[i].0 == timestamp
    }

    /// The aggregate contents after appending `value` to the entry of
    /// `timestamp` (unchanged when no entry matches).
    pub open spec fn pushed(
        agg: Seq<(Timestamp, Seq<T>)>,
        timestamp: Timestamp,
        value: T,
    ) -> Seq<(Timestamp, Seq<T>)> {
        agg.map_values(
            |e: (Timestamp, Seq<T>)|
                if e.0 == timestamp {
                    (e.0, e.1.push(value))
                } else {
                    e
                },
        )
    }

    /// The aggregate contents after pushing every completed result in
    /// order: the sequence-level mirror of a drain.
    pub open spec fn drained(
        agg: Seq<(Timestamp, Seq<T>)>,
        completed: Seq<(Timestamp, T)>,
    ) -> Seq<(Timestamp, Seq<T>)>
        decreases completed.len(),
    {
        if completed.len() == 0 {
            agg
        } else {
            Self::drained(Self::pushed(agg, completed[0].0, completed[0].1), completed.skip(1))
        }
    }

    /// Creates an aggregate with no entries.
    pub fn new() -> (r: Self)
        ensures
            r.wf(),
            r@ == Seq::<(Timestamp, Seq<T>)>::empty(),
    {
        let a = Aggregate { entries: Vec::new() };
        proof {
            assert(a@ =~= Seq::<(Timestamp, Seq<T>)>::empty());
        }
        a
    }

    /// Creates the entry for a newly originated timestamp, with an empty
    /// result list. Only the owner calls this, with its strictly
    /// increasing clock; an instant at or before the newest entry is
    /// refused.
    pub fn create_entry(&mut self, timestamp: Timestamp) -> (r: Result<(), MergeError>)
        requires
            old(self).wf(),
        ensures
            final(self).wf(),
            r is Err <==> old(self)@.len() > 0 && timestamp <= old(self)@.last().0,
            r is Err ==> r == Err::<(), MergeError>(MergeError::OutOfOrder)
                && *final(self) == *old(self),
            r is Ok ==> final(self)@ == old(self)@.push((timestamp, Seq::<T>::empty()))
                && final(self).has_entry(timestamp),
    {
        let n = self.entries.len();
        if n > 0 {
            proof {
                assert(self@[n - 1].0 == self.entries@[n - 1].0);
            }
            let newest = self.entries[n - 1].0;
            if timestamp <= newest {
                return Err(MergeError::OutOfOrder);
            }
        }
        self.entries.push((timestamp, Vec::new()));
        proof {
            assert(self@ =~= old(self)@.push((timestamp, Seq::<T>::empty())));
            assert(self@.last().0 == timestamp);
        }
        Ok(())
    }

    /// How many entries the aggregate holds.
    pub fn len(&self) -> (r: usize)
        ensures
            r == self@.len(),
    {
        self.entries.len()
    }

    /// Whether an entry exists for `timestamp`.
    pub fn contains(&self, timestamp: Timestamp) -> (r: bool)
        ensures
            r == self.has_entry(timestamp),
    {
        let n = self.entries.len();
        let mut i: usize = 0;
        while i < n
            invariant
                n == self@.len(),
                i <= n,
                forall|j: int| 0 <= j < i ==> self@[j].0 != timestamp,
                forall|j: int| 0 <= j < n ==> self@[j].0 == self.entries@[j].0,
            decreases n - i,
        {
            if self.entries[i].0 == timestamp {
                proof {
                    assert(self@[i as int].0 == timestamp);
                }
                return true;
            }
            i = i + 1;
        }
        false
    }

    /// The results drained so far for `timestamp`, absent when the entry
    /// does not exist (never originated, or already pruned).
    pub fn get(&self, timestamp: Timestamp) -> (r: Option<&Vec<T>>)
        ensures
            match r {
                Some(values) => exists|i: int|
                    0 <= i < self@.len() && self@[i].0 == timestamp && self@[i].1 == values@,
                None => !self.has_entry(timestamp),
            },
    {
        let n = self.entries.len();
        let mut i: usize = 0;
        while i < n
            invariant
                n == self@.len(),
                i <= n,
                forall|j: int| 0 <= j < i ==> self@[j].0 != timestamp,
                forall|j: int| 0 <= j < n ==> self@[j].0 == self.entries@[j].0
                    && self@[j].1 == self.entries@[j].1@,
            decreases n - i,
        {
            if self.entries[i].0 == timestamp {
                proof {
                    assert(self@[i as int].0 == timestamp);
                }
                return Some(&self.entries[i].1);
            }
            i = i + 1;
        }
        None
    }

    /// Appends a result to the entry of `timestamp`, which must exist.
    fn push_unchecked(&mut self, timestamp: Timestamp, value: T)
        requires
            old(self).wf(),
            old(self).has_entry(timestamp),
        ensures
            final(self).wf(),
            final(self)@ == Self::pushed(old(self)@, timestamp, value),
            final(self)@.len() == old(self)@.len(),
            forall|i: int| 0 <= i < old(self)@.len() ==> final(self)@[i].0 == old(self)@[i].0,
    {
        let n = self.entries.len();
        let mut i: usize = 0;
        while i < n
            invariant
                old(self).wf(),
                old(self).has_entry(timestamp),
                n == self@.len(),
                i <= n,
                *self == *old(self),
                forall|j: int| 0 <= j < i ==> self@[j].0 != timestamp,
                forall|j: int| 0 <= j < n ==> self@[j].0 == self.entries@[j].0
                    && self@[j].1 == self.entries@[j].1@,
            decreases n - i,
        {
            if self.entries[i].0 == timestamp {
                let ghost pre = self.entries@;
                let entry = vec_entry_mut(&mut self.entries, i);
                entry.1.push(value);
                proof {
                    assert(self.entries@[i as int].0 == timestamp);
                    assert(self.entries@[i as int].1@ == pre[i as int].1@.push(value));
                    assert forall|k: int| 0 <= k < self@.len()
                        implies #[trigger] self@[k] == Self::pushed(
                        old(self)@,
                        timestamp,
                        value,
                    )[k] by {
                        if k != i as int {
                            assert(self.entries@[k] == pre[k]);
                            if k > i as int {
                                assert(old(self)@[i as int].0 == timestamp);
                                assert(old(self)@[k].0 > old(self)@[i as int].0);
                            }
                            assert(old(self)@[k].0 != timestamp);
                        }
                    }
                    assert(self@ =~= Self::pushed(old(self)@, timestamp, value));
                }
                return ;
            }
            i = i + 1;
        }
        proof {
            assert(!old(self).has_entry(timestamp));
            assert(false);
        }
    }

    /// Appends a result to the entry of `timestamp`. Producers may push
    /// into existing entries only: a missing entry is a contract
    /// violation and is reported, never silently stored elsewhere.
    pub fn push_result(&mut self, timestamp: Timestamp, value: T) -> (r: Result<(), MergeError>)
        requires
            old(self).wf(),
        ensures
            final(self).wf(),
            r is Err <==> !old(self).has_entry(timestamp),
            r is Err ==> r == Err::<(), MergeError>(MergeError::NoAggregateEntry)
                && *final(self) == *old(self),
            r is Ok ==> final(self)@ == Self::pushed(old(self)@, timestamp, value),
    {
        if self.contains(timestamp) {
            self.push_unchecked(timestamp, value);
            Ok(())
        } else {
            Err(MergeError::NoAggregateEntry)
        }
    }

    /// Drops every entry older than `limit`, retaining all entries with
    /// timestamps at or after it. The owner prunes with the pending
    /// watermark, so entries still awaited stay.
    pub fn prune_before(&mut self, limit: Timestamp)
        requires
            old(self).wf(),
        ensures
            final(self).wf(),
            0 <= Self::first_at_or_after(old(self)@, limit) <= old(self)@.len(),
            final(self)@ == old(self)@.skip(Self::first_at_or_after(old(self)@, limit)),
            forall|i: int| 0 <= i < final(self)@.len() ==> final(self)@[i].0 >= limit,
    {
        while self.entries.len() > 0 && self.entries[0].0 < limit
            invariant
                self.wf(),
                old(self)@.skip(Self::first_at_or_after(old(self)@, limit))
                    == self@.skip(Self::first_at_or_after(self@, limit)),
            decreases self.entries.len(),
        {
            proof {
                assert(self@[0].0 == self.entries@[0].0);
                Self::lemma_first_at_or_after_bounds(self@, limit);
                Self::lemma_first_at_or_after_bounds(self@.skip(1), limit);
                assert(Self::first_at_or_after(self@, limit)
                    == 1 + Self::first_at_or_after(self@.skip(1), limit));
                assert(self@.skip(1).skip(Self::first_at_or_after(self@.skip(1), limit))
                    =~= self@.skip(Self::first_at_or_after(self@, limit)));
                assert forall|p: int, q: int| 0 <= p < q < self@.skip(1).len()
                    implies self@.skip(1)[p].0 < self@.skip(1)[q].0 by {
                    assert(self@.skip(1)[p] == self@[p + 1]);
                    assert(self@.skip(1)[q] == self@[q + 1]);
                }
                assert(self.entries@.remove(0).map_values(
                    |e: (Timestamp, Vec<T>)| (e.0, e.1@),
                ) =~= self@.skip(1));
            }
            self.entries.remove(0);
        }
        proof {
            if self.entries.len() > 0 {
                assert(self@[0].0 == self.entries@[0].0);
            }
            assert(Self::first_at_or_after(self@, limit) == 0);
            assert(self@.skip(0) =~= self@);
            Self::lemma_first_at_or_after_bounds(old(self)@, limit);
        }
    }

    /// How many leading entries lie strictly before `limit`.
    pub open spec fn first_at_or_after(s: Seq<(Timestamp, Seq<T>)>, limit: Timestamp) -> int
        decreases s.len(),
    {
        if s.len() == 0 || s[0].0 >= limit {
            0
        } else {
            1 + Self::first_at_or_after(s.skip(1), limit)
        }
    }

    proof fn lemma_first_at_or_after_bounds(s: Seq<(Timestamp, Seq<T>)>, limit: Timestamp)
        ensures
            0 <= Self::first_at_or_after(s, limit) <= s.len(),
        decreases s.len(),
    {
        if s.len() == 0 || s[0].0 >= limit {
        } else {
            Self::lemma_first_at_or_after_bounds(s.skip(1), limit);
        }
    }

    proof fn lemma_first_at_or_after_prefix(s: Seq<(Timestamp, Seq<T>)>, limit: Timestamp)
        ensures
            forall|i: int| 0 <= i < Self::first_at_or_after(s, limit) ==> s[i].0 < limit,
        decreases s.len(),
    {
        if s.len() == 0 || s[0].0 >= limit {
        } else {
            Self::lemma_first_at_or_after_prefix(s.skip(1), limit);
            Self::lemma_first_at_or_after_bounds(s.skip(1), limit);
            assert forall|i: int| 0 <= i < Self::first_at_or_after(s, limit)
                implies s[i].0 < limit by {
                if i > 0 {
                    assert(0 <= i - 1 < s.skip(1).len());
                    assert(s.skip(1)[i - 1] == s[i]);
                    assert(s.skip(1)[i - 1].0 < limit);
                }
            }
        }
    }

    /// Law of safe pruning: pruning with the pending watermark never
    /// discards an entry a producer still owes a result for. `pre` and
    /// `post` are the aggregate before and after `prune_before(limit)`;
    /// every entry at or after `limit` survives.
    pub proof fn lemma_prune_keeps_pending_entries(
        pre: Self,
        post: Self,
        limit: Timestamp,
        t: Timestamp,
    )
        requires
            post@ == pre@.skip(Self::first_at_or_after(pre@, limit)),
            pre.has_entry(t),
            t >= limit,
        ensures
            post.has_entry(t),
    {
        Self::lemma_first_at_or_after_bounds(pre@, limit);
        Self::lemma_first_at_or_after_prefix(pre@, limit);
        let k = Self::first_at_or_after(pre@, limit);
        let i = choose|i: int| 0 <= i < pre@.len() && pre@[i].0 == t;
        assert(i >= k);
        assert(post@[i - k] == pre@[i]);
    }
}

/// Mutable access to one element of a vector; the rest stays unchanged.
pub(crate) fn vec_entry_mut<T>(v: &mut Vec<T>, i: usize) -> (element: &mut T)
    requires
        i < old(v).len(),
    ensures
        *element == old(v)@[i as int],
        final(v)@ == old(v)@.update(i as int, *final(element)),
{
    &mut v[i]
}

} // verus!
