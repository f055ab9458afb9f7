use cycler_core::merge::{earliest_pending_timestamp, Aggregate, MergeError, MergeQueue};

#[test]
fn watermark_is_the_smallest_open_announce() {
    let mut queue = MergeQueue::new();
    assert_eq!(queue.earliest_open_timestamp(), None);

    queue.announce(30).unwrap();
    assert_eq!(queue.earliest_open_timestamp(), Some(30));
    queue.announce(10).unwrap();
    assert_eq!(queue.earliest_open_timestamp(), Some(10));
    queue.announce(20).unwrap();
    assert_eq!(queue.earliest_open_timestamp(), Some(10));

    queue.finalize(20, "r20").unwrap();
    assert_eq!(queue.earliest_open_timestamp(), Some(10));

    queue.finalize(10, "r10").unwrap();
    assert_eq!(queue.earliest_open_timestamp(), Some(30));

    queue.finalize(30, "r30").unwrap();
    assert_eq!(queue.earliest_open_timestamp(), None);
}

#[test]
fn exactly_one_finalize_per_announce() {
    let mut queue = MergeQueue::new();
    queue.announce(10).unwrap();
    assert_eq!(queue.announce(10), Err(MergeError::AlreadyAnnounced));

    queue.finalize(10, 1).unwrap();
    assert_eq!(queue.finalize(10, 2), Err(MergeError::NotAnnounced));
    assert_eq!(queue.announce(10), Err(MergeError::AlreadyFinalized));
    assert_eq!(queue.finalize(99, 3), Err(MergeError::NotAnnounced));
}

#[test]
fn draining_moves_completed_results_into_matching_entries() {
    let mut queue = MergeQueue::new();
    let mut aggregate = Aggregate::new();

    aggregate.create_entry(10).unwrap();
    aggregate.create_entry(20).unwrap();

    queue.announce(10).unwrap();
    queue.announce(20).unwrap();
    queue.finalize(20, "late").unwrap();
    queue.finalize(10, "early").unwrap();

    queue.drain_into(&mut aggregate).unwrap();

    assert_eq!(aggregate.get(10), Some(&vec!["early"]));
    assert_eq!(aggregate.get(20), Some(&vec!["late"]));
    assert_eq!(queue.earliest_open_timestamp(), None);

    queue.drain_into(&mut aggregate).unwrap();
    assert_eq!(aggregate.get(10), Some(&vec!["early"]));
}

#[test]
fn draining_into_a_missing_entry_is_reported_and_moves_nothing() {
    let mut queue = MergeQueue::new();
    let mut aggregate = Aggregate::new();

    aggregate.create_entry(10).unwrap();
    queue.announce(10).unwrap();
    queue.announce(20).unwrap();
    queue.finalize(10, "a").unwrap();
    queue.finalize(20, "b").unwrap();

    assert_eq!(
        queue.drain_into(&mut aggregate),
        Err(MergeError::NoAggregateEntry)
    );
    assert_eq!(aggregate.get(10), Some(&Vec::<&str>::new()));
}

#[test]
fn pushing_into_a_missing_entry_is_reported_not_stored() {
    let mut aggregate = Aggregate::new();
    aggregate.create_entry(10).unwrap();
    assert_eq!(
        aggregate.push_result(20, "x"),
        Err(MergeError::NoAggregateEntry)
    );
    assert_eq!(aggregate.len(), 1);
    assert_eq!(aggregate.get(20), None);

    aggregate.push_result(10, "y").unwrap();
    assert_eq!(aggregate.get(10), Some(&vec!["y"]));
}

#[test]
fn entries_are_created_in_strictly_increasing_order() {
    let mut aggregate = Aggregate::<u8>::new();
    aggregate.create_entry(10).unwrap();
    assert_eq!(aggregate.create_entry(10), Err(MergeError::OutOfOrder));
    assert_eq!(aggregate.create_entry(5), Err(MergeError::OutOfOrder));
    aggregate.create_entry(11).unwrap();
    assert_eq!(aggregate.len(), 2);
}

#[test]
fn pending_watermark_is_the_minimum_over_producers() {
    let mut queues: Vec<MergeQueue<u8>> = vec![
        MergeQueue::new(),
        MergeQueue::new(),
        MergeQueue::new(),
    ];
    assert_eq!(earliest_pending_timestamp(&queues), None);

    queues[0].announce(30).unwrap();
    queues[2].announce(20).unwrap();
    assert_eq!(earliest_pending_timestamp(&queues), Some(20));

    queues[2].finalize(20, 1).unwrap();
    assert_eq!(earliest_pending_timestamp(&queues), Some(30));
}

#[test]
fn pruning_keeps_entries_at_or_after_the_watermark() {
    let mut aggregate = Aggregate::new();
    for timestamp in [10u64, 20, 30] {
        aggregate.create_entry(timestamp).unwrap();
        aggregate.push_result(timestamp, timestamp as u32).unwrap();
    }
    aggregate.prune_before(20);
    assert_eq!(aggregate.len(), 2);
    assert_eq!(aggregate.get(10), None);
    assert_eq!(aggregate.get(20), Some(&vec![20]));
    assert_eq!(aggregate.get(30), Some(&vec![30]));
}
