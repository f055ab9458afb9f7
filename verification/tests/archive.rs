use cycler_core::archive::{ArchiveError, HistoricArchive};

#[test]
fn construction_needs_a_positive_capacity() {
    assert!(matches!(
        HistoricArchive::<u8>::new(0),
        Err(ArchiveError::ZeroCapacity)
    ));
    assert!(HistoricArchive::<u8>::new(1).is_ok());
}

#[test]
fn over_capacity_insertions_keep_the_most_recent_entries() {
    let mut archive = HistoricArchive::new(3).unwrap();
    for timestamp in [10u64, 20, 30, 40, 50] {
        archive.record(timestamp, timestamp * 100).unwrap();
    }

    assert_eq!(archive.len(), 3);
    assert_eq!(archive.get(30), Some(&3000));
    assert_eq!(archive.get(40), Some(&4000));
    assert_eq!(archive.get(50), Some(&5000));
    assert_eq!(archive.get(10), None);
    assert_eq!(archive.get(20), None);
}

#[test]
fn out_of_order_insertions_are_rejected_and_not_stored() {
    let mut archive = HistoricArchive::new(4).unwrap();
    archive.record(10, "a").unwrap();
    archive.record(20, "b").unwrap();

    assert_eq!(archive.record(15, "late"), Err(ArchiveError::OutOfOrder));
    assert_eq!(archive.len(), 2);
    assert_eq!(archive.get(15), None);
    assert_eq!(archive.get(20), Some(&"b"));
}

#[test]
fn recording_at_the_newest_timestamp_replaces_the_snapshot() {
    let mut archive = HistoricArchive::new(4).unwrap();
    archive.record(10, 1).unwrap();
    archive.record(10, 2).unwrap();
    assert_eq!(archive.len(), 1);
    assert_eq!(archive.get(10), Some(&2));
}

#[test]
fn soft_lookup_returns_the_nearest_earlier_entry() {
    let mut archive = HistoricArchive::new(8).unwrap();
    archive.record(10, "a").unwrap();
    archive.record(20, "b").unwrap();
    archive.record(40, "c").unwrap();

    assert_eq!(archive.get_at_or_before(5), None);
    assert_eq!(archive.get_at_or_before(10), Some(&"a"));
    assert_eq!(archive.get_at_or_before(19), Some(&"a"));
    assert_eq!(archive.get_at_or_before(20), Some(&"b"));
    assert_eq!(archive.get_at_or_before(39), Some(&"b"));
    assert_eq!(archive.get_at_or_before(1000), Some(&"c"));
}

#[test]
fn strict_lookup_requires_an_exact_match() {
    let mut archive = HistoricArchive::new(8).unwrap();
    archive.record(10, "a").unwrap();
    archive.record(20, "b").unwrap();

    assert_eq!(archive.get(10), Some(&"a"));
    assert_eq!(archive.get(15), None);
    assert_eq!(archive.get(25), None);
}

#[test]
fn pruning_drops_entries_before_the_limit() {
    let mut archive = HistoricArchive::new(8).unwrap();
    for timestamp in [10u64, 20, 30, 40] {
        archive.record(timestamp, timestamp).unwrap();
    }
    archive.prune_before(30);
    assert_eq!(archive.len(), 2);
    assert_eq!(archive.get(20), None);
    assert_eq!(archive.get(30), Some(&30));
    assert_eq!(archive.get(40), Some(&40));
    assert_eq!(archive.latest_timestamp(), Some(40));
}
