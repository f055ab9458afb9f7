use cycler_core::buffer::{BufferError, StateBuffer};

#[test]
fn construction_needs_at_least_two_slots() {
    assert!(matches!(
        StateBuffer::new(vec![1u32]),
        Err(BufferError::TooFewSlots)
    ));
    assert!(StateBuffer::new(vec![1u32, 2]).is_ok());
}

#[test]
fn readers_see_the_snapshot_current_at_acquisition() {
    let mut buffer = StateBuffer::new(vec![0u32, 0]).unwrap();

    let writer = buffer.acquire_write().unwrap();
    buffer.write(&writer, 7);
    buffer.publish(writer);

    let reader = buffer.acquire_read();
    assert_eq!(*buffer.read(&reader), 7);
    buffer.release_read(reader);
}

#[test]
fn an_acquired_view_never_changes_under_later_writes() {
    let mut buffer = StateBuffer::new(vec![0u32, 0, 0]).unwrap();

    let writer = buffer.acquire_write().unwrap();
    buffer.write(&writer, 1);
    buffer.publish(writer);

    let reader = buffer.acquire_read();
    assert_eq!(*buffer.read(&reader), 1);

    for value in [2u32, 3, 4] {
        let writer = buffer.acquire_write().unwrap();
        buffer.write(&writer, value);
        buffer.publish(writer);
        assert_eq!(*buffer.read(&reader), 1);
    }

    buffer.release_read(reader);
    let fresh = buffer.acquire_read();
    assert_eq!(*buffer.read(&fresh), 4);
    buffer.release_read(fresh);
}

#[test]
fn only_one_write_handle_at_a_time() {
    let mut buffer = StateBuffer::new(vec![0u8, 0]).unwrap();
    let writer = buffer.acquire_write().unwrap();
    assert!(matches!(
        buffer.acquire_write(),
        Err(BufferError::WriteAlreadyOpen)
    ));
    buffer.abort_write(writer);
    assert!(buffer.acquire_write().is_ok());
}

#[test]
fn two_slots_and_one_cycling_reader_never_starve_the_writer() {
    let mut buffer = StateBuffer::new(vec![0u64, 0]).unwrap();

    for round in 1..=50u64 {
        let reader = buffer.acquire_read();
        let seen = *buffer.read(&reader);
        assert_eq!(seen, round - 1);

        let writer = buffer
            .acquire_write()
            .expect("the writer must never observe all slots busy");
        buffer.write(&writer, round);
        buffer.publish(writer);

        assert_eq!(*buffer.read(&reader), round - 1);
        buffer.release_read(reader);
    }
}

#[test]
fn configuration_snapshots_hot_reload_without_torn_reads() {
    // Configuration updates travel through the same single-writer,
    // multi-reader mechanism as cycler outputs.
    let mut configuration = StateBuffer::new(vec![(100u32, 5u32); 3]).unwrap();

    let in_use = configuration.acquire_read();
    assert_eq!(*configuration.read(&in_use), (100, 5));

    let update = configuration.acquire_write().unwrap();
    configuration.write(&update, (250, 9));
    configuration.publish(update);

    // The cycle that was already running keeps its snapshot whole.
    assert_eq!(*configuration.read(&in_use), (100, 5));
    configuration.release_read(in_use);

    // The next cycle picks up the whole new snapshot.
    let next = configuration.acquire_read();
    assert_eq!(*configuration.read(&next), (250, 9));
    configuration.release_read(next);
}

#[test]
fn a_stale_reader_never_starves_a_two_slot_writer() {
    let mut buffer = StateBuffer::new(vec![0i32, 0]).unwrap();

    // The reader keeps its view across two publishes; the writer falls
    // back to the reader-free published slot rather than starving.
    let reader = buffer.acquire_read();

    let writer = buffer.acquire_write().unwrap();
    buffer.write(&writer, 1);
    buffer.publish(writer);

    let writer = buffer
        .acquire_write()
        .expect("the writer must never observe all slots busy");
    buffer.write(&writer, 2);
    buffer.publish(writer);

    assert_eq!(*buffer.read(&reader), 0);
    buffer.release_read(reader);

    let fresh = buffer.acquire_read();
    assert_eq!(*buffer.read(&fresh), 2);
    buffer.release_read(fresh);
}

#[test]
fn readers_on_every_slot_make_the_writer_wait() {
    let mut buffer = StateBuffer::new(vec![0i32, 0]).unwrap();

    let first = buffer.acquire_read();

    let writer = buffer.acquire_write().unwrap();
    buffer.write(&writer, 1);
    buffer.publish(writer);

    let second = buffer.acquire_read();

    assert!(matches!(
        buffer.acquire_write(),
        Err(BufferError::AllSlotsBusy)
    ));

    buffer.release_read(first);
    assert!(buffer.acquire_write().is_ok());
    buffer.release_read(second);
}
