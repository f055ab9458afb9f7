use cycler_core::engine::{
    required_inputs_present, CancellationFlag, CyclerState, EngineError, PerceptionCycler,
    RealtimeCycler,
};
use cycler_core::merge::MergeQueue;

fn realtime() -> RealtimeCycler<u32, &'static str> {
    RealtimeCycler::new(vec![0u32, 0, 0], 8).unwrap()
}

#[test]
fn cycler_configuration_errors() {
    assert!(matches!(
        RealtimeCycler::<u32, u8>::new(vec![0], 8),
        Err(EngineError::TooFewSlots)
    ));
    assert!(matches!(
        RealtimeCycler::<u32, u8>::new(vec![0, 0], 0),
        Err(EngineError::ZeroArchiveCapacity)
    ));
    assert!(matches!(
        PerceptionCycler::<u32>::new(vec![0]),
        Err(EngineError::TooFewSlots)
    ));
}

#[test]
fn lifecycle_idle_running_stopped() {
    let mut cycler = realtime();
    assert_eq!(cycler.state(), CyclerState::Idle);
    assert_eq!(cycler.begin_cycle(0), Err(EngineError::NotRunning));

    cycler.start().unwrap();
    assert_eq!(cycler.state(), CyclerState::Running);
    assert_eq!(cycler.start(), Err(EngineError::NotIdle));

    let mut flag = CancellationFlag::new();
    assert!(cycler.check_cancellation(&flag));

    flag.cancel();
    assert!(!cycler.check_cancellation(&flag));
    assert_eq!(cycler.state(), CyclerState::Stopped);
    assert_eq!(cycler.start(), Err(EngineError::NotIdle));
}

#[test]
fn one_cycle_publishes_archives_and_closes() {
    let mut cycler = realtime();
    let mut queues: Vec<MergeQueue<&'static str>> = vec![MergeQueue::new()];
    cycler.start().unwrap();

    cycler.begin_cycle(10).unwrap();
    assert_eq!(cycler.open_timestamp(), Some(10));
    assert_eq!(cycler.begin_cycle(11), Err(EngineError::CycleAlreadyOpen));

    cycler.archive_snapshot(77).unwrap();
    cycler.drain(&mut queues).unwrap();
    cycler.prune(None).unwrap();
    cycler.finish_cycle(77).unwrap();
    assert_eq!(cycler.open_timestamp(), None);
    assert_eq!(cycler.finish_cycle(78), Err(EngineError::NoOpenCycle));
    assert_eq!(cycler.archive_snapshot(78), Err(EngineError::NoOpenCycle));
    assert_eq!(cycler.prune(None), Err(EngineError::NoOpenCycle));

    assert_eq!(cycler.archive().get(10), Some(&77));
    let reader = cycler.acquire_read().expect("no write handle is open");
    assert_eq!(*cycler.read_value(&reader), 77);
    cycler.release_read(reader);

    assert_eq!(cycler.begin_cycle(10), Err(EngineError::ClockWentBackwards));
    assert_eq!(cycler.begin_cycle(9), Err(EngineError::ClockWentBackwards));
    cycler.begin_cycle(11).unwrap();
    cycler.finish_cycle(78).unwrap();
}

#[test]
fn a_stale_reader_does_not_starve_a_two_slot_cycler() {
    let mut cycler: RealtimeCycler<u32, u8> = RealtimeCycler::new(vec![0, 0], 4).unwrap();
    let mut queues: Vec<MergeQueue<u8>> = vec![];
    cycler.start().unwrap();

    let reader = cycler.acquire_read().expect("no write handle is open");

    cycler.begin_cycle(10).unwrap();
    cycler.drain(&mut queues).unwrap();
    cycler.finish_cycle(1).unwrap();

    // The stale reader holds one slot, the other was just published, so
    // this cycle rewrites the published slot; while it does, there is no
    // stable snapshot for a new reader.
    cycler.begin_cycle(20).unwrap();
    assert!(cycler.acquire_read().is_none());
    cycler.finish_cycle(2).unwrap();

    assert_eq!(*cycler.read_value(&reader), 0);
    cycler.release_read(reader);
    let fresh = cycler.acquire_read().expect("the cycle is closed again");
    assert_eq!(*cycler.read_value(&fresh), 2);
    cycler.release_read(fresh);
}

#[test]
fn readers_on_every_slot_delay_the_next_cycle() {
    let mut cycler: RealtimeCycler<u32, u8> = RealtimeCycler::new(vec![0, 0], 4).unwrap();
    cycler.start().unwrap();

    let first = cycler.acquire_read().expect("no write handle is open");
    cycler.begin_cycle(10).unwrap();
    cycler.finish_cycle(1).unwrap();
    let second = cycler.acquire_read().expect("no write handle is open");

    assert_eq!(cycler.begin_cycle(20), Err(EngineError::AllSlotsBusy));

    cycler.release_read(first);
    cycler.begin_cycle(20).unwrap();
    cycler.finish_cycle(2).unwrap();
    cycler.release_read(second);
}

#[test]
fn a_stage_failure_stops_the_cycler_and_cancels_the_process() {
    let mut cycler = realtime();
    let mut flag = CancellationFlag::new();
    cycler.start().unwrap();
    cycler.begin_cycle(5).unwrap();

    cycler.fail(&mut flag);
    assert_eq!(cycler.state(), CyclerState::Stopped);
    assert!(flag.is_cancelled());
    assert_eq!(cycler.open_timestamp(), None);

    let reader = cycler.acquire_read().expect("the aborted cycle left no write handle");
    assert_eq!(*cycler.read_value(&reader), 0);
    cycler.release_read(reader);
}

#[test]
fn draining_an_unknown_timestamp_is_fatal() {
    let mut cycler = realtime();
    let mut queues: Vec<MergeQueue<&'static str>> = vec![MergeQueue::new()];
    cycler.start().unwrap();

    cycler.begin_cycle(10).unwrap();
    cycler.finish_cycle(1).unwrap();

    queues[0].announce(99).unwrap();
    queues[0].finalize(99, "rogue").unwrap();

    cycler.begin_cycle(20).unwrap();
    assert_eq!(
        cycler.drain(&mut queues),
        Err(EngineError::MissingAggregateEntry)
    );
    assert_eq!(cycler.state(), CyclerState::Stopped);
    assert_eq!(cycler.open_timestamp(), None);
}

#[test]
fn perception_results_merge_into_the_originating_timestamp() {
    // The real-time cycler ticks at 0, 10, 20, 30; a perception producer
    // announces capture time 10 and finalizes its result at wall time 45,
    // between the ticks at 30 and 50.
    let mut owner = realtime();
    let mut producer: PerceptionCycler<&'static str> =
        PerceptionCycler::new(vec!["", ""]).unwrap();
    let mut queues: Vec<MergeQueue<&'static str>> = vec![MergeQueue::new()];

    owner.start().unwrap();
    producer.start().unwrap();

    for tick in [0u64, 10] {
        owner.begin_cycle(tick).unwrap();
        owner.archive_snapshot(tick as u32).unwrap();
        owner.drain(&mut queues).unwrap();
        let watermark = cycler_core::merge::earliest_pending_timestamp(&queues);
        owner.prune(watermark).unwrap();
        owner.finish_cycle(tick as u32).unwrap();
    }

    // The frame captured at tick 10 arrives; its instant resolves in the
    // owner's archive, so the producer announces it.
    assert_eq!(owner.archive().get(10), Some(&10));
    producer.begin_trigger(10, &mut queues[0]).unwrap();
    assert_eq!(queues[0].earliest_open_timestamp(), Some(10));

    for tick in [20u64, 30] {
        owner.begin_cycle(tick).unwrap();
        owner.archive_snapshot(tick as u32).unwrap();
        owner.drain(&mut queues).unwrap();
        let watermark = cycler_core::merge::earliest_pending_timestamp(&queues);
        assert_eq!(watermark, Some(10));
        owner.prune(watermark).unwrap();
        owner.finish_cycle(tick as u32).unwrap();

        // The drain left this tick's entry empty for the producer, and
        // pruning kept the announced instant's entry alive.
        assert_eq!(owner.aggregate().get(tick), Some(&Vec::<&'static str>::new()));
        assert!(owner.aggregate().contains(10));
        assert_eq!(queues[0].earliest_open_timestamp(), Some(10));
    }

    // Wall time 45: the producer finalizes and publishes.
    producer
        .finish_trigger("ball seen", "ball seen", &mut queues[0])
        .unwrap();
    assert_eq!(queues[0].earliest_open_timestamp(), None);

    // Tick 50: the next drain places the result into the entry of its
    // capture time.
    owner.begin_cycle(50).unwrap();
    owner.archive_snapshot(50).unwrap();
    owner.drain(&mut queues).unwrap();
    assert_eq!(owner.aggregate().get(10), Some(&vec!["ball seen"]));
    let watermark = cycler_core::merge::earliest_pending_timestamp(&queues);
    assert_eq!(watermark, None);
    owner.prune(watermark).unwrap();
    owner.finish_cycle(50).unwrap();
}

#[test]
fn perception_trigger_errors() {
    let mut producer: PerceptionCycler<u8> = PerceptionCycler::new(vec![0, 0]).unwrap();
    let mut queue: MergeQueue<u8> = MergeQueue::new();

    assert_eq!(
        producer.begin_trigger(10, &mut queue),
        Err(EngineError::NotRunning)
    );
    producer.start().unwrap();
    assert_eq!(
        producer.finish_trigger(1, 1, &mut queue),
        Err(EngineError::NoOpenCycle)
    );

    producer.begin_trigger(10, &mut queue).unwrap();
    assert_eq!(
        producer.begin_trigger(11, &mut queue),
        Err(EngineError::CycleAlreadyOpen)
    );
    producer.finish_trigger(1, 1, &mut queue).unwrap();

    assert_eq!(
        producer.begin_trigger(10, &mut queue),
        Err(EngineError::ClockWentBackwards)
    );
    // Capture 10 was already finalized: announcing it again is refused.
    let mut second: PerceptionCycler<u8> = PerceptionCycler::new(vec![0, 0]).unwrap();
    second.start().unwrap();
    assert_eq!(
        second.begin_trigger(10, &mut queue),
        Err(EngineError::DuplicateTrigger)
    );
    assert_eq!(second.state(), CyclerState::Running);
}

#[test]
fn a_foreign_finalize_stops_the_producer() {
    let mut producer: PerceptionCycler<u8> = PerceptionCycler::new(vec![0, 0]).unwrap();
    let mut queue: MergeQueue<u8> = MergeQueue::new();
    producer.start().unwrap();
    producer.begin_trigger(10, &mut queue).unwrap();

    // Someone else finalizes the announce behind the producer's back.
    queue.finalize(10, 9).unwrap();

    assert_eq!(
        producer.finish_trigger(1, 1, &mut queue),
        Err(EngineError::TriggerNotOpen)
    );
    assert_eq!(producer.state(), CyclerState::Stopped);
}

#[test]
fn stages_with_absent_required_inputs_are_skipped() {
    let all_present: Vec<Option<u8>> = vec![Some(1), Some(2)];
    let one_absent: Vec<Option<u8>> = vec![Some(1), None];
    let none: Vec<Option<u8>> = vec![];
    assert!(required_inputs_present(&all_present));
    assert!(!required_inputs_present(&one_absent));
    assert!(required_inputs_present(&none));
}
