use hawkeye::event::{Event, EventType};
use hawkeye::tracker::{CapacityExceeded, Tracker, DEFAULT_DEADLINE_NS};

#[test]
fn exit_measures_elapsed_exactly() {
    let mut t = Tracker::new(EventType::fsync, 8, 100);
    assert_eq!(t.on_entry(7, 1_000), Ok(()));
    let ev = t.on_exit(7, 1_250);
    assert_eq!(
        ev,
        Some(Event { pid: 7, elapsed_ns: 250, event_type: EventType::fsync })
    );
}

#[test]
fn exit_at_deadline_does_not_emit() {
    let mut t = Tracker::new(EventType::fsync, 8, 100);
    assert_eq!(t.on_entry(7, 0), Ok(()));
    // elapsed == deadline: not strictly greater, no record
    assert_eq!(t.on_exit(7, 100), None);
    // and the key is gone: a later exit is a no-op
    assert_eq!(t.on_exit(7, 10_000), None);
}

#[test]
fn exit_below_deadline_does_not_emit() {
    let mut t = Tracker::new(EventType::clock_gettime, 8, 1_000);
    assert_eq!(t.on_entry(1, 0), Ok(()));
    assert_eq!(t.on_exit(1, 999), None);
}

#[test]
fn exit_without_entry_is_noop() {
    let mut t = Tracker::new(EventType::fsync, 8, 100);
    assert_eq!(t.on_exit(42, 1_000_000), None);
    // the table is untouched: a tracked task still correlates
    assert_eq!(t.on_entry(1, 0), Ok(()));
    assert_eq!(t.on_exit(42, 1_000_000), None);
    let ev = t.on_exit(1, 500);
    assert_eq!(
        ev,
        Some(Event { pid: 1, elapsed_ns: 500, event_type: EventType::fsync })
    );
}

#[test]
fn reentry_overwrites_start_time() {
    // entry(t=0), entry(t=5), exit(t=10) => elapsed = 5, not 10
    let mut t = Tracker::new(EventType::fdatasync, 8, 3);
    assert_eq!(t.on_entry(9, 0), Ok(()));
    assert_eq!(t.on_entry(9, 5), Ok(()));
    let ev = t.on_exit(9, 10);
    assert_eq!(
        ev,
        Some(Event { pid: 9, elapsed_ns: 5, event_type: EventType::fdatasync })
    );
}

#[test]
fn capacity_exceeded_leaves_table_untouched() {
    let mut t = Tracker::new(EventType::down_killable, 2, 10);
    assert_eq!(t.on_entry(1, 100), Ok(()));
    assert_eq!(t.on_entry(2, 200), Ok(()));
    // third distinct task id: rejected
    assert_eq!(t.on_entry(3, 300), Err(CapacityExceeded));
    // a task already pending may still be refreshed at capacity
    assert_eq!(t.on_entry(2, 250), Ok(()));
    // the rejected task was never tracked
    assert_eq!(t.on_exit(3, 1_000_000), None);
    // the existing entries are intact
    assert_eq!(
        t.on_exit(1, 200),
        Some(Event { pid: 1, elapsed_ns: 100, event_type: EventType::down_killable })
    );
    assert_eq!(
        t.on_exit(2, 400),
        Some(Event { pid: 2, elapsed_ns: 150, event_type: EventType::down_killable })
    );
    // room again: a new task is admitted
    assert_eq!(t.on_entry(3, 500), Ok(()));
}

#[test]
fn wrapped_clock_sample_is_discarded() {
    let mut t = Tracker::new(EventType::fsync, 4, 0);
    assert_eq!(t.on_entry(5, 1_000), Ok(()));
    // exit timestamp before the recorded start: sample discarded, key gone
    assert_eq!(t.on_exit(5, 999), None);
    assert_eq!(t.on_exit(5, u64::MAX), None);
}

#[test]
fn interleaved_tasks_are_timed_independently() {
    let mut t = Tracker::new(EventType::down_read_killable, 8, 10);
    assert_eq!(t.on_entry(1, 100), Ok(()));
    assert_eq!(t.on_entry(2, 130), Ok(()));
    assert_eq!(t.on_entry(3, 140), Ok(()));
    // task 2 exits first; tasks 1 and 3 keep their own start times
    assert_eq!(
        t.on_exit(2, 150),
        Some(Event { pid: 2, elapsed_ns: 20, event_type: EventType::down_read_killable })
    );
    assert_eq!(
        t.on_exit(1, 200),
        Some(Event { pid: 1, elapsed_ns: 100, event_type: EventType::down_read_killable })
    );
    assert_eq!(t.on_exit(3, 145), None); // within deadline
}

#[test]
fn default_deadline_is_one_second() {
    assert_eq!(DEFAULT_DEADLINE_NS, 1_000_000_000);
    let mut t = Tracker::with_default_deadline(EventType::fsync, 4);
    assert_eq!(t.on_entry(1, 0), Ok(()));
    assert_eq!(t.on_exit(1, 1_000_000_000), None);
    assert_eq!(t.on_entry(1, 0), Ok(()));
    assert_eq!(
        t.on_exit(1, 1_000_000_001),
        Some(Event { pid: 1, elapsed_ns: 1_000_000_001, event_type: EventType::fsync })
    );
}
