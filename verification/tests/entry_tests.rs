use tick_scheduler::task::GreenThread;
use tick_scheduler::task::PollOutcome;
use tick_scheduler::task::Task;
use tick_scheduler::task::WorkUnit;

/// A work unit that counts its invocations and always succeeds.
struct Counter {
    count: u64,
}

impl WorkUnit for Counter {
    fn invoke(&mut self) -> bool {
        self.count += 1;
        true
    }
}

/// A work unit that counts its invocations and always reports failure.
struct AlwaysFails {
    count: u64,
}

impl WorkUnit for AlwaysFails {
    fn invoke(&mut self) -> bool {
        self.count += 1;
        false
    }
}

fn counting_entry(interval: u64, registered_at: u64) -> GreenThread<Counter> {
    GreenThread::new(Task { work: Counter { count: 0 }, interval }, registered_at)
}

#[test]
fn new_entry_starts_at_registration_time() {
    let entry = counting_entry(10_000, 42);
    assert_eq!(entry.last_run, 42);
    assert_eq!(entry.task.interval, 10_000);
    assert_eq!(entry.task.work.count, 0);
}

#[test]
fn fires_exactly_at_threshold_and_each_full_interval_after() {
    let mut entry = counting_entry(10, 0);
    assert_eq!(entry.run_if_due(10), PollOutcome::Completed);
    assert_eq!(entry.task.work.count, 1);
    assert_eq!(entry.last_run, 10);
    // not again until another full interval has elapsed
    assert_eq!(entry.run_if_due(19), PollOutcome::NotDue);
    assert_eq!(entry.task.work.count, 1);
    assert_eq!(entry.run_if_due(20), PollOutcome::Completed);
    assert_eq!(entry.task.work.count, 2);
    assert_eq!(entry.last_run, 20);
}

#[test]
fn never_fires_strictly_before_due_time() {
    let mut entry = counting_entry(10, 5);
    for now in 5..15 {
        assert_eq!(entry.run_if_due(now), PollOutcome::NotDue);
    }
    assert_eq!(entry.task.work.count, 0);
    assert_eq!(entry.last_run, 5);
}

#[test]
fn recheck_at_same_time_fires_at_most_once() {
    let mut entry = counting_entry(10, 0);
    assert_eq!(entry.run_if_due(25), PollOutcome::Completed);
    assert_eq!(entry.run_if_due(25), PollOutcome::NotDue);
    assert_eq!(entry.task.work.count, 1);
    assert_eq!(entry.last_run, 25);
}

#[test]
fn zero_interval_is_due_on_every_distinct_tick() {
    let mut entry = counting_entry(0, 0);
    for now in [0, 1, 2, 3, 4] {
        assert_eq!(entry.run_if_due(now), PollOutcome::Completed);
    }
    assert_eq!(entry.task.work.count, 5);
}

#[test]
fn clock_behind_last_run_means_not_due() {
    let mut entry = counting_entry(0, 100);
    assert_eq!(entry.run_if_due(50), PollOutcome::NotDue);
    assert_eq!(entry.task.work.count, 0);
    assert_eq!(entry.last_run, 100);
}

#[test]
fn failure_is_reported_and_last_run_still_advances() {
    let mut entry = GreenThread::new(
        Task { work: AlwaysFails { count: 0 }, interval: 100 },
        0,
    );
    assert_eq!(entry.run_if_due(100), PollOutcome::Failed);
    assert_eq!(entry.last_run, 100);
    // the failed firing consumed the interval: no hot retry loop
    assert_eq!(entry.run_if_due(150), PollOutcome::NotDue);
    assert_eq!(entry.run_if_due(200), PollOutcome::Failed);
    assert_eq!(entry.task.work.count, 2);
}
