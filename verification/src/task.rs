//! The leaf of the scheduler: a work unit paired with an interval, and the
//! runtime entry that tracks when that work last ran.
//!
//! All timestamps and intervals are milliseconds held in a `u64`. The due
//! check is pure arithmetic over an injected `now`, so it never reads a clock
//! itself.

use vstd::prelude::*;

verus! {

/// An opaque, zero-argument unit of work supplied by the caller. The
/// scheduler never inspects it; it only invokes it when the owning task is
/// due. `invoke` reports success with `true`. A failure is reported with
/// `false` and is contained by the scheduler: it is logged and the remaining
/// tasks of the tick still run.
pub trait WorkUnit {
    fn invoke(&mut self) -> bool;
}

/// A work unit together with the period, in milliseconds, at which it should
/// run. The interval is fixed once the task is registered; an interval of 0
/// means "run on every tick".
pub struct Task<W> {
    pub work: W,
    pub interval: u64,
}

/// A registered task with its mutable bookkeeping: the timestamp of the most
/// recent execution, or of registration if the task never ran. Only the
/// scheduler's poll step writes `last_run`.
pub struct GreenThread<W> {
    pub task: Task<W>,
    pub last_run: u64,
}

/// What one due-check did with one entry.
#[derive(Clone, Copy, Debug, PartialEq, Eq, Structural)]
pub enum PollOutcome {
    /// The elapsed time since the last run had not reached the interval; the
    /// work unit was not invoked and the entry is unchanged.
    NotDue,
    /// The task was due and its work unit reported success.
    Completed,
    /// The task was due and its work unit reported failure.
    Failed,
}

/// A task whose last run was at `last_run` is due at `now` when the elapsed
/// time has reached or exceeded its interval. The subtraction is over the
/// mathematical integers: under a clock that has gone backwards (`now`
/// before `last_run`) the elapsed time is negative and no task is due, not
/// even one with a zero interval.
pub open spec fn due_at(last_run: u64, interval: u64, now: u64) -> bool {
    now - last_run >= interval
}

impl<W: WorkUnit> GreenThread<W> {
    /// Registers a task: the entry starts with `last_run` set to the
    /// registration time, so the first firing comes one full interval after
    /// registration.
    pub fn new(task: Task<W>, now: u64) -> (entry: GreenThread<W>)
        ensures
            entry.task == task,
            entry.last_run == now,
    {
        GreenThread { task, last_run: now }
    }

    /// The per-entry poll step: if the entry is due at `now`, invoke the work
    /// unit exactly once and set `last_run` to `now`; otherwise leave the
    /// entry untouched.
    ///
    /// Timestamp policy: `last_run` becomes the injected `now`, the tick's
    /// timestamp captured before the work unit runs. The work unit's own
    /// execution time therefore does not inflate the observed interval.
    ///
    /// `last_run` is updated whether the work unit succeeds or fails, so a
    /// permanently failing task fires once per interval, not once per tick.
    pub fn run_if_due(&mut self, now: u64) -> (outcome: PollOutcome)
        ensures
            final(self).task.interval == old(self).task.interval,
            due_at(old(self).last_run, old(self).task.interval, now) ==> {
                &&& final(self).last_run == now
                &&& (outcome is Completed || outcome is Failed)
            },
            !due_at(old(self).last_run, old(self).task.interval, now) ==> {
                &&& *final(self) == *old(self)
                &&& outcome is NotDue
            },
    {
        if now >= self.last_run && now - self.last_run >= self.task.interval {
            let ok = self.task.work.invoke();
            self.last_run = now;
            if ok {
                PollOutcome::Completed
            } else {
                PollOutcome::Failed
            }
        } else {
            PollOutcome::NotDue
        }
    }
}

} // verus!
