//! The scheduler: an ordered sequence of runtime entries, a poll step that
//! fires every due task in insertion order against one shared timestamp, and
//! a bounded simulated run that polls at a fixed tick period.
//!
//! The spec-level model works on snapshots: an `EntrySnap` is the pair of an
//! entry's interval and last-run time, which is all the poll algorithm reads.
//! `tick_snaps` is the state transition of one tick, `due_pairs` the
//! `(index, time)` fire events it emits. The exec functions are pinned to
//! these functions exactly, so the event sequence depends only on the
//! registered intervals, the registration times and the poll timestamps —
//! never on what the work units do.

use vstd::prelude::*;

use crate::task::due_at;
use crate::task::GreenThread;
use crate::task::PollOutcome;
use crate::task::Task;
use crate::task::WorkUnit;

verus! {

/// The scheduler's tick period, in milliseconds: a process driving the poll
/// loop sleeps this long between scans, so it is the timing resolution floor.
pub const TICK_MILLIS: u64 = 100;

/// The part of a runtime entry that the poll algorithm reads: its fixed
/// interval and the timestamp of its most recent run. The opaque work unit is
/// deliberately absent, so scheduling behaviour is stated independently of it.
pub struct EntrySnap {
    pub interval: u64,
    pub last_run: u64,
}

/// One observed firing: the entry's position in registration order, the tick
/// timestamp it fired at, and whether its work unit reported success.
#[derive(Clone, Copy, Debug, PartialEq, Eq, Structural)]
pub struct FireEvent {
    pub index: usize,
    pub time: u64,
    pub ok: bool,
}

/// The snapshot of one runtime entry.
pub open spec fn snap_of<W>(entry: GreenThread<W>) -> EntrySnap {
    EntrySnap { interval: entry.task.interval, last_run: entry.last_run }
}

/// The snapshots of a sequence of entries, in order.
pub open spec fn snaps_of<W>(entries: Seq<GreenThread<W>>) -> Seq<EntrySnap> {
    entries.map_values(|entry: GreenThread<W>| snap_of(entry))
}

/// Whether an entry is due at `now`.
pub open spec fn snap_due(entry: EntrySnap, now: u64) -> bool {
    due_at(entry.last_run, entry.interval, now)
}

/// One entry after a poll at `now`: a due entry's last-run time becomes
/// `now`; any other entry is unchanged.
pub open spec fn tick_snap(entry: EntrySnap, now: u64) -> EntrySnap {
    if snap_due(entry, now) {
        EntrySnap { interval: entry.interval, last_run: now }
    } else {
        entry
    }
}

/// The whole entry sequence after a poll at `now`.
pub open spec fn tick_snaps(entries: Seq<EntrySnap>, now: u64) -> Seq<EntrySnap> {
    entries.map_values(|entry: EntrySnap| tick_snap(entry, now))
}

/// The `(index, time)` fire events of one poll at `now`: one pair per due
/// entry, in registration order.
pub open spec fn due_pairs(entries: Seq<EntrySnap>, now: u64) -> Seq<(int, u64)>
    decreases entries.len(),
{
    if entries.len() == 0 {
        Seq::empty()
    } else {
        let rest = due_pairs(entries.drop_last(), now);
        if snap_due(entries.last(), now) {
            rest.push((entries.len() - 1, now))
        } else {
            rest
        }
    }
}

/// The `(index, time)` pairs of a sequence of fire events, in order.
pub open spec fn event_pairs(events: Seq<FireEvent>) -> Seq<(int, u64)> {
    events.map_values(|event: FireEvent| (event.index as int, event.time))
}

/// The subsequence of events whose work unit reported failure.
pub open spec fn failed_events(events: Seq<FireEvent>) -> Seq<FireEvent>
    decreases events.len(),
{
    if events.len() == 0 {
        Seq::empty()
    } else {
        let rest = failed_events(events.drop_last());
        if !events.last().ok {
            rest.push(events.last())
        } else {
            rest
        }
    }
}

/// The fire events of a whole run: one poll per timestamp in `times`, each
/// polling the state the previous poll left behind.
pub open spec fn sim_events(entries: Seq<EntrySnap>, times: Seq<u64>) -> Seq<(int, u64)>
    decreases times.len(),
{
    if times.len() == 0 {
        Seq::empty()
    } else {
        due_pairs(entries, times[0]) + sim_events(
            tick_snaps(entries, times[0]),
            times.drop_first(),
        )
    }
}

/// The entry state a whole run leaves behind.
pub open spec fn sim_snaps(entries: Seq<EntrySnap>, times: Seq<u64>) -> Seq<EntrySnap>
    decreases times.len(),
{
    if times.len() == 0 {
        entries
    } else {
        sim_snaps(tick_snaps(entries, times[0]), times.drop_first())
    }
}

/// The poll timestamps of a run of `count` ticks that starts at `start` and
/// advances by `tick` between polls.
pub open spec fn poll_times(start: u64, tick: u64, count: nat) -> Seq<u64> {
    Seq::new(count, |k: int| (start + k * tick) as u64)
}

/// Appending one poll time to a run appends that poll's events and advances
/// the final state by one tick.
pub(crate) proof fn lemma_sim_push(entries: Seq<EntrySnap>, times: Seq<u64>, t: u64)
    ensures
        sim_events(entries, times.push(t)) == sim_events(entries, times) + due_pairs(
            sim_snaps(entries, times),
            t,
        ),
        sim_snaps(entries, times.push(t)) == tick_snaps(sim_snaps(entries, times), t),
    decreases times.len(),
{
    if times.len() == 0 {
        let single = times.push(t);
        assert(single[0] == t);
        assert(single.drop_first() =~= Seq::<u64>::empty());
        assert(sim_events(tick_snaps(entries, t), single.drop_first())
            == Seq::<(int, u64)>::empty());
        assert(sim_snaps(tick_snaps(entries, t), single.drop_first()) == tick_snaps(entries, t));
        assert(sim_events(entries, single) =~= due_pairs(entries, t));
        assert(sim_snaps(entries, single) == tick_snaps(entries, t));
        assert(sim_events(entries, times) == Seq::<(int, u64)>::empty());
        assert(sim_snaps(entries, times) == entries);
        assert(sim_events(entries, times) + due_pairs(sim_snaps(entries, times), t)
            =~= due_pairs(entries, t));
    } else {
        assert(times.push(t)[0] == times[0]);
        assert(times.push(t).drop_first() =~= times.drop_first().push(t));
        lemma_sim_push(tick_snaps(entries, times[0]), times.drop_first(), t);
        assert(due_pairs(entries, times[0]) + (sim_events(
            tick_snaps(entries, times[0]),
            times.drop_first(),
        ) + due_pairs(sim_snaps(entries, times), t)) =~= (due_pairs(entries, times[0])
            + sim_events(tick_snaps(entries, times[0]), times.drop_first())) + due_pairs(
            sim_snaps(entries, times),
            t,
        ));
    }
}

/// The failed subsequence of a concatenation is the concatenation of the
/// failed subsequences.
pub(crate) proof fn lemma_failed_events_add(a: Seq<FireEvent>, b: Seq<FireEvent>)
    ensures
        failed_events(a + b) == failed_events(a) + failed_events(b),
    decreases b.len(),
{
    if b.len() == 0 {
        assert(a + b =~= a);
        assert(failed_events(a) + failed_events(b) =~= failed_events(a));
    } else {
        assert((a + b).drop_last() =~= a + b.drop_last());
        assert((a + b).last() == b.last());
        lemma_failed_events_add(a, b.drop_last());
        if !b.last().ok {
            assert(failed_events(a) + failed_events(b.drop_last()).push(b.last())
                =~= (failed_events(a) + failed_events(b.drop_last())).push(b.last()));
        }
    }
}

/// The `(index, time)` pairs of a concatenation are the concatenation of the
/// pairs.
pub(crate) proof fn lemma_event_pairs_add(a: Seq<FireEvent>, b: Seq<FireEvent>)
    ensures
        event_pairs(a + b) == event_pairs(a) + event_pairs(b),
{
    assert(event_pairs(a + b) =~= event_pairs(a) + event_pairs(b));
}

/// The poll times of `count + 1` ticks are those of `count` ticks followed by
/// the next tick's timestamp.
pub(crate) proof fn lemma_poll_times_push(start: u64, tick: u64, count: nat)
    ensures
        poll_times(start, tick, count + 1) == poll_times(start, tick, count).push(
            ((start + count * tick) as u64),
        ),
{
    assert(poll_times(start, tick, count + 1) =~= poll_times(start, tick, count).push(
        ((start + count * tick) as u64),
    ));
}

/// The entry that registering `task` at time `now` creates.
pub open spec fn entry_with<W>(task: Task<W>, now: u64) -> GreenThread<W> {
    GreenThread { task, last_run: now }
}

/// The scheduler: the ordered runtime entries, which are scanned in
/// registration order on every tick, and the log of failed firings that the
/// error-containment policy accumulates.
pub struct Scheduler<W> {
    pub threads: Vec<GreenThread<W>>,
    pub failures: Vec<FireEvent>,
}

impl<W: WorkUnit> Scheduler<W> {
    /// An empty scheduler: no entries, nothing logged.
    pub fn new() -> (sched: Scheduler<W>)
        ensures
            sched.threads@.len() == 0,
            sched.failures@.len() == 0,
    {
        Scheduler { threads: Vec::new(), failures: Vec::new() }
    }

    /// Appends a task to the end of the scan order, with its last-run time
    /// initialized to the registration time `now`. Registration order is
    /// execution order within a tick, so it is significant.
    pub fn add_thread(&mut self, task: Task<W>, now: u64)
        ensures
            final(self).threads@ == old(self).threads@.push(entry_with(task, now)),
            final(self).failures@ == old(self).failures@,
    {
        let entry = GreenThread::new(task, now);
        self.threads.push(entry);
    }

    /// One tick of the poll loop: scans every entry in registration order
    /// against the single shared timestamp `now`, runs each due entry's work
    /// unit once, and returns the fire events of this tick in scan order.
    ///
    /// The entry state afterwards is exactly `tick_snaps` of the state
    /// before, and the `(index, time)` pairs of the returned events are
    /// exactly `due_pairs` of it: which tasks fire, and in what order, does
    /// not depend on the work units. A firing whose work unit reports failure
    /// is appended to the failure log and the scan continues, so one failing
    /// task cannot starve the others.
    pub fn poll_tick(&mut self, now: u64) -> (events: Vec<FireEvent>)
        ensures
            final(self).threads@.len() == old(self).threads@.len(),
            snaps_of(final(self).threads@) == tick_snaps(snaps_of(old(self).threads@), now),
            event_pairs(events@) == due_pairs(snaps_of(old(self).threads@), now),
            final(self).failures@ == old(self).failures@ + failed_events(events@),
            forall|j: int|
                0 <= j < events@.len() ==> (#[trigger] events@[j]).index
                    < old(self).threads@.len() && events@[j].time == now,
    {
        let ghost s0: Seq<EntrySnap> = snaps_of(self.threads@);
        let ghost f0: Seq<FireEvent> = self.failures@;
        let mut events: Vec<FireEvent> = Vec::new();
        let n: usize = self.threads.len();
        let mut i: usize = 0;
        proof {
            assert(event_pairs(events@) =~= due_pairs(s0.take(0), now));
            assert(self.failures@ =~= f0 + failed_events(events@));
        }
        while i < n
            invariant
                i <= n,
                self.threads@.len() == n,
                s0.len() == n,
                forall|j: int|
                    0 <= j < i ==> snap_of(#[trigger] self.threads@[j]) == tick_snap(s0[j], now),
                forall|j: int| i <= j < n ==> snap_of(#[trigger] self.threads@[j]) == s0[j],
                event_pairs(events@) == due_pairs(s0.take(i as int), now),
                self.failures@ == f0 + failed_events(events@),
                forall|j: int|
                    0 <= j < events@.len() ==> (#[trigger] events@[j]).index < n
                        && events@[j].time == now,
            decreases n - i,
        {
            let ghost pre_events: Seq<FireEvent> = events@;
            let outcome = self.threads[i].run_if_due(now);
            proof {
                assert(s0.take(i + 1).drop_last() =~= s0.take(i as int));
                assert(s0.take(i + 1).last() == s0[i as int]);
            }
            match outcome {
                PollOutcome::NotDue => {
                    proof {
                        assert(event_pairs(events@) =~= due_pairs(s0.take(i + 1), now));
                    }
                },
                PollOutcome::Completed => {
                    let event = FireEvent { index: i, time: now, ok: true };
                    events.push(event);
                    proof {
                        assert(events@.drop_last() =~= pre_events);
                        assert(event_pairs(events@) =~= due_pairs(s0.take(i + 1), now));
                    }
                },
                PollOutcome::Failed => {
                    let event = FireEvent { index: i, time: now, ok: false };
                    events.push(event);
                    self.failures.push(event);
                    proof {
                        assert(events@.drop_last() =~= pre_events);
                        assert(event_pairs(events@) =~= due_pairs(s0.take(i + 1), now));
                    }
                },
            }
            i = i + 1;
        }
        proof {
            assert(s0.take(n as int) =~= s0);
            assert(snaps_of(self.threads@) =~= tick_snaps(s0, now));
        }
        events
    }

    /// A bounded run of the poll loop with injected time: polls `count`
    /// times, first at `start` and then `tick` milliseconds apart, and
    /// returns every fire event of the run in order. This is the scheduler's
    /// run loop with the clock and the sleep factored out; a process that
    /// owns the real clock drives `poll_tick` directly, once per tick,
    /// instead.
    ///
    /// The returned events and the final entry state are pinned to
    /// `sim_events` and `sim_snaps` of the poll times alone, so a run is
    /// reproducible: identical registrations and identical timing inputs give
    /// identical `(index, time)` event sequences.
    pub fn run_ticks(&mut self, start: u64, tick: u64, count: usize) -> (events: Vec<FireEvent>)
        requires
            start + count * tick <= u64::MAX,
        ensures
            final(self).threads@.len() == old(self).threads@.len(),
            snaps_of(final(self).threads@) == sim_snaps(
                snaps_of(old(self).threads@),
                poll_times(start, tick, count as nat),
            ),
            event_pairs(events@) == sim_events(
                snaps_of(old(self).threads@),
                poll_times(start, tick, count as nat),
            ),
            final(self).failures@ == old(self).failures@ + failed_events(events@),
    {
        let ghost s0: Seq<EntrySnap> = snaps_of(self.threads@);
        let ghost f0: Seq<FireEvent> = self.failures@;
        let mut events: Vec<FireEvent> = Vec::new();
        let mut now: u64 = start;
        let mut k: usize = 0;
        proof {
            assert(poll_times(start, tick, 0nat) =~= Seq::<u64>::empty());
            assert(event_pairs(events@) =~= Seq::<(int, u64)>::empty());
            assert(self.failures@ =~= f0 + failed_events(events@));
        }
        while k < count
            invariant
                k <= count,
                start + count * tick <= u64::MAX,
                k < count ==> now == start + k * tick,
                self.threads@.len() == s0.len(),
                snaps_of(self.threads@) == sim_snaps(s0, poll_times(start, tick, k as nat)),
                event_pairs(events@) == sim_events(s0, poll_times(start, tick, k as nat)),
                self.failures@ == f0 + failed_events(events@),
            decreases count - k,
        {
            let ghost pre_events: Seq<FireEvent> = events@;
            let mut fired = self.poll_tick(now);
            let ghost new_events: Seq<FireEvent> = fired@;
            events.append(&mut fired);
            proof {
                assert(k * tick <= count * tick) by (nonlinear_arith)
                    requires
                        0 <= k <= count,
                        tick >= 0,
                ;
                lemma_poll_times_push(start, tick, k as nat);
                lemma_sim_push(s0, poll_times(start, tick, k as nat), now);
                lemma_event_pairs_add(pre_events, new_events);
                lemma_failed_events_add(pre_events, new_events);
                assert((f0 + failed_events(pre_events)) + failed_events(new_events)
                    =~= f0 + (failed_events(pre_events) + failed_events(new_events)));
            }
            k = k + 1;
            if k < count {
                proof {
                    assert(k * tick == (k - 1) * tick + tick) by (nonlinear_arith);
                    assert(k * tick <= count * tick) by (nonlinear_arith)
                        requires
                            0 <= k <= count,
                            tick >= 0,
                    ;
                }
                now = now + tick;
            }
        }
        events
    }
}

/// Builds a scheduler from a fixed task list: every task is registered at
/// time `now`, in the order given, and nothing has fired yet.
pub fn schedule_tasks<W: WorkUnit>(tasks: Vec<Task<W>>, now: u64) -> (sched: Scheduler<W>)
    ensures
        sched.threads@.len() == tasks@.len(),
        forall|i: int|
            0 <= i < tasks@.len() ==> (#[trigger] sched.threads@[i]) == entry_with(
                tasks@[i],
                now,
            ),
        sched.failures@.len() == 0,
{
    let ghost t0: Seq<Task<W>> = tasks@;
    let mut tasks = tasks;
    let mut sched = Scheduler::<W>::new();
    while tasks.len() > 0
        invariant
            sched.threads@.len() + tasks@.len() == t0.len(),
            tasks@ == t0.subrange(sched.threads@.len() as int, t0.len() as int),
            forall|i: int|
                0 <= i < sched.threads@.len() ==> (#[trigger] sched.threads@[i]) == entry_with(
                    t0[i],
                    now,
                ),
            sched.failures@.len() == 0,
        decreases tasks@.len(),
    {
        let ghost done: int = sched.threads@.len() as int;
        let task = tasks.remove(0);
        sched.add_thread(task, now);
        proof {
            assert(tasks@ =~= t0.subrange(done + 1, t0.len() as int));
        }
    }
    sched
}

} // verus!
