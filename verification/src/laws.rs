//! The scheduling laws, stated over the spec-level model and proved for
//! every input: threshold firing, no early firing, monotone readiness and the
//! tick-resolution latency bound, determinism and registration order of the
//! fire events, idempotence of a re-check within one tick, and the
//! monotonicity of the last-run bookkeeping.

use vstd::prelude::*;

use crate::scheduler::due_pairs;
use crate::scheduler::sim_events;
use crate::scheduler::sim_snaps;
use crate::scheduler::snap_due;
use crate::scheduler::tick_snap;
use crate::scheduler::EntrySnap;

verus! {

/// Due-threshold: an entry polled exactly one interval after its last run is
/// due and fires, its last-run time becomes `now`, and it is then due again
/// exactly at the times from which another full interval has elapsed — never
/// earlier.
pub proof fn lemma_due_threshold(entry: EntrySnap, now: u64)
    requires
        now == entry.last_run + entry.interval,
    ensures
        snap_due(entry, now),
        tick_snap(entry, now).last_run == now,
        tick_snap(entry, now).interval == entry.interval,
        forall|t: u64| snap_due(tick_snap(entry, now), t) <==> now + entry.interval <= t,
{
}

/// No early fire: strictly before `last_run + interval` an entry is not due,
/// and a poll leaves it exactly as it was.
pub proof fn lemma_no_early_fire(entry: EntrySnap, now: u64)
    requires
        now < entry.last_run + entry.interval,
    ensures
        !snap_due(entry, now),
        tick_snap(entry, now) == entry,
{
}

/// Readiness is monotone in time: an entry that is due and has not yet fired
/// stays due at every later poll, so a missed tick only delays a firing, it
/// never loses one.
pub proof fn lemma_due_is_monotone(entry: EntrySnap, earlier: u64, later: u64)
    requires
        snap_due(entry, earlier),
        earlier <= later,
    ensures
        snap_due(entry, later),
{
}

/// Tick floor: under polls spaced `tick` apart, a firing lags its nominal
/// due time `last_run + interval` by at least zero and by less than one tick
/// period — if the entry was not yet due at one poll and is due at the next,
/// that next poll is within one tick of the nominal due time.
pub proof fn lemma_tick_floor(entry: EntrySnap, prev: u64, next: u64, tick: u64)
    requires
        !snap_due(entry, prev),
        next == prev + tick,
        snap_due(entry, next),
    ensures
        entry.last_run + entry.interval <= next,
        next < entry.last_run + entry.interval + tick,
{
}

/// Order determinism: the fire events of a run are a function of the entry
/// snapshots (intervals and last-run times) and the poll timestamps alone.
/// Two schedulers in the same state, polled at the same times, emit the same
/// `(index, time)` event sequence and end in the same state, whatever their
/// work units do or return.
pub proof fn lemma_order_determinism(a: Seq<EntrySnap>, b: Seq<EntrySnap>, times: Seq<u64>)
    requires
        a == b,
    ensures
        sim_events(a, times) == sim_events(b, times),
        sim_snaps(a, times) == sim_snaps(b, times),
{
}

/// Within one tick, fire events come in registration order: the indices of
/// `due_pairs` are strictly increasing, every emitted pair carries the
/// tick's shared timestamp and the index of an entry that is due at it, and
/// every due entry's index is emitted.
pub proof fn lemma_tick_order(entries: Seq<EntrySnap>, now: u64)
    ensures
        forall|p: int, q: int|
            0 <= p < q < due_pairs(entries, now).len() ==> (#[trigger] due_pairs(
                entries,
                now,
            )[p]).0 < (#[trigger] due_pairs(entries, now)[q]).0,
        forall|p: int|
            0 <= p < due_pairs(entries, now).len() ==> {
                &&& 0 <= (#[trigger] due_pairs(entries, now)[p]).0 < entries.len()
                &&& due_pairs(entries, now)[p].1 == now
                &&& snap_due(entries[due_pairs(entries, now)[p].0], now)
            },
        forall|i: int|
            0 <= i < entries.len() && snap_due(#[trigger] entries[i], now) ==> due_pairs(
                entries,
                now,
            ).contains((i, now)),
    decreases entries.len(),
{
    if entries.len() > 0 {
        let rest = due_pairs(entries.drop_last(), now);
        let all = due_pairs(entries, now);
        lemma_tick_order(entries.drop_last(), now);
        assert forall|j: int| 0 <= j < rest.len() implies all[j] == rest[j] by {};
        assert forall|i: int|
            0 <= i < entries.len() && snap_due(#[trigger] entries[i], now) implies all.contains(
            (i, now),
        ) by {
            if i < entries.len() - 1 {
                assert(entries.drop_last()[i] == entries[i]);
                assert(rest.contains((i, now)));
                let j = choose|j: int| 0 <= j < rest.len() && rest[j] == (i, now);
                assert(all[j] == (i, now));
            } else {
                assert(entries.last() == entries[i]);
                assert(all[rest.len() as int] == (i, now));
            }
        }
    }
}

/// Idempotent re-check: for a positive interval, checking an entry twice at
/// the same timestamp fires at most once — after one poll at `now` the entry
/// is no longer due at `now`, so a second check at `now` is a no-op. (A zero
/// interval means "run every tick", and such a task is due again on a
/// genuine later tick; within one poll every entry is checked once.)
pub proof fn lemma_idempotent_recheck(entry: EntrySnap, now: u64)
    requires
        entry.interval > 0,
    ensures
        !snap_due(tick_snap(entry, now), now),
        tick_snap(tick_snap(entry, now), now) == tick_snap(entry, now),
{
}

/// The bookkeeping invariant of a runtime entry: a poll never moves a
/// last-run time backwards, since an entry only fires when `now` has reached
/// at least `last_run + interval`.
pub proof fn lemma_last_run_monotone(entry: EntrySnap, now: u64)
    ensures
        tick_snap(entry, now).last_run >= entry.last_run,
{
}

} // verus!
