//! Laws of the task lifecycle, stated over the models that the registry,
//! the task decisions and the executor loop use in their contracts.

use crate::executor::{next_state, schedules, LoopState, RuntimeMessage};
use crate::registry::{
    is_first_set, lemma_index_of_unique, newest_first, placed, unique_ids, without, CancelManager,
};
use crate::task::{arrived, claimed, settled, RaceOutcome, TaskAction};
use vstd::prelude::*;

verus! {

/// Taking a slot out leaves no slot with that id.
proof fn lemma_without_absent(ids: Seq<u64>, id: u64)
    requires
        unique_ids(ids),
    ensures
        !without(ids, id).contains(id),
        unique_ids(without(ids, id)),
        without(ids, id).len() <= ids.len(),
{
    if ids.contains(id) {
        let i = choose|i: int| 0 <= i < ids.len() && ids[i] == id;
        lemma_index_of_unique(ids, i);
        let w = ids.remove(i);
        if w.contains(id) {
            let k = choose|k: int| 0 <= k < w.len() && w[k] == id;
            if k < i {
                assert(ids[k] == id);
            } else {
                assert(ids[k + 1] == id);
            }
        }
    }
}

/// Placing a new id leaves every other id's presence as it was, or takes a
/// reused slot's old id away.
proof fn lemma_placed_contains(ids: Seq<u64>, closed: Seq<bool>, id: u64, other: u64)
    requires
        closed.len() == ids.len(),
        other != id,
        !ids.contains(other),
    ensures
        !placed(ids, closed, id).contains(other),
{
    let p = placed(ids, closed, id);
    if p.contains(other) {
        let k = choose|k: int| 0 <= k < p.len() && p[k] == other;
        if exists|i: int| is_first_set(closed, i) {
            let i = choose|i: int| is_first_set(closed, i);
            if k != i {
                assert(ids[k] == other);
            }
        } else {
            if k < ids.len() {
                assert(ids[k] == other);
            }
        }
    }
}

/// Taking one slot out leaves every other id's presence as it was.
proof fn lemma_without_others(ids: Seq<u64>, id: u64, other: u64)
    requires
        unique_ids(ids),
        other != id,
    ensures
        without(ids, id).contains(other) == ids.contains(other),
{
    if ids.contains(id) {
        let i = choose|i: int| 0 <= i < ids.len() && ids[i] == id;
        lemma_index_of_unique(ids, i);
        let w = ids.remove(i);
        if ids.contains(other) {
            let k = choose|k: int| 0 <= k < ids.len() && ids[k] == other;
            if k < i {
                assert(w[k] == other);
            } else {
                assert(w[k - 1] == other);
            }
        }
        if w.contains(other) {
            let k = choose|k: int| 0 <= k < w.len() && w[k] == other;
            if k < i {
                assert(ids[k] == other);
            } else {
                assert(ids[k + 1] == other);
            }
        }
    }
}

/// Each spawn gets an id that no live slot holds, and a task ends in
/// exactly one way: its result is handed over only when it finished and its
/// slot was claimed, its panic is reported only when it panicked, and
/// otherwise nothing is dispatched. Once the slot has been claimed, a second
/// claim fails, and no later slot placement brings the id back. Cancelling
/// one task leaves every other task's slot as it was.
pub proof fn law_single_outcome<T>(
    m: CancelManager,
    race: RaceOutcome<T>,
    cancel_seen: bool,
    wants_result: bool,
    removed: bool,
    closed: Seq<bool>,
    id: u64,
    other: u64,
    fresh: u64,
)
    requires
        m.wf(),
        closed.len() == without(m.ids(), id).len(),
        fresh != id,
        other != id,
    ensures
        !m.ids().contains(m.next()),
        claimed(settled(race, cancel_seen, wants_result), removed) is Deliver ==> race is Finished && removed,
        settled(race, cancel_seen, wants_result) is ReportPanic ==> race is Panicked,
        race is CancelFired ==> settled(race, cancel_seen, wants_result) is Quiet,
        !without(m.ids(), id).contains(id),
        !placed(without(m.ids(), id), closed, fresh).contains(id),
        without(m.ids(), id).contains(other) == m.ids().contains(other),
{
    lemma_without_absent(m.ids(), id);
    lemma_without_others(m.ids(), id, other);
    lemma_placed_contains(without(m.ids(), id), closed, fresh, id);
}

/// Once a task is cancelled, its result handler never runs: the cancel took
/// its slot out, so the claim before any dispatch fails, whether the task
/// then finishes or panics (a panic is only reported).
pub proof fn law_cancel_suppresses_handler<T>(
    ids: Seq<u64>,
    id: u64,
    race: RaceOutcome<T>,
    cancel_seen: bool,
)
    requires
        unique_ids(ids),
    ensures
        claimed(settled(race, cancel_seen, true), without(ids, id).contains(id)) !is Deliver,
{
    lemma_without_absent(ids, id);
}

/// Cancelling a task whose slot was already claimed finds no slot: the
/// table stays as it is and no signal is sent.
pub proof fn law_cancel_after_delivery_is_noop(ids: Seq<u64>, id: u64)
    requires
        unique_ids(ids),
    ensures
        !without(ids, id).contains(id),
        without(without(ids, id), id) == without(ids, id),
{
    lemma_without_absent(ids, id);
}

/// Draining the registry when its object is destroyed sends the signal of
/// every task pending in it, and none of their results is delivered after:
/// the claim finds the table empty.
pub proof fn law_destroy_cancels_all<T>(
    ids: Seq<u64>,
    fired: Seq<u64>,
    id: u64,
    race: RaceOutcome<T>,
    cancel_seen: bool,
)
    requires
        ids.contains(id),
    ensures
        (fired + newest_first(ids)).contains(id),
        claimed(settled(race, cancel_seen, true), Seq::<u64>::empty().contains(id)) !is Deliver,
{
    let i = choose|i: int| 0 <= i < ids.len() && ids[i] == id;
    let k = ids.len() - 1 - i;
    assert(newest_first(ids)[k] == id);
    assert((fired + newest_first(ids))[fired.len() + k] == id);
}

/// A slot is reused only when its channel was seen closed, the table grows
/// by one at most, and it does not grow while any channel is closed.
pub proof fn law_reuse_only_closed(ids: Seq<u64>, closed: Seq<bool>, id: u64)
    requires
        closed.len() == ids.len(),
    ensures
        placed(ids, closed, id).len() <= ids.len() + 1,
        forall|i: int| 0 <= i < ids.len() && placed(ids, closed, id)[i] != ids[i] ==> closed[i],
        (exists|i: int| 0 <= i < closed.len() && closed[i]) ==> placed(ids, closed, id).len() == ids.len(),
{
    if exists|i: int| 0 <= i < closed.len() && closed[i] {
        let i = choose|i: int| 0 <= i < closed.len() && closed[i];
        lemma_some_first_set(closed, i);
    }
    if exists|i: int| is_first_set(closed, i) {
        let i = choose|i: int| is_first_set(closed, i);
        assert(forall|k: int| 0 <= k < ids.len() && k != i ==> placed(ids, closed, id)[k] == ids[k]);
    }
}

/// A set flag at `i` means that some flag is the first set one.
proof fn lemma_some_first_set(flags: Seq<bool>, i: int)
    requires
        0 <= i < flags.len(),
        flags[i],
    ensures
        exists|j: int| is_first_set(flags, j),
    decreases i,
{
    if forall|j: int| 0 <= j < i ==> !flags[j] {
        assert(is_first_set(flags, i));
    } else {
        let j = choose|j: int| 0 <= j < i && flags[j];
        lemma_some_first_set(flags, j);
    }
}

/// All flags set: every earlier task has finished.
pub open spec fn all_closed(n: nat) -> Seq<bool> {
    Seq::new(n, |i: int| true)
}

/// The table after `n` tasks were spawned one after another, each placed
/// once the one before it had finished.
pub open spec fn sequential(n: nat) -> Seq<u64>
    decreases n,
{
    if n == 0 {
        Seq::empty()
    } else {
        let before = sequential((n - 1) as nat);
        placed(before, all_closed(before.len()), (n - 1) as u64)
    }
}

/// Spawning tasks one after another, each after the previous one finished,
/// keeps the table at one slot at most.
pub proof fn law_sequential_spawns_bounded(n: nat)
    ensures
        sequential(n).len() <= 1,
    decreases n,
{
    if n > 0 {
        let before = sequential((n - 1) as nat);
        law_sequential_spawns_bounded((n - 1) as nat);
        law_reuse_only_closed(before, all_closed(before.len()), (n - 1) as u64);
        if before.len() == 1 {
            assert(all_closed(before.len())[0]);
        }
    }
}

/// A panicking task is reported, never delivered, and leaves the executor
/// running, so the next task submitted is still scheduled.
pub proof fn law_panic_contained<T>(
    message: String,
    cancel_seen: bool,
    wants_result: bool,
    next: RuntimeMessage<T>,
)
    ensures
        settled(RaceOutcome::<T>::Panicked(message), cancel_seen, wants_result) == TaskAction::<T>::ReportPanic(message),
        next_state(LoopState::Running, false) == LoopState::Running,
        schedules(next_state(LoopState::Running, false)),
{
}

/// A call that reaches the host thread after the object died is never run,
/// however it was queued.
pub proof fn law_dead_object_skipped<P>(payload: P)
    ensures
        arrived(false, payload) is None,
{
}

/// The loop state after a run of messages; each entry tells a stop from a
/// task.
pub open spec fn state_after(state: LoopState, stops: Seq<bool>) -> LoopState
    decreases stops.len(),
{
    if stops.len() == 0 {
        state
    } else {
        state_after(next_state(state, stops[0]), stops.drop_first())
    }
}

/// Stopped stays stopped.
proof fn lemma_stopped_stays(stops: Seq<bool>)
    ensures
        state_after(LoopState::Stopped, stops) == LoopState::Stopped,
    decreases stops.len(),
{
    if stops.len() > 0 {
        lemma_stopped_stays(stops.drop_first());
    }
}

/// Runs compose.
proof fn lemma_state_after_split(state: LoopState, stops: Seq<bool>, k: int)
    requires
        0 <= k <= stops.len(),
    ensures
        state_after(state, stops) == state_after(state_after(state, stops.take(k)), stops.skip(k)),
    decreases stops.len(),
{
    if stops.len() > 0 && k > 0 {
        lemma_state_after_split(next_state(state, stops[0]), stops.drop_first(), k - 1);
        assert(stops.take(k).drop_first() =~= stops.drop_first().take(k - 1));
        assert(stops.skip(k) =~= stops.drop_first().skip(k - 1));
    } else if k == 0 {
        assert(stops.skip(0) =~= stops);
    }
}

/// Once the stop signal has been taken, no later task is scheduled.
pub proof fn law_no_task_after_stop(state: LoopState, stops: Seq<bool>, k: int, j: int)
    requires
        0 <= k < j <= stops.len(),
        stops[k],
    ensures
        !schedules(state_after(state, stops.take(j))),
{
    let prefix = stops.take(j);
    lemma_state_after_split(state, prefix, k + 1);
    assert(prefix.take(k + 1) =~= stops.take(k + 1));
    lemma_state_after_split(state, stops.take(k + 1), k);
    assert(stops.take(k + 1).take(k) =~= stops.take(k));
    assert(stops.take(k + 1).skip(k) =~= seq![true]);
    let mid = state_after(state, stops.take(k));
    assert(state_after(mid, seq![true]) == state_after(next_state(mid, true), seq![true].drop_first()));
    assert(seq![true].drop_first() =~= Seq::<bool>::empty());
    lemma_stopped_stays(prefix.skip(k + 1));
}

} // verus!
