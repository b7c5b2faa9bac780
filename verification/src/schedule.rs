//! What holds of every schedule: the run loop replayed over the executor's
//! mathematical state, and the guarantees that follow for any sequence of
//! operations.

use vstd::prelude::*;
use crate::executor::{ExecutorView, Poll, Step};

verus! {

/// One operation on the executor's state.
pub enum Event {
    Spawn,
    Wake(usize),
    Next,
    Finish(Poll),
    AddSpawner,
    DropSpawner,
    AddWaker,
    DropWaker,
}

/// The state after one operation.
pub open spec fn apply(v: ExecutorView, event: Event) -> ExecutorView {
    match event {
        Event::Spawn => v.spawn(),
        Event::Wake(task) => v.wake(task),
        Event::Next => v.next(),
        Event::Finish(outcome) => v.finish(outcome),
        Event::AddSpawner => v.add_spawner(),
        Event::DropSpawner => v.drop_spawner(),
        Event::AddWaker => v.add_waker(),
        Event::DropWaker => v.drop_waker(),
    }
}

/// The state after a sequence of operations, first to last.
pub open spec fn replay(v: ExecutorView, events: Seq<Event>) -> ExecutorView
    decreases events.len(),
{
    if events.len() == 0 {
        v
    } else {
        apply(replay(v, events.drop_last()), events.last())
    }
}

/// One turn of the run loop: dequeue, and where a poll is due, the
/// computation reports `outcome` at once and touches no handle.
pub open spec fn turn(v: ExecutorView, outcome: Poll) -> ExecutorView {
    if v.step() is Poll {
        v.next().finish(outcome)
    } else {
        v.next()
    }
}

/// The state after one turn for each entry of `outcomes`.
pub open spec fn run(v: ExecutorView, outcomes: Seq<Poll>) -> ExecutorView
    decreases outcomes.len(),
{
    if outcomes.len() == 0 {
        v
    } else {
        run(turn(v, outcomes[0]), outcomes.drop_first())
    }
}

/// What the run loop was told to do in each of those turns.
pub open spec fn steps(v: ExecutorView, outcomes: Seq<Poll>) -> Seq<Step>
    decreases outcomes.len(),
{
    if outcomes.len() == 0 {
        Seq::empty()
    } else {
        seq![v.step()] + steps(turn(v, outcomes[0]), outcomes.drop_first())
    }
}

/// The state after `n` spawns in a row.
pub open spec fn spawn_all(v: ExecutorView, n: nat) -> ExecutorView
    decreases n,
{
    if n == 0 {
        v
    } else {
        spawn_all(v, (n - 1) as nat).spawn()
    }
}

/// The state after `task` was woken `k` times in a row.
pub open spec fn wake_times(v: ExecutorView, task: usize, k: nat) -> ExecutorView
    decreases k,
{
    if k == 0 {
        v
    } else {
        wake_times(v, task, (k - 1) as nat).wake(task)
    }
}

/// `n` polls that all report completion.
pub open spec fn all_ready(n: nat) -> Seq<Poll> {
    Seq::new(n, |i: int| Poll::Ready)
}

/// The ids `base, base + 1, ..` of `n` consecutive tasks.
pub open spec fn consecutive(base: nat, n: nat) -> Seq<usize> {
    Seq::new(n, |i: int| (base + i) as usize)
}

/// Every operation keeps the state well formed. In particular, in every
/// reachable state the task in flight has an empty slot, so no second poll of
/// its computation can start.
pub proof fn lemma_apply_keeps_wf(v: ExecutorView, event: Event)
    requires
        v.wf(),
    ensures
        apply(v, event).wf(),
{
}

/// Well-formedness survives any sequence of operations.
pub proof fn lemma_replay_keeps_wf(v: ExecutorView, events: Seq<Event>)
    requires
        v.wf(),
    ensures
        replay(v, events).wf(),
    decreases events.len(),
{
    if events.len() > 0 {
        lemma_replay_keeps_wf(v, events.drop_last());
        lemma_apply_keeps_wf(replay(v, events.drop_last()), events.last());
    }
}

/// A poll starts only from a filled slot and empties it; while it is in
/// flight the executor hands out no other poll, whatever is queued.
pub proof fn lemma_single_poll_in_flight(v: ExecutorView, task: usize)
    requires
        v.wf(),
    ensures
        v.step() == Step::Poll(task) ==> v.polling is None && v.slots[task as int]
            && v.next().polling == Some(task) && !v.next().slots[task as int],
        v.polling == Some(task) ==> !v.slots[task as int] && v.step() == Step::Busy && v.next()
            == v,
{
}

/// While a poll of `task` is in flight, no sequence of operations that does
/// not report its outcome starts another poll: the task stays in flight with
/// an empty slot, and every dequeue in between is refused.
pub proof fn lemma_no_second_poll(v: ExecutorView, task: usize, events: Seq<Event>)
    requires
        v.wf(),
        v.polling == Some(task),
        forall|i: int| 0 <= i < events.len() ==> !(#[trigger] events[i] is Finish),
    ensures
        replay(v, events).polling == Some(task),
        !replay(v, events).slots[task as int],
        replay(v, events).step() == Step::Busy,
    decreases events.len(),
{
    if events.len() > 0 {
        let front = events.drop_last();
        assert forall|i: int| 0 <= i < front.len() implies !(#[trigger] front[i] is Finish) by {
            assert(front[i] == events[i]);
        }
        lemma_no_second_poll(v, task, front);
        lemma_replay_keeps_wf(v, front);
        assert(!(events[events.len() - 1] is Finish));
    }
}

/// A finished task stays finished: whatever is done afterwards, waking it
/// any number of times included, its computation is never polled again.
pub proof fn lemma_finished_is_final(v: ExecutorView, task: usize, events: Seq<Event>)
    requires
        v.wf(),
        v.finished(task),
    ensures
        replay(v, events).finished(task),
        replay(v, events).step() != Step::Poll(task),
    decreases events.len(),
{
    if events.len() > 0 {
        lemma_finished_is_final(v, task, events.drop_last());
        lemma_replay_keeps_wf(v, events.drop_last());
    }
}

/// Waking never fails for want of anything but room or a known task, and
/// touches neither a slot nor the poll in flight.
pub proof fn lemma_wake_is_harmless(v: ExecutorView, task: usize)
    requires
        v.wf(),
    ensures
        v.wake(task).wf(),
        v.wake(task).slots == v.slots,
        v.wake(task).polling == v.polling,
        v.knows(task) && v.has_room() ==> v.wake(task).queue == v.queue.push(task),
{
}

/// Woken `k` times while its poll was in flight, a task whose poll reports
/// "pending" and whose next poll reports "ready" is polled exactly once more:
/// the first of the `k` entries polls it, the others are skipped.
pub proof fn lemma_redundant_wakes_absorbed(v: ExecutorView, task: usize, k: nat)
    requires
        v.wf(),
        v.polling is None,
        v.knows(task),
        v.slots[task as int],
        k >= 1,
        v.queue == Seq::new(k, |i: int| task),
    ensures
        steps(v, all_ready(k)) == seq![Step::Poll(task)] + Seq::new(
            (k - 1) as nat,
            |i: int| Step::Skip(task),
        ),
        run(v, all_ready(k)).finished(task),
        run(v, all_ready(k)).queue.len() == 0,
{
    let w = turn(v, Poll::Ready);
    assert(v.step() == Step::Poll(task));
    assert(w.queue =~= Seq::new((k - 1) as nat, |i: int| task));
    assert(all_ready(k).drop_first() =~= all_ready((k - 1) as nat));
    lemma_skips(w, task, (k - 1) as nat);
}

/// `k` wakes of a known task, with room for all of them, put `k` references
/// to it at the back of the queue and change nothing else.
pub proof fn lemma_wake_times(v: ExecutorView, task: usize, k: nat)
    requires
        v.wf(),
        v.knows(task),
        v.queue.len() + k <= v.capacity,
    ensures
        wake_times(v, task, k) == (ExecutorView {
            queue: v.queue + Seq::new(k, |i: int| task),
            ..v
        }),
    decreases k,
{
    if k == 0 {
        assert(v.queue + Seq::new(k, |i: int| task) =~= v.queue);
    } else {
        lemma_wake_times(v, task, (k - 1) as nat);
        let u = wake_times(v, task, (k - 1) as nat);
        assert(u.wake(task).queue =~= v.queue + Seq::new(k, |i: int| task));
    }
}

/// A task woken `k` times while its poll is in flight, with nothing else
/// queued, is polled no more than once again when that poll reports
/// "pending" and the next one "ready", and not at all when that poll reports
/// "ready": every other entry is skipped.
pub proof fn lemma_wakes_during_poll(v: ExecutorView, task: usize, k: nat)
    requires
        v.wf(),
        v.polling == Some(task),
        v.queue.len() == 0,
        1 <= k <= v.capacity,
    ensures
        steps(wake_times(v, task, k).finish(Poll::Pending), all_ready(k)) == seq![
            Step::Poll(task),
        ] + Seq::new((k - 1) as nat, |i: int| Step::Skip(task)),
        steps(wake_times(v, task, k).finish(Poll::Ready), all_ready(k)) == Seq::new(
            k,
            |i: int| Step::Skip(task),
        ),
        run(wake_times(v, task, k).finish(Poll::Pending), all_ready(k)).finished(task),
        run(wake_times(v, task, k).finish(Poll::Ready), all_ready(k)).finished(task),
{
    lemma_wake_times(v, task, k);
    let woken = wake_times(v, task, k);
    assert(woken.queue =~= Seq::new(k, |i: int| task));
    lemma_redundant_wakes_absorbed(woken.finish(Poll::Pending), task, k);
    lemma_skips(woken.finish(Poll::Ready), task, k);
}

/// A queue that holds nothing but references to a finished task is drained
/// without a poll.
pub proof fn lemma_skips(v: ExecutorView, task: usize, k: nat)
    requires
        v.wf(),
        v.finished(task),
        v.polling is None,
        v.queue == Seq::new(k, |i: int| task),
    ensures
        steps(v, all_ready(k)) == Seq::new(k, |i: int| Step::Skip(task)),
        run(v, all_ready(k)).finished(task),
        run(v, all_ready(k)).queue.len() == 0,
    decreases k,
{
    if k == 0 {
        assert(steps(v, all_ready(k)) =~= Seq::new(k, |i: int| Step::Skip(task)));
    } else {
        let w = turn(v, Poll::Ready);
        assert(v.queue[0] == task);
        assert(v.step() == Step::Skip(task));
        assert(w.queue =~= Seq::new((k - 1) as nat, |i: int| task));
        assert(all_ready(k).drop_first() =~= all_ready((k - 1) as nat));
        lemma_skips(w, task, (k - 1) as nat);
        assert(steps(v, all_ready(k)) =~= Seq::new(k, |i: int| Step::Skip(task)));
    }
}

/// `n` spawns in a row, with room for all of them, create the tasks
/// `slots.len(), slots.len() + 1, ..` with filled slots and queue them in
/// that order behind what was queued.
pub proof fn lemma_spawn_all(v: ExecutorView, n: nat)
    requires
        v.wf(),
        v.queue.len() + n <= v.capacity,
        v.slots.len() + n <= usize::MAX,
    ensures
        spawn_all(v, n).wf(),
        spawn_all(v, n).queue == v.queue + consecutive(v.slots.len(), n),
        spawn_all(v, n).slots == v.slots + Seq::new(n, |i: int| true),
        spawn_all(v, n).polling == v.polling,
        spawn_all(v, n).spawners == v.spawners,
        spawn_all(v, n).wakers == v.wakers,
        spawn_all(v, n).capacity == v.capacity,
    decreases n,
{
    if n == 0 {
        assert(v.queue + consecutive(v.slots.len(), n) =~= v.queue);
        assert(v.slots + Seq::new(n, |i: int| true) =~= v.slots);
    } else {
        let m = (n - 1) as nat;
        lemma_spawn_all(v, m);
        let u = spawn_all(v, m);
        assert(u.admits());
        assert(u.spawn().queue =~= v.queue + consecutive(v.slots.len(), n));
        assert(u.spawn().slots =~= v.slots + Seq::new(n, |i: int| true));
    }
}

/// The ready queue is served front first: where every queued task waits with
/// its computation in the slot and none is queued twice, and each completes
/// at its first poll, the tasks are polled in the order in which they stand
/// in the queue, and all of them are finished afterwards.
pub proof fn lemma_queue_order(v: ExecutorView)
    requires
        v.wf(),
        v.polling is None,
        forall|i: int| 0 <= i < v.queue.len() ==> v.slots[(#[trigger] v.queue[i]) as int],
        forall|i: int, j: int|
            0 <= i < j < v.queue.len() ==> (#[trigger] v.queue[i]) != (#[trigger] v.queue[j]),
    ensures
        steps(v, all_ready(v.queue.len())) == v.queue.map_values(|t: usize| Step::Poll(t)),
        run(v, all_ready(v.queue.len())).queue.len() == 0,
        run(v, all_ready(v.queue.len())).polling is None,
        forall|i: int|
            0 <= i < v.queue.len() ==> run(v, all_ready(v.queue.len())).finished(
                #[trigger] v.queue[i],
            ),
    decreases v.queue.len(),
{
    let n = v.queue.len();
    if n == 0 {
        assert(steps(v, all_ready(n)) =~= v.queue.map_values(|t: usize| Step::Poll(t)));
    } else {
        let m = (n - 1) as nat;
        let first = v.queue[0];
        let w = turn(v, Poll::Ready);
        assert(v.slots[first as int]);
        assert(v.step() == Step::Poll(first));
        assert(w.queue =~= v.queue.skip(1));
        assert(all_ready(n).drop_first() =~= all_ready(m));
        assert forall|i: int| 0 <= i < w.queue.len() implies w.slots[(#[trigger] w.queue[i]) as int] by {
            assert(w.queue[i] == v.queue[i + 1]);
            assert(v.queue[0] != v.queue[i + 1]);
        }
        assert forall|i: int, j: int| 0 <= i < j < w.queue.len() implies (#[trigger] w.queue[i])
            != (#[trigger] w.queue[j]) by {
            assert(w.queue[i] == v.queue[i + 1]);
            assert(w.queue[j] == v.queue[j + 1]);
        }
        lemma_queue_order(w);
        lemma_turns_keep_finished(w, first, all_ready(m));
        assert(steps(v, all_ready(n)) =~= v.queue.map_values(|t: usize| Step::Poll(t)));
        assert forall|i: int| 0 <= i < v.queue.len() implies run(v, all_ready(n)).finished(
            #[trigger] v.queue[i],
        ) by {
            if i > 0 {
                assert(w.queue[i - 1] == v.queue[i]);
            }
        }
    }
}

/// Turns of the run loop keep the state well formed and a finished task
/// finished.
pub proof fn lemma_turns_keep_finished(v: ExecutorView, task: usize, outcomes: Seq<Poll>)
    requires
        v.wf(),
        v.finished(task),
    ensures
        run(v, outcomes).wf(),
        run(v, outcomes).finished(task),
    decreases outcomes.len(),
{
    if outcomes.len() > 0 {
        lemma_turns_keep_finished(turn(v, outcomes[0]), task, outcomes.drop_first());
    }
}

/// The state after `n` spawns and one turn for each task that is queued
/// then, each complete at its first poll.
pub open spec fn served(v: ExecutorView, n: nat) -> ExecutorView {
    run(spawn_all(v, n), all_ready(v.queue.len() + n))
}

/// First in, first out: `n` computations spawned one after the other, each
/// complete at its first poll, are polled in the order in which they were
/// spawned, one poll each, after the tasks that were queued before them, and
/// all of them are finished afterwards. The tasks queued before wait with
/// their computations in their slots, none of them twice, and are complete at
/// their first poll too.
pub proof fn lemma_fifo_service(v: ExecutorView, n: nat)
    requires
        v.wf(),
        v.polling is None,
        v.queue.len() + n <= v.capacity,
        v.slots.len() + n <= usize::MAX,
        forall|i: int| 0 <= i < v.queue.len() ==> v.slots[(#[trigger] v.queue[i]) as int],
        forall|i: int, j: int|
            0 <= i < j < v.queue.len() ==> (#[trigger] v.queue[i]) != (#[trigger] v.queue[j]),
    ensures
        steps(spawn_all(v, n), all_ready(v.queue.len() + n)) == (v.queue + consecutive(
            v.slots.len(),
            n,
        )).map_values(|t: usize| Step::Poll(t)),
        forall|t: usize| v.slots.len() <= t < v.slots.len() + n ==> served(v, n).finished(t),
        served(v, n).queue.len() == 0,
{
    lemma_spawn_all(v, n);
    let u = spawn_all(v, n);
    let old_len = v.queue.len();
    assert(u.queue.len() == old_len + n);
    assert forall|i: int| 0 <= i < u.queue.len() implies u.slots[(#[trigger] u.queue[i]) as int] by {
        if i < old_len {
            assert(u.queue[i] == v.queue[i]);
        }
    }
    assert forall|i: int, j: int| 0 <= i < j < u.queue.len() implies (#[trigger] u.queue[i]) != (
    #[trigger] u.queue[j]) by {
        if j < old_len {
            assert(u.queue[i] == v.queue[i] && u.queue[j] == v.queue[j]);
        } else if i < old_len {
            assert(u.queue[i] == v.queue[i]);
            assert(v.queue[i] < v.slots.len());
        }
    }
    lemma_queue_order(u);
    assert forall|t: usize| v.slots.len() <= t < v.slots.len() + n implies served(
        v,
        n,
    ).finished(t) by {
        let i = old_len + (t - v.slots.len());
        assert(u.queue[i] == t);
    }
}

/// Once every spawner and every wake handle is gone, the run loop is over
/// after one turn for each entry that was still queued, whatever the polls
/// report: the queue is then empty and the next step is `Exit`.
pub proof fn lemma_shutdown(v: ExecutorView, outcomes: Seq<Poll>)
    requires
        v.wf(),
        v.polling is None,
        v.spawners == 0,
        v.wakers == 0,
        outcomes.len() == v.queue.len(),
    ensures
        run(v, outcomes).closed(),
        run(v, outcomes).step() == Step::Exit,
        forall|i: int| 0 <= i < outcomes.len() ==> steps(v, outcomes)[i] != Step::Exit,
        steps(v, outcomes).len() == outcomes.len(),
    decreases outcomes.len(),
{
    if outcomes.len() > 0 {
        let w = turn(v, outcomes[0]);
        lemma_shutdown(w, outcomes.drop_first());
        let rest = steps(w, outcomes.drop_first());
        assert forall|i: int| 0 <= i < outcomes.len() implies steps(v, outcomes)[i]
            != Step::Exit by {
            if i > 0 {
                assert(steps(v, outcomes)[i] == rest[i - 1]);
            }
        }
    }
}

} // verus!
