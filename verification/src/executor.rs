//! The scheduling core of a single-threaded cooperative executor.
//!
//! The core holds the ready queue, one computation slot per task and the
//! number of live producer handles. It decides; it never polls. The run loop
//! asks [`Executor::next_step`] what to do, polls the computation that it is
//! handed, and gives it back with [`Executor::finish_poll`] if it is still
//! pending.

use vstd::prelude::*;
use vstd::pervasive::VecAdditionalExecFns;
use std::collections::VecDeque;

verus! {

/// Admission-control limit of the ready queue.
pub const MAX_QUEUED_TASKS: usize = 10_000;

/// What one poll of a computation reported.
#[derive(Clone, Copy, Debug, PartialEq, Eq, Structural)]
pub enum Poll {
    Ready,
    Pending,
}

/// What the run loop has to do next.
#[derive(Clone, Copy, Debug, PartialEq, Eq, Structural)]
pub enum Step {
    /// The task was dequeued and its computation taken out of the slot: poll
    /// it once, then call `finish_poll`.
    Poll(usize),
    /// The task was dequeued with an empty slot (a redundant wake): nothing
    /// to do.
    Skip(usize),
    /// The queue is empty but producers remain: wait for one of them.
    Park,
    /// The queue is empty and every producer is gone: leave the loop.
    Exit,
    /// A poll is still in flight: nothing was dequeued.
    Busy,
}

/// Why an enqueue was refused.
#[derive(Clone, Copy, Debug, PartialEq, Eq, Structural)]
pub enum SchedulerError {
    /// The ready queue already holds as many entries as it admits.
    Saturated,
    /// The handle names a task that this executor never created.
    UnknownTask,
}

/// The mathematical state of an executor.
pub struct ExecutorView {
    /// The ready queue, front first.
    pub queue: Seq<usize>,
    /// For each task, whether its slot holds the computation.
    pub slots: Seq<bool>,
    /// The task whose computation the run loop holds right now.
    pub polling: Option<usize>,
    /// Live spawner handles.
    pub spawners: nat,
    /// Live wake handles outside the queue.
    pub wakers: nat,
    /// How many entries the queue admits.
    pub capacity: nat,
}

impl ExecutorView {
    /// The state right after creation: one spawner, nothing else.
    pub open spec fn initial(capacity: nat) -> ExecutorView {
        ExecutorView {
            queue: Seq::empty(),
            slots: Seq::empty(),
            polling: None,
            spawners: 1,
            wakers: 0,
            capacity,
        }
    }

    /// What holds of every state that the operations can reach: the queue
    /// stays within its capacity and names known tasks only, and the task in
    /// flight, if there is one, has an empty slot.
    pub open spec fn wf(self) -> bool {
        &&& self.queue.len() <= self.capacity
        &&& self.slots.len() <= usize::MAX
        &&& forall|i: int| 0 <= i < self.queue.len() ==> (#[trigger] self.queue[i]) < self.slots.len()
        &&& match self.polling {
            Some(t) => t < self.slots.len() && !self.slots[t as int],
            None => true,
        }
    }

    /// Whether the queue admits one more entry.
    pub open spec fn has_room(self) -> bool {
        self.queue.len() < self.capacity
    }

    /// Whether `task` was created by a spawn on this executor.
    pub open spec fn knows(self, task: usize) -> bool {
        task < self.slots.len()
    }

    /// The task's computation ran to completion: the slot is empty and no
    /// poll of it is in flight.
    pub open spec fn finished(self, task: usize) -> bool {
        &&& self.knows(task)
        &&& !self.slots[task as int]
        &&& self.polling != Some(task)
    }

    /// No producer is left and nothing is queued or in flight.
    pub open spec fn closed(self) -> bool {
        &&& self.queue.len() == 0
        &&& self.spawners == 0
        &&& self.wakers == 0
        &&& self.polling is None
    }

    /// Whether a new task can be admitted: the queue has room and a task id
    /// is left.
    pub open spec fn admits(self) -> bool {
        self.has_room() && self.slots.len() < usize::MAX
    }

    /// A new task with a filled slot joins the back of the queue.
    pub open spec fn spawn(self) -> ExecutorView {
        if self.admits() {
            ExecutorView {
                queue: self.queue.push(self.slots.len() as usize),
                slots: self.slots.push(true),
                ..self
            }
        } else {
            self
        }
    }

    /// One more reference to `task` joins the back of the queue.
    pub open spec fn wake(self, task: usize) -> ExecutorView {
        if self.knows(task) && self.has_room() {
            ExecutorView { queue: self.queue.push(task), ..self }
        } else {
            self
        }
    }

    /// What `next_step` answers in this state.
    pub open spec fn step(self) -> Step {
        if self.polling is Some {
            Step::Busy
        } else if self.queue.len() == 0 {
            if self.closed() {
                Step::Exit
            } else {
                Step::Park
            }
        } else if self.slots[self.queue[0] as int] {
            Step::Poll(self.queue[0])
        } else {
            Step::Skip(self.queue[0])
        }
    }

    /// The state that `next_step` leaves behind.
    pub open spec fn next(self) -> ExecutorView {
        if self.polling is Some || self.queue.len() == 0 {
            self
        } else if self.slots[self.queue[0] as int] {
            ExecutorView {
                queue: self.queue.subrange(1, self.queue.len() as int),
                slots: self.slots.update(self.queue[0] as int, false),
                polling: Some(self.queue[0]),
                ..self
            }
        } else {
            ExecutorView { queue: self.queue.subrange(1, self.queue.len() as int), ..self }
        }
    }

    /// The state after the poll in flight reported `outcome`.
    pub open spec fn finish(self, outcome: Poll) -> ExecutorView {
        match self.polling {
            Some(t) => ExecutorView {
                slots: if outcome == Poll::Pending {
                    self.slots.update(t as int, true)
                } else {
                    self.slots
                },
                polling: None,
                ..self
            },
            None => self,
        }
    }

    /// One more spawner handle, as long as the count fits.
    pub open spec fn add_spawner(self) -> ExecutorView {
        if self.spawners < usize::MAX {
            ExecutorView { spawners: self.spawners + 1, ..self }
        } else {
            self
        }
    }

    /// One spawner handle less.
    pub open spec fn drop_spawner(self) -> ExecutorView {
        if self.spawners > 0 {
            ExecutorView { spawners: (self.spawners - 1) as nat, ..self }
        } else {
            self
        }
    }

    /// One more wake handle, as long as the count fits.
    pub open spec fn add_waker(self) -> ExecutorView {
        if self.wakers < usize::MAX {
            ExecutorView { wakers: self.wakers + 1, ..self }
        } else {
            self
        }
    }

    /// One wake handle less.
    pub open spec fn drop_waker(self) -> ExecutorView {
        if self.wakers > 0 {
            ExecutorView { wakers: (self.wakers - 1) as nat, ..self }
        } else {
            self
        }
    }
}

/// The consumer side: the ready queue and the task slots. `C` is the type of
/// the computations.
pub struct Executor<C> {
    ready_queue: VecDeque<usize>,
    slots: Vec<Option<C>>,
    polling: Option<usize>,
    spawners: usize,
    wakers: usize,
    capacity: usize,
}

/// The producer side: a handle that admits new tasks.
pub struct Spawner {
    token: (),
}

/// A wake handle: a reference to one task that can put it back on the ready
/// queue.
pub struct Task {
    id: usize,
}

impl<C> View for Executor<C> {
    type V = ExecutorView;

    closed spec fn view(&self) -> ExecutorView {
        ExecutorView {
            queue: self.ready_queue@,
            slots: Seq::new(self.slots@.len(), |i: int| self.slots@[i] is Some),
            polling: self.polling,
            spawners: self.spawners as nat,
            wakers: self.wakers as nat,
            capacity: self.capacity as nat,
        }
    }
}

/// What a poll reported, told by what is handed back: a computation that is
/// still pending comes back, a finished one does not.
pub open spec fn outcome_of<C>(pending: Option<C>) -> Poll {
    if pending is Some {
        Poll::Pending
    } else {
        Poll::Ready
    }
}

/// Creates an executor and the first spawner of its queue.
pub fn new_executor_and_spawner<C>() -> (r: (Executor<C>, Spawner))
    ensures
        r.0.wf(),
        r.0@ == ExecutorView::initial(MAX_QUEUED_TASKS as nat),
        r.0.computations() == Seq::<Option<C>>::empty(),
{
    let executor = Executor {
        ready_queue: VecDeque::new(),
        slots: Vec::new(),
        polling: None,
        spawners: 1,
        wakers: 0,
        capacity: MAX_QUEUED_TASKS,
    };
    assert(executor@.queue =~= Seq::<usize>::empty());
    assert(executor@.slots =~= Seq::<bool>::empty());
    (executor, Spawner { token: () })
}

impl<C> Executor<C> {
    /// What each slot holds: the computation of a task that waits for its
    /// next poll, or nothing.
    pub closed spec fn computations(&self) -> Seq<Option<C>> {
        self.slots@
    }

    /// The invariant that every operation keeps: the state is well formed,
    /// and it tells of each slot whether a computation is in it.
    pub open spec fn wf(&self) -> bool {
        &&& self@.wf()
        &&& self@.spawners <= usize::MAX
        &&& self@.wakers <= usize::MAX
        &&& self@.capacity <= usize::MAX
        &&& self@.slots.len() == self.computations().len()
        &&& forall|i: int|
            0 <= i < self@.slots.len() ==> self@.slots[i] == (#[trigger] self.computations()[i]
                is Some)
    }

    /// Puts one more reference to `task` at the back of the ready queue.
    pub fn wake(&mut self, task: usize) -> (r: Result<(), SchedulerError>)
        requires
            old(self).wf(),
        ensures
            final(self).wf(),
            final(self)@ == old(self)@.wake(task),
            final(self).computations() == old(self).computations(),
            r == (if !old(self)@.knows(task) {
                Err::<(), SchedulerError>(SchedulerError::UnknownTask)
            } else if !old(self)@.has_room() {
                Err::<(), SchedulerError>(SchedulerError::Saturated)
            } else {
                Ok::<(), SchedulerError>(())
            }),
    {
        if task >= self.slots.len() {
            return Err(SchedulerError::UnknownTask);
        }
        if self.ready_queue.len() >= self.capacity {
            return Err(SchedulerError::Saturated);
        }
        self.ready_queue.push_back(task);
        Ok(())
    }

    /// Dequeues the next ready task and says what the run loop has to do.
    /// Where that is a poll, the computation is taken out of the task's slot
    /// and handed over.
    pub fn next_step(&mut self) -> (r: (Step, Option<C>))
        requires
            old(self).wf(),
        ensures
            final(self).wf(),
            r.0 == old(self)@.step(),
            final(self)@ == old(self)@.next(),
            match r.0 {
                Step::Poll(task) => {
                    &&& r.1 == old(self).computations()[task as int]
                    &&& final(self).computations() == old(self).computations().update(
                        task as int,
                        None,
                    )
                },
                _ => r.1 is None && final(self).computations() == old(self).computations(),
            },
    {
        if self.polling.is_some() {
            return (Step::Busy, None);
        }
        match self.ready_queue.pop_front() {
            None => {
                if self.spawners == 0 && self.wakers == 0 {
                    (Step::Exit, None)
                } else {
                    (Step::Park, None)
                }
            },
            Some(task) => {
                assert(old(self)@.queue[0] == task);
                let mut taken: Option<C> = None;
                self.slots.set_and_swap(task, &mut taken);
                match taken {
                    Some(computation) => {
                        self.polling = Some(task);
                        assert(self@.slots =~= old(self)@.slots.update(task as int, false));
                        (Step::Poll(task), Some(computation))
                    },
                    None => {
                        assert(self.slots@ =~= old(self).slots@);
                        assert(self@.slots =~= old(self)@.slots);
                        (Step::Skip(task), None)
                    },
                }
            },
        }
    }

    /// Ends the poll in flight. A computation that is still pending is handed
    /// back and goes into its slot again; after a finished one the slot stays
    /// empty. Returns the task that was in flight, or `None` (and changes
    /// nothing) if none was.
    pub fn finish_poll(&mut self, pending: Option<C>) -> (r: Option<usize>)
        requires
            old(self).wf(),
        ensures
            final(self).wf(),
            r == old(self)@.polling,
            final(self)@ == old(self)@.finish(outcome_of(pending)),
            final(self).computations() == (match old(self)@.polling {
                Some(task) => old(self).computations().update(task as int, pending),
                None => old(self).computations(),
            }),
    {
        match self.polling {
            None => None,
            Some(task) => {
                assert(self.slots@[task as int] is None);
                self.slots.set(task, pending);
                self.polling = None;
                assert(self@.slots =~= old(self)@.finish(outcome_of(pending)).slots);
                Some(task)
            },
        }
    }

    /// A new wake handle for the task in flight, as a computation takes one
    /// out of its context to be woken later. `None`, and nothing changed, if
    /// no poll is in flight or no further handle can be counted.
    pub fn waker(&mut self) -> (r: Option<Task>)
        requires
            old(self).wf(),
        ensures
            final(self).wf(),
            final(self).computations() == old(self).computations(),
            match r {
                Some(task) => {
                    &&& old(self)@.polling == Some(task.id())
                    &&& old(self)@.wakers < usize::MAX
                    &&& final(self)@ == old(self)@.add_waker()
                },
                None => {
                    &&& (old(self)@.polling is None || old(self)@.wakers >= usize::MAX)
                    &&& final(self)@ == old(self)@
                },
            },
    {
        match self.polling {
            None => None,
            Some(id) => {
                if self.wakers == usize::MAX {
                    None
                } else {
                    self.wakers = self.wakers + 1;
                    Some(Task { id })
                }
            },
        }
    }

    /// Whether the loop is over: nothing queued or in flight, no producer
    /// left.
    pub fn is_closed(&self) -> (r: bool)
        requires
            self.wf(),
        ensures
            r == self@.closed(),
    {
        self.ready_queue.len() == 0 && self.spawners == 0 && self.wakers == 0
            && self.polling.is_none()
    }

    /// Number of entries in the ready queue.
    pub fn queued(&self) -> (r: usize)
        requires
            self.wf(),
        ensures
            r == self@.queue.len(),
    {
        self.ready_queue.len()
    }

    /// Number of tasks created so far.
    pub fn task_count(&self) -> (r: usize)
        requires
            self.wf(),
        ensures
            r == self@.slots.len(),
    {
        self.slots.len()
    }

    /// Whether the slot of `task` holds its computation.
    pub fn has_computation(&self, task: usize) -> (r: bool)
        requires
            self.wf(),
        ensures
            r == (self@.knows(task) && self@.slots[task as int]),
    {
        task < self.slots.len() && self.slots[task].is_some()
    }

    /// The task whose computation the run loop holds right now.
    pub fn polling(&self) -> (r: Option<usize>)
        ensures
            r == self@.polling,
    {
        self.polling
    }

    /// Number of live spawner handles.
    pub fn spawner_count(&self) -> (r: usize)
        ensures
            r == self@.spawners,
    {
        self.spawners
    }

    /// Number of live wake handles outside the queue.
    pub fn waker_count(&self) -> (r: usize)
        ensures
            r == self@.wakers,
    {
        self.wakers
    }

    /// How many entries the ready queue admits.
    pub fn capacity(&self) -> (r: usize)
        ensures
            r == self@.capacity,
    {
        self.capacity
    }
}

impl Spawner {
    /// Admits a new computation: a task is created with the computation in
    /// its slot and queued, and its id returned. A full queue (or an
    /// exhausted id space) refuses it and nothing changes.
    pub fn spawn<C>(&self, executor: &mut Executor<C>, computation: C) -> (r: Result<
        usize,
        SchedulerError,
    >)
        requires
            old(executor).wf(),
        ensures
            final(executor).wf(),
            final(executor)@ == old(executor)@.spawn(),
            r == (if old(executor)@.admits() {
                Ok::<usize, SchedulerError>(old(executor)@.slots.len() as usize)
            } else {
                Err::<usize, SchedulerError>(SchedulerError::Saturated)
            }),
            final(executor).computations() == (if old(executor)@.admits() {
                old(executor).computations().push(Some(computation))
            } else {
                old(executor).computations()
            }),
    {
        if executor.ready_queue.len() >= executor.capacity {
            return Err(SchedulerError::Saturated);
        }
        let id: usize = executor.slots.len();
        if id == usize::MAX {
            return Err(SchedulerError::Saturated);
        }
        executor.slots.push(Some(computation));
        executor.ready_queue.push_back(id);
        let n: usize = executor.slots.len();
        assert(n == id + 1);
        assert(executor@.slots =~= old(executor)@.slots.push(true));
        Ok(id)
    }

    /// Another handle on the same queue. `None`, and nothing changed, if no
    /// further handle can be counted.
    pub fn duplicate<C>(&self, executor: &mut Executor<C>) -> (r: Option<Spawner>)
        requires
            old(executor).wf(),
        ensures
            final(executor).wf(),
            final(executor)@ == old(executor)@.add_spawner(),
            final(executor).computations() == old(executor).computations(),
            r is Some <==> old(executor)@.spawners < usize::MAX,
    {
        if executor.spawners == usize::MAX {
            None
        } else {
            executor.spawners = executor.spawners + 1;
            Some(Spawner { token: () })
        }
    }

    /// Gives the handle up.
    pub fn close<C>(self, executor: &mut Executor<C>)
        requires
            old(executor).wf(),
        ensures
            final(executor).wf(),
            final(executor)@ == old(executor)@.drop_spawner(),
            final(executor).computations() == old(executor).computations(),
    {
        if executor.spawners > 0 {
            executor.spawners = executor.spawners - 1;
        }
    }
}

impl Task {
    /// The task that the handle refers to.
    pub closed spec fn id(&self) -> usize {
        self.id
    }

    /// The task that the handle refers to.
    pub fn task_id(&self) -> (r: usize)
        ensures
            r == self.id(),
    {
        self.id
    }

    /// Wakes the task and keeps the handle.
    pub fn wake_by_ref<C>(&self, executor: &mut Executor<C>) -> (r: Result<(), SchedulerError>)
        requires
            old(executor).wf(),
        ensures
            final(executor).wf(),
            final(executor)@ == old(executor)@.wake(self.id()),
            final(executor).computations() == old(executor).computations(),
            r == (if !old(executor)@.knows(self.id()) {
                Err::<(), SchedulerError>(SchedulerError::UnknownTask)
            } else if !old(executor)@.has_room() {
                Err::<(), SchedulerError>(SchedulerError::Saturated)
            } else {
                Ok::<(), SchedulerError>(())
            }),
    {
        executor.wake(self.id)
    }

    /// Wakes the task and gives the handle up, whether or not the queue took
    /// the entry.
    pub fn wake<C>(self, executor: &mut Executor<C>) -> (r: Result<(), SchedulerError>)
        requires
            old(executor).wf(),
        ensures
            final(executor).wf(),
            final(executor)@ == old(executor)@.wake(self.id()).drop_waker(),
            final(executor).computations() == old(executor).computations(),
            r == (if !old(executor)@.knows(self.id()) {
                Err::<(), SchedulerError>(SchedulerError::UnknownTask)
            } else if !old(executor)@.has_room() {
                Err::<(), SchedulerError>(SchedulerError::Saturated)
            } else {
                Ok::<(), SchedulerError>(())
            }),
    {
        let r = executor.wake(self.id);
        if executor.wakers > 0 {
            executor.wakers = executor.wakers - 1;
        }
        r
    }

    /// Another handle on the same task. `None`, and nothing changed, if no
    /// further handle can be counted.
    pub fn duplicate<C>(&self, executor: &mut Executor<C>) -> (r: Option<Task>)
        requires
            old(executor).wf(),
        ensures
            final(executor).wf(),
            final(executor)@ == old(executor)@.add_waker(),
            final(executor).computations() == old(executor).computations(),
            match r {
                Some(task) => task.id() == self.id() && old(executor)@.wakers < usize::MAX,
                None => old(executor)@.wakers >= usize::MAX,
            },
    {
        if executor.wakers == usize::MAX {
            None
        } else {
            executor.wakers = executor.wakers + 1;
            Some(Task { id: self.id })
        }
    }

    /// Gives the handle up without waking.
    pub fn release<C>(self, executor: &mut Executor<C>)
        requires
            old(executor).wf(),
        ensures
            final(executor).wf(),
            final(executor)@ == old(executor)@.drop_waker(),
            final(executor).computations() == old(executor).computations(),
    {
        if executor.wakers > 0 {
            executor.wakers = executor.wakers - 1;
        }
    }
}

} // verus!
