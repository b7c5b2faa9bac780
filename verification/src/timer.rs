//! A timer as a computation: pending until it has fired, ready ever after.
//!
//! The state is shared between the side that polls and the side that waits
//! for the duration to pass. Each side holds the lock for one call of
//! [`SharedState::poll`] or [`SharedState::fire`], so that storing a wake
//! handle and completing can never interleave.

use vstd::prelude::*;
use std::time::Duration;
use crate::executor::Poll;

verus! {

/// What the polling side and the waiting side share. `W` is the type of the
/// wake handles.
pub struct SharedState<W> {
    completed: bool,
    waker: Option<W>,
}

/// The mathematical state of a timer.
pub struct TimerView<W> {
    /// Whether the timer has fired.
    pub completed: bool,
    /// The wake handle that is stored.
    pub waker: Option<W>,
}

/// What one poll of a timer gives back.
pub struct Polled<W> {
    /// Whether the timer is done.
    pub outcome: Poll,
    /// The handle that this poll has no use for: the one passed in if the
    /// timer is done, else the one that was stored before, if any.
    pub unused: Option<W>,
}

/// One operation on a timer.
pub enum TimerEvent<W> {
    Poll(W),
    Fire,
}

impl<W> TimerView<W> {
    /// A timer that has not fired and was never polled.
    pub open spec fn initial() -> TimerView<W> {
        TimerView { completed: false, waker: None }
    }

    /// A completed timer holds no wake handle.
    pub open spec fn wf(self) -> bool {
        self.completed ==> self.waker is None
    }

    /// What a poll reports in this state.
    pub open spec fn outcome(self) -> Poll {
        if self.completed {
            Poll::Ready
        } else {
            Poll::Pending
        }
    }

    /// The state after a poll with `waker`.
    pub open spec fn polled(self, waker: W) -> TimerView<W> {
        if self.completed {
            self
        } else {
            TimerView { completed: false, waker: Some(waker) }
        }
    }

    /// The handle that a poll with `waker` has no use for.
    pub open spec fn unused(self, waker: W) -> Option<W> {
        if self.completed {
            Some(waker)
        } else {
            self.waker
        }
    }

    /// The wake handle that a firing in this state hands out to be invoked.
    pub open spec fn handed_out(self) -> Option<W> {
        self.waker
    }

    /// The state after the duration has passed.
    pub open spec fn fired(self) -> TimerView<W> {
        TimerView { completed: true, waker: None }
    }

    /// The state after one operation.
    pub open spec fn apply(self, event: TimerEvent<W>) -> TimerView<W> {
        match event {
            TimerEvent::Poll(waker) => self.polled(waker),
            TimerEvent::Fire => self.fired(),
        }
    }

    /// The state after a sequence of operations, first to last.
    pub open spec fn replay(self, events: Seq<TimerEvent<W>>) -> TimerView<W>
        decreases events.len(),
    {
        if events.len() == 0 {
            self
        } else {
            self.replay(events.drop_last()).apply(events.last())
        }
    }
}

impl<W> View for SharedState<W> {
    type V = TimerView<W>;

    closed spec fn view(&self) -> TimerView<W> {
        TimerView { completed: self.completed, waker: self.waker }
    }
}

impl<W> SharedState<W> {
    /// The state of a timer that has not fired and was never polled.
    pub fn new() -> (r: Self)
        ensures
            r@ == TimerView::<W>::initial(),
    {
        SharedState { completed: false, waker: None }
    }

    /// One poll. A completed timer reports "ready" and keeps nothing. One
    /// that has not fired stores `waker` in place of whatever was stored,
    /// and reports "pending".
    pub fn poll(&mut self, waker: W) -> (r: Polled<W>)
        ensures
            final(self)@ == old(self)@.polled(waker),
            r.outcome == old(self)@.outcome(),
            r.unused == old(self)@.unused(waker),
    {
        if self.completed {
            Polled { outcome: Poll::Ready, unused: Some(waker) }
        } else {
            let mut stored = Some(waker);
            std::mem::swap(&mut self.waker, &mut stored);
            Polled { outcome: Poll::Pending, unused: stored }
        }
    }

    /// The duration has passed: the timer is completed for good, and the
    /// stored wake handle, if any, is handed out to be invoked.
    pub fn fire(&mut self) -> (r: Option<W>)
        ensures
            final(self)@ == old(self)@.fired(),
            r == old(self)@.handed_out(),
    {
        self.completed = true;
        self.waker.take()
    }

    /// Whether the timer has fired.
    pub fn is_completed(&self) -> (r: bool)
        ensures
            r == self@.completed,
    {
        self.completed
    }

    /// Whether a wake handle is stored.
    pub fn has_waker(&self) -> (r: bool)
        ensures
            r == (self@.waker is Some),
    {
        self.waker.is_some()
    }
}

/// A timer reports "ready" exactly if it has fired: after any sequence of
/// polls and firings on a new timer, the next poll is "ready" if one of them
/// was a firing, and "pending" if none was.
pub proof fn lemma_pending_until_fired<W>(events: Seq<TimerEvent<W>>)
    ensures
        TimerView::<W>::initial().replay(events).wf(),
        TimerView::<W>::initial().replay(events).outcome() == Poll::Ready <==> exists|i: int|
            0 <= i < events.len() && #[trigger] events[i] is Fire,
    decreases events.len(),
{
    if events.len() > 0 {
        let front = events.drop_last();
        lemma_pending_until_fired(front);
        if events.last() is Fire {
            assert(events[events.len() - 1] is Fire);
        } else if exists|i: int| 0 <= i < front.len() && #[trigger] front[i] is Fire {
            let i = choose|i: int| 0 <= i < front.len() && #[trigger] front[i] is Fire;
            assert(events[i] is Fire);
        } else {
            assert forall|i: int| 0 <= i < events.len() implies !(#[trigger] events[i] is Fire) by {
                if i < front.len() {
                    assert(front[i] == events[i]);
                }
            }
        }
    }
}

/// No wake-up is lost: a poll either finds the timer completed, or leaves
/// its handle where the next firing hands it out, whatever was stored
/// before.
pub proof fn lemma_no_lost_wakeup<W>(s: TimerView<W>, waker: W)
    ensures
        s.outcome() == Poll::Ready <==> s.completed,
        s.outcome() == Poll::Pending ==> s.polled(waker).handed_out() == Some(waker),
        s.outcome() == Poll::Pending ==> s.polled(waker).fired().outcome() == Poll::Ready,
{
}

/// A firing hands out each stored handle at most once: whatever happens
/// after a firing, a further firing has nothing to hand out.
pub proof fn lemma_woken_at_most_once<W>(s: TimerView<W>, events: Seq<TimerEvent<W>>)
    ensures
        s.fired().replay(events).handed_out() is None,
{
    lemma_completion_is_final(s.fired(), events);
}

/// Completion is final: once a timer has fired, every later poll reports
/// "ready", whatever happens in between, and no wake handle is stored again,
/// so that a second firing has none to hand out.
pub proof fn lemma_completion_is_final<W>(s: TimerView<W>, events: Seq<TimerEvent<W>>)
    requires
        s.completed,
        s.wf(),
    ensures
        s.replay(events).completed,
        s.replay(events).outcome() == Poll::Ready,
        s.replay(events).waker is None,
    decreases events.len(),
{
    if events.len() > 0 {
        lemma_completion_is_final(s, events.drop_last());
    }
}

/// A computation that is finished once its duration has passed.
pub struct TimerFuture<W> {
    duration: Duration,
    shared_state: SharedState<W>,
}

impl<W> View for TimerFuture<W> {
    type V = TimerView<W>;

    closed spec fn view(&self) -> TimerView<W> {
        self.shared_state@
    }
}

impl<W> TimerFuture<W> {
    /// The duration that the timer was made for.
    pub closed spec fn duration(&self) -> Duration {
        self.duration
    }

    /// A timer for `duration` that has not fired and holds no wake handle.
    pub fn new(duration: Duration) -> (r: Self)
        ensures
            r.duration() == duration,
            r@ == TimerView::<W>::initial(),
    {
        TimerFuture { duration, shared_state: SharedState::new() }
    }

    /// Takes the timer apart: how long to wait before firing, and the state
    /// to share between the waiting and the polling side.
    pub fn into_parts(self) -> (r: (Duration, SharedState<W>))
        ensures
            r.0 == self.duration(),
            r.1@ == self@,
    {
        (self.duration, self.shared_state)
    }

    /// One poll of the timer.
    pub fn poll(&mut self, waker: W) -> (r: Polled<W>)
        ensures
            final(self).duration() == old(self).duration(),
            final(self)@ == old(self)@.polled(waker),
            r.outcome == old(self)@.outcome(),
            r.unused == old(self)@.unused(waker),
    {
        self.shared_state.poll(waker)
    }

    /// The duration has passed: the timer is completed for good, and the
    /// stored wake handle, if any, is handed out to be invoked.
    pub fn fire(&mut self) -> (r: Option<W>)
        ensures
            final(self).duration() == old(self).duration(),
            final(self)@ == old(self)@.fired(),
            r == old(self)@.handed_out(),
    {
        self.shared_state.fire()
    }
}

} // verus!
