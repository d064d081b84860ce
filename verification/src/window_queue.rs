//! Per-window input event queue.
//!
//! Each window owns one queue; queues share no state, so posting to or
//! draining one window never affects another. Events are kept in post order
//! and drained in bounded batches from the UI thread.

use vstd::prelude::*;

use crate::clock::instant_now;

verus! {

/// Input wrapped with the time it was posted.
#[derive(Clone)]
pub struct WindowInputEvent<T> {
    pub input: T,
    pub timestamp: std::time::Instant,
}

/// Unbounded FIFO queue of one window's pending input events.
pub struct WindowEventQueue<T> {
    pending: Vec<WindowInputEvent<T>>,
}

impl<T> WindowEventQueue<T> {
    /// Pending events, oldest first.
    pub closed spec fn view(&self) -> Seq<WindowInputEvent<T>> {
        self.pending@
    }

    /// Create an empty queue for a window.
    pub fn new() -> (r: Self)
        ensures
            r@ == Seq::<WindowInputEvent<T>>::empty(),
    {
        WindowEventQueue { pending: Vec::new() }
    }

    /// Append `input`, stamped with the current time, to this window's
    /// queue.
    pub fn post(&mut self, input: T)
        ensures
            final(self)@.len() == old(self)@.len() + 1,
            final(self)@.subrange(0, old(self)@.len() as int) == old(self)@,
            final(self)@.last().input == input,
    {
        let event = WindowInputEvent { input, timestamp: instant_now() };
        self.pending.push(event);
        proof {
            assert(self@.subrange(0, old(self)@.len() as int) =~= old(self)@);
        }
    }

    /// Remove and return up to `max_events` events, oldest first.
    pub fn drain_events(&mut self, max_events: usize) -> (events: Vec<WindowInputEvent<T>>)
        ensures
            events@.len() == vstd::math::min(max_events as int, old(self)@.len() as int),
            events@ == old(self)@.subrange(0, events@.len() as int),
            final(self)@ == old(self)@.subrange(events@.len() as int, old(self)@.len() as int),
    {
        let mut events: Vec<WindowInputEvent<T>> = Vec::new();
        let mut taken: usize = 0;
        while taken < max_events && !self.pending.is_empty()
            invariant
                taken <= max_events,
                taken == events@.len(),
                taken <= old(self)@.len(),
                events@ == old(self)@.subrange(0, taken as int),
                self.pending@ == old(self)@.subrange(taken as int, old(self)@.len() as int),
            decreases max_events - taken,
        {
            let event = self.pending.remove(0);
            events.push(event);
            taken += 1;
            proof {
                assert(events@ =~= old(self)@.subrange(0, taken as int));
                assert(self.pending@ =~= old(self)@.subrange(
                    taken as int,
                    old(self)@.len() as int,
                ));
            }
        }
        events
    }

    /// Number of pending events.
    pub fn pending_count(&self) -> (r: usize)
        ensures
            r == self@.len(),
    {
        self.pending.len()
    }

    /// True iff no event is pending.
    pub fn is_empty(&self) -> (r: bool)
        ensures
            r <==> self@.len() == 0,
    {
        self.pending.is_empty()
    }
}

} // verus!
