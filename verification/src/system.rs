//! Process-wide input routing context.
//!
//! A host usually keeps the event bus, the input processor and the window
//! routing table as process-wide singletons; here they are gathered in an
//! injectable context object with the same contracts. The routing
//! table maps an opaque window id to that window's pending envelopes; posting
//! to or draining one window never touches another window's queue.

use vstd::prelude::*;

use crate::bus::{Event, EventBus, EventBusError};
use crate::clock::instant_now;
use crate::processor::InputProcessorState;

verus! {

/// True iff the routing table `s` holds an entry keyed `window_id`.
spec fn has_window_in<T>(s: Seq<(u64, Vec<Event<T>>)>, window_id: u64) -> bool {
    exists|i: int| 0 <= i < s.len() && (#[trigger] s[i]).0 == window_id
}

/// Index of the entry keyed `window_id` in the routing table `s`.
spec fn index_in<T>(s: Seq<(u64, Vec<Event<T>>)>, window_id: u64) -> int {
    choose|i: int| 0 <= i < s.len() && (#[trigger] s[i]).0 == window_id
}

/// The event bus, the processor lifecycle state and the per-window routing
/// table of one process.
pub struct EventSystem<T> {
    bus: EventBus<T>,
    windows: Vec<(u64, Vec<Event<T>>)>,
    processor: Option<InputProcessorState>,
}

impl<T> EventSystem<T> {
    /// The global event bus.
    pub closed spec fn spec_bus(&self) -> EventBus<T> {
        self.bus
    }

    /// The processor state, `None` before initialization and after shutdown.
    pub closed spec fn spec_processor(&self) -> Option<InputProcessorState> {
        self.processor
    }

    /// True iff a window with this id is registered.
    pub closed spec fn spec_has_window(&self, window_id: u64) -> bool {
        has_window_in(self.windows@, window_id)
    }

    /// Index of the entry of `window_id` in the routing table.
    closed spec fn spec_index_of(&self, window_id: u64) -> int {
        index_in(self.windows@, window_id)
    }

    /// The envelopes pending for `window_id`, oldest first; empty for an
    /// unregistered window.
    pub closed spec fn spec_pending(&self, window_id: u64) -> Seq<Event<T>> {
        if has_window_in(self.windows@, window_id) {
            self.windows@[index_in(self.windows@, window_id)].1@
        } else {
            Seq::<Event<T>>::empty()
        }
    }

    /// Well-formedness: the bus is well formed and no window id is
    /// registered twice.
    pub closed spec fn wf(&self) -> bool {
        &&& self.bus.wf()
        &&& forall|i: int, j: int|
            0 <= i < j < self.windows@.len() ==> (#[trigger] self.windows@[i]).0 != (
            #[trigger] self.windows@[j]).0
    }

    /// A fresh context: an empty bus, no windows, no processor.
    pub fn new() -> (r: Self)
        ensures
            r.wf(),
            r.spec_bus()@ == Seq::<Event<T>>::empty(),
            r.spec_bus().spec_sequence() == 0,
            r.spec_processor() is None,
            forall|id: u64| !r.spec_has_window(id),
    {
        EventSystem { bus: EventBus::new(), windows: Vec::new(), processor: None }
    }

    /// Index of `window_id` in the routing table, if registered.
    fn find_window(&self, window_id: u64) -> (r: Option<usize>)
        requires
            self.wf(),
        ensures
            match r {
                Some(i) => {
                    &&& i < self.windows@.len()
                    &&& self.windows@[i as int].0 == window_id
                    &&& self.spec_has_window(window_id)
                    &&& self.spec_index_of(window_id) == i as int
                },
                None => !self.spec_has_window(window_id),
            },
    {
        let mut i: usize = 0;
        while i < self.windows.len()
            invariant
                self.wf(),
                i <= self.windows@.len(),
                forall|j: int| 0 <= j < i ==> (#[trigger] self.windows@[j]).0 != window_id,
            decreases self.windows@.len() - i,
        {
            if self.windows[i].0 == window_id {
                proof {
                    let k = self.spec_index_of(window_id);
                    assert(self.windows@[i as int].0 == window_id);
                    assert(self.spec_has_window(window_id));
                    if k != i as int {
                        assert(self.windows@[k].0 == window_id);
                        assert(false);
                    }
                }
                return Some(i);
            }
            i += 1;
        }
        None
    }

    /// Register `window_id` in the routing table with an empty queue,
    /// replacing any queue it already had.
    pub fn register_window(&mut self, window_id: u64)
        requires
            old(self).wf(),
        ensures
            final(self).wf(),
            final(self).spec_has_window(window_id),
            final(self).spec_pending(window_id) == Seq::<Event<T>>::empty(),
            forall|other: u64|
                other != window_id ==> final(self).spec_has_window(other) == old(
                    self,
                ).spec_has_window(other) && final(self).spec_pending(other) == old(
                    self,
                ).spec_pending(other),
            final(self).spec_bus() == old(self).spec_bus(),
            final(self).spec_processor() == old(self).spec_processor(),
    {
        match self.find_window(window_id) {
            Some(i) => {
                self.windows.set(i, (window_id, Vec::new()));
                proof {
                    self.lemma_frame_update(old(self), i as int, window_id);
                    self.lemma_index_unique(window_id, i as int);
                }
            },
            None => {
                self.windows.push((window_id, Vec::new()));
                proof {
                    self.lemma_frame_push(old(self), window_id);
                    self.lemma_index_unique(window_id, self.windows@.len() - 1);
                }
            },
        }
        proof {
            assert(self.spec_pending(window_id) =~= Seq::<Event<T>>::empty());
        }
    }

    /// If the entry at `i` is keyed `window_id`, it is the one the routing
    /// table resolves `window_id` to.
    proof fn lemma_index_unique(&self, window_id: u64, i: int)
        requires
            self.wf(),
            0 <= i < self.windows@.len(),
            self.windows@[i].0 == window_id,
        ensures
            self.spec_has_window(window_id),
            self.spec_index_of(window_id) == i,
    {
        assert(self.spec_has_window(window_id));
        let k = self.spec_index_of(window_id);
        if k != i {
            assert(self.windows@[k].0 == window_id);
            assert(false);
        }
    }

    /// A window that is not registered has no pending envelopes: its pending
    /// view is empty, so `window_pending_count` returns 0 for it.
    pub proof fn lemma_absent_window_pending_empty(&self, window_id: u64)
        requires
            !self.spec_has_window(window_id),
        ensures
            self.spec_pending(window_id) == Seq::<Event<T>>::empty(),
    {
    }

    /// Remove `window_id` from the routing table, discarding its pending
    /// envelopes.
    pub fn unregister_window(&mut self, window_id: u64)
        requires
            old(self).wf(),
        ensures
            final(self).wf(),
            !final(self).spec_has_window(window_id),
            final(self).spec_pending(window_id) == Seq::<Event<T>>::empty(),
            forall|other: u64|
                other != window_id ==> final(self).spec_has_window(other) == old(
                    self,
                ).spec_has_window(other) && final(self).spec_pending(other) == old(
                    self,
                ).spec_pending(other),
            final(self).spec_bus() == old(self).spec_bus(),
            final(self).spec_processor() == old(self).spec_processor(),
    {
        match self.find_window(window_id) {
            Some(i) => {
                self.windows.remove(i);
                proof {
                    self.lemma_frame_remove(old(self), i as int, window_id);
                }
            },
            None => {
            },
        }
    }

    /// After a change confined to the entry of `changed_id` (replaced,
    /// removed, appended or re-queued), every other window's registration
    /// and pending envelopes are untouched.
    proof fn lemma_frame(&self, prev: &Self, changed_id: u64)
        requires
            prev.wf(),
            self.wf(),
            forall|j: int|
                0 <= j < prev.windows@.len() && (#[trigger] prev.windows@[j]).0 != changed_id
                    ==> exists|k: int|
                    0 <= k < self.windows@.len() && #[trigger] self.windows@[k]
                        == prev.windows@[j],
            forall|k: int|
                0 <= k < self.windows@.len() && (#[trigger] self.windows@[k]).0 != changed_id
                    ==> exists|j: int|
                    0 <= j < prev.windows@.len() && #[trigger] prev.windows@[j]
                        == self.windows@[k],
        ensures
            forall|other: u64|
                other != changed_id ==> self.spec_has_window(other) == prev.spec_has_window(other)
                    && self.spec_pending(other) == prev.spec_pending(other),
    {
        assert forall|other: u64| other != changed_id implies self.spec_has_window(other)
            == prev.spec_has_window(other) && self.spec_pending(other) == prev.spec_pending(
            other,
        ) by {
            if prev.spec_has_window(other) {
                let j = prev.spec_index_of(other);
                assert(prev.windows@[j].0 == other);
                let k = choose|k: int|
                    0 <= k < self.windows@.len() && self.windows@[k] == prev.windows@[j];
                assert(self.windows@[k] == prev.windows@[j]);
                assert(self.spec_has_window(other));
                let k2 = self.spec_index_of(other);
                if k2 != k {
                    assert(self.windows@[k2].0 == other);
                    assert(false);
                }
                assert(self.spec_pending(other) == prev.spec_pending(other));
            } else {
                if self.spec_has_window(other) {
                    let k = self.spec_index_of(other);
                    assert(self.windows@[k].0 == other);
                    let j = choose|j: int|
                        0 <= j < prev.windows@.len() && prev.windows@[j] == self.windows@[k];
                    assert(prev.spec_has_window(other));
                    assert(false);
                }
            }
        }
    }

    /// Frame lemma for an in-place change: the entry at `i` held
    /// `changed_id` before and after, everything else is the same sequence.
    proof fn lemma_frame_update(&self, prev: &Self, i: int, changed_id: u64)
        requires
            prev.wf(),
            self.wf(),
            0 <= i < prev.windows@.len(),
            self.windows@.len() == prev.windows@.len(),
            prev.windows@[i].0 == changed_id,
            self.windows@[i].0 == changed_id,
            forall|j: int|
                0 <= j < prev.windows@.len() && j != i ==> #[trigger] self.windows@[j]
                    == prev.windows@[j],
        ensures
            forall|other: u64|
                other != changed_id ==> self.spec_has_window(other) == prev.spec_has_window(other)
                    && self.spec_pending(other) == prev.spec_pending(other),
    {
        assert forall|j: int|
            0 <= j < prev.windows@.len() && (#[trigger] prev.windows@[j]).0
                != changed_id implies exists|k: int|
            0 <= k < self.windows@.len() && #[trigger] self.windows@[k] == prev.windows@[j] by {
            assert(j != i);
            assert(self.windows@[j] == prev.windows@[j]);
        }
        assert forall|k: int|
            0 <= k < self.windows@.len() && (#[trigger] self.windows@[k]).0
                != changed_id implies exists|j: int|
            0 <= j < prev.windows@.len() && #[trigger] prev.windows@[j] == self.windows@[k] by {
            assert(k != i);
            assert(prev.windows@[k] == self.windows@[k]);
        }
        self.lemma_frame(prev, changed_id);
    }

    /// Frame lemma for appending a fresh entry keyed `changed_id`.
    proof fn lemma_frame_push(&self, prev: &Self, changed_id: u64)
        requires
            prev.wf(),
            self.wf(),
            self.windows@.len() == prev.windows@.len() + 1,
            self.windows@[self.windows@.len() - 1].0 == changed_id,
            forall|j: int|
                0 <= j < prev.windows@.len() ==> #[trigger] self.windows@[j]
                    == prev.windows@[j],
        ensures
            forall|other: u64|
                other != changed_id ==> self.spec_has_window(other) == prev.spec_has_window(other)
                    && self.spec_pending(other) == prev.spec_pending(other),
    {
        assert forall|j: int|
            0 <= j < prev.windows@.len() && (#[trigger] prev.windows@[j]).0
                != changed_id implies exists|k: int|
            0 <= k < self.windows@.len() && #[trigger] self.windows@[k] == prev.windows@[j] by {
            assert(self.windows@[j] == prev.windows@[j]);
        }
        assert forall|k: int|
            0 <= k < self.windows@.len() && (#[trigger] self.windows@[k]).0
                != changed_id implies exists|j: int|
            0 <= j < prev.windows@.len() && #[trigger] prev.windows@[j] == self.windows@[k] by {
            assert(k != self.windows@.len() - 1);
            assert(prev.windows@[k] == self.windows@[k]);
        }
        self.lemma_frame(prev, changed_id);
    }

    /// Frame lemma for removing the entry at `i`, which held `changed_id`.
    proof fn lemma_frame_remove(&self, prev: &Self, i: int, changed_id: u64)
        requires
            prev.wf(),
            self.wf(),
            0 <= i < prev.windows@.len(),
            prev.windows@[i].0 == changed_id,
            self.windows@ == prev.windows@.remove(i),
        ensures
            forall|other: u64|
                other != changed_id ==> self.spec_has_window(other) == prev.spec_has_window(other)
                    && self.spec_pending(other) == prev.spec_pending(other),
    {
        assert forall|j: int|
            0 <= j < prev.windows@.len() && (#[trigger] prev.windows@[j]).0
                != changed_id implies exists|k: int|
            0 <= k < self.windows@.len() && #[trigger] self.windows@[k] == prev.windows@[j] by {
            assert(j != i);
            let k = if j < i {
                j
            } else {
                j - 1
            };
            assert(self.windows@[k] == prev.windows@[j]);
        }
        assert forall|k: int|
            0 <= k < self.windows@.len() && (#[trigger] self.windows@[k]).0
                != changed_id implies exists|j: int|
            0 <= j < prev.windows@.len() && #[trigger] prev.windows@[j] == self.windows@[k] by {
            let j = if k < i {
                k
            } else {
                k + 1
            };
            assert(prev.windows@[j] == self.windows@[k]);
        }
        self.lemma_frame(prev, changed_id);
    }

    /// Deliver `input` straight to the queue of `window_id`, stamped with
    /// the current time and sequence number 0 (per-window envelopes are not
    /// numbered by the bus). The input is silently dropped when the window
    /// is not registered, since it is then being torn down.
    pub fn post_input_event_for_window(&mut self, window_id: u64, input: T)
        requires
            old(self).wf(),
        ensures
            final(self).wf(),
            final(self).spec_bus() == old(self).spec_bus(),
            final(self).spec_processor() == old(self).spec_processor(),
            forall|other: u64|
                other != window_id ==> final(self).spec_has_window(other) == old(
                    self,
                ).spec_has_window(other) && final(self).spec_pending(other) == old(
                    self,
                ).spec_pending(other),
            final(self).spec_has_window(window_id) == old(self).spec_has_window(window_id),
            old(self).spec_has_window(window_id) ==> {
                &&& final(self).spec_pending(window_id).len() == old(self).spec_pending(
                    window_id,
                ).len() + 1
                &&& final(self).spec_pending(window_id).subrange(
                    0,
                    old(self).spec_pending(window_id).len() as int,
                ) == old(self).spec_pending(window_id)
                &&& final(self).spec_pending(window_id).last().input == input
                &&& final(self).spec_pending(window_id).last().sequence_number == 0
            },
            !old(self).spec_has_window(window_id) ==> *final(self) == *old(self),
    {
        match self.find_window(window_id) {
            Some(i) => {
                let (found_id, mut queue) = self.windows.remove(i);
                let event = Event { input, timestamp: instant_now(), sequence_number: 0u64 };
                queue.push(event);
                self.windows.insert(i, (found_id, queue));
                proof {
                    assert(forall|j: int|
                        0 <= j < old(self).windows@.len() && j != i ==> #[trigger] self.windows@[j]
                            == old(self).windows@[j]);
                    self.lemma_frame_update(old(self), i as int, window_id);
                    self.lemma_index_unique(window_id, i as int);
                    assert(self.spec_pending(window_id).subrange(
                        0,
                        old(self).spec_pending(window_id).len() as int,
                    ) =~= old(self).spec_pending(window_id));
                }
            },
            None => {
            },
        }
    }

    /// Drain up to `max_events` pending envelopes of `window_id`, oldest
    /// first. Every other window's queue is untouched; an unregistered
    /// window yields nothing.
    pub fn drain_window_events(&mut self, window_id: u64, max_events: usize) -> (events: Vec<
        Event<T>,
    >)
        requires
            old(self).wf(),
        ensures
            final(self).wf(),
            final(self).spec_bus() == old(self).spec_bus(),
            final(self).spec_processor() == old(self).spec_processor(),
            forall|other: u64|
                other != window_id ==> final(self).spec_has_window(other) == old(
                    self,
                ).spec_has_window(other) && final(self).spec_pending(other) == old(
                    self,
                ).spec_pending(other),
            final(self).spec_has_window(window_id) == old(self).spec_has_window(window_id),
            old(self).spec_has_window(window_id) ==> {
                &&& events@.len() == vstd::math::min(
                    max_events as int,
                    old(self).spec_pending(window_id).len() as int,
                )
                &&& events@ == old(self).spec_pending(window_id).subrange(
                    0,
                    events@.len() as int,
                )
                &&& final(self).spec_pending(window_id) == old(self).spec_pending(
                    window_id,
                ).subrange(events@.len() as int, old(self).spec_pending(window_id).len() as int)
            },
            !old(self).spec_has_window(window_id) ==> events@.len() == 0 && *final(self) == *old(
                self,
            ),
    {
        match self.find_window(window_id) {
            Some(i) => {
                let (found_id, mut queue) = self.windows.remove(i);
                let ghost initial = queue@;
                let mut events: Vec<Event<T>> = Vec::new();
                let mut taken: usize = 0;
                while taken < max_events && !queue.is_empty()
                    invariant
                        taken <= max_events,
                        taken == events@.len(),
                        taken <= initial.len(),
                        events@ == initial.subrange(0, taken as int),
                        queue@ == initial.subrange(taken as int, initial.len() as int),
                    decreases max_events - taken,
                {
                    let event = queue.remove(0);
                    events.push(event);
                    taken += 1;
                    proof {
                        assert(events@ =~= initial.subrange(0, taken as int));
                        assert(queue@ =~= initial.subrange(taken as int, initial.len() as int));
                    }
                }
                self.windows.insert(i, (found_id, queue));
                proof {
                    assert(forall|j: int|
                        0 <= j < old(self).windows@.len() && j != i ==> #[trigger] self.windows@[j]
                            == old(self).windows@[j]);
                    self.lemma_frame_update(old(self), i as int, window_id);
                    self.lemma_index_unique(window_id, i as int);
                }
                events
            },
            None => {
                Vec::new()
            },
        }
    }

    /// Remove and return up to `max_batch_size` envelopes from the global
    /// bus, oldest first: the processor worker's per-iteration pop, through
    /// the injectable context. Windows and the processor state are
    /// untouched.
    pub fn try_pop_batch(&mut self, max_batch_size: usize) -> (events: Vec<Event<T>>)
        requires
            old(self).wf(),
        ensures
            final(self).wf(),
            final(self).spec_processor() == old(self).spec_processor(),
            forall|id: u64|
                final(self).spec_has_window(id) == old(self).spec_has_window(id)
                    && final(self).spec_pending(id) == old(self).spec_pending(id),
            events@.len() == vstd::math::min(
                max_batch_size as int,
                old(self).spec_bus()@.len() as int,
            ),
            events@ == old(self).spec_bus()@.subrange(0, events@.len() as int),
            final(self).spec_bus()@ == old(self).spec_bus()@.subrange(
                events@.len() as int,
                old(self).spec_bus()@.len() as int,
            ),
            final(self).spec_bus().spec_sequence() == old(self).spec_bus().spec_sequence(),
            final(self).spec_bus().spec_stats().total_events_popped == old(
                self,
            ).spec_bus().spec_stats().total_events_popped + events@.len(),
            final(self).spec_bus().spec_stats().total_events_pushed == old(
                self,
            ).spec_bus().spec_stats().total_events_pushed,
    {
        self.bus.try_pop_batch(max_batch_size)
    }

    /// Route one global event to every registered window: the default
    /// dispatch policy of the input processor. Each window receives its own
    /// envelope (sequence number 0, stamped now); hosts may override this
    /// broadcast with a focus-tracking policy and must not depend on it.
    pub fn broadcast_global_event(&mut self, input: T) where T: Clone
        requires
            old(self).wf(),
        ensures
            final(self).wf(),
            final(self).spec_bus() == old(self).spec_bus(),
            final(self).spec_processor() == old(self).spec_processor(),
            forall|id: u64|
                final(self).spec_has_window(id) == old(self).spec_has_window(id),
            forall|id: u64|
                old(self).spec_has_window(id) ==> {
                    &&& (#[trigger] final(self).spec_pending(id)).len() == old(self).spec_pending(
                        id,
                    ).len() + 1
                    &&& final(self).spec_pending(id).subrange(
                        0,
                        old(self).spec_pending(id).len() as int,
                    ) == old(self).spec_pending(id)
                    &&& final(self).spec_pending(id).last().sequence_number == 0
                },
    {
        let total = self.windows.len();
        let mut i: usize = 0;
        while i < total
            invariant
                self.wf(),
                i <= total,
                total == self.windows@.len(),
                total == old(self).windows@.len(),
                self.bus == old(self).bus,
                self.processor == old(self).processor,
                forall|j: int|
                    0 <= j < total ==> (#[trigger] self.windows@[j]).0 == old(self).windows@[j].0,
                forall|j: int|
                    i <= j < total ==> #[trigger] self.windows@[j] == old(self).windows@[j],
                forall|j: int|
                    0 <= j < i ==> {
                        &&& (#[trigger] self.windows@[j]).1@.len() == old(
                            self,
                        ).windows@[j].1@.len() + 1
                        &&& self.windows@[j].1@.subrange(
                            0,
                            old(self).windows@[j].1@.len() as int,
                        ) == old(self).windows@[j].1@
                        &&& self.windows@[j].1@.last().sequence_number == 0
                    },
            decreases total - i,
        {
            let (found_id, mut queue) = self.windows.remove(i);
            let event = Event {
                input: input.clone(),
                timestamp: instant_now(),
                sequence_number: 0u64,
            };
            queue.push(event);
            self.windows.insert(i, (found_id, queue));
            proof {
                assert(self.windows@[i as int].1@.subrange(
                    0,
                    old(self).windows@[i as int].1@.len() as int,
                ) =~= old(self).windows@[i as int].1@);
            }
            i += 1;
        }
        proof {
            assert forall|id: u64| final(self).spec_has_window(id) == old(self).spec_has_window(
                id,
            ) by {
                if old(self).spec_has_window(id) {
                    let j = old(self).spec_index_of(id);
                    assert(self.windows@[j].0 == id);
                    assert(self.spec_has_window(id));
                } else {
                    if self.spec_has_window(id) {
                        let k = self.spec_index_of(id);
                        assert(old(self).windows@[k].0 == id);
                        assert(false);
                    }
                }
            }
            assert forall|id: u64| old(self).spec_has_window(id) implies {
                &&& (#[trigger] final(self).spec_pending(id)).len() == old(self).spec_pending(
                    id,
                ).len() + 1
                &&& final(self).spec_pending(id).subrange(
                    0,
                    old(self).spec_pending(id).len() as int,
                ) == old(self).spec_pending(id)
                &&& final(self).spec_pending(id).last().sequence_number == 0
            } by {
                let j = old(self).spec_index_of(id);
                assert(old(self).windows@[j].0 == id);
                assert(self.windows@[j].0 == id);
                self.lemma_index_unique(id, j);
            }
        }
    }

    /// Number of envelopes pending for `window_id`; 0 for an unregistered
    /// window.
    pub fn window_pending_count(&self, window_id: u64) -> (r: usize)
        requires
            self.wf(),
        ensures
            r == self.spec_pending(window_id).len(),
    {
        match self.find_window(window_id) {
            Some(i) => self.windows[i].1.len(),
            None => 0,
        }
    }
}

/// Start the input processing worker if it is not already up; a second
/// initialization changes nothing. The host spawns the actual thread when
/// the processor state reports a fresh start.
pub fn initialize_event_bus<T>(system: &mut EventSystem<T>)
    requires
        old(system).wf(),
    ensures
        final(system).wf(),
        final(system).spec_processor() is Some,
        old(system).spec_processor() is None
            ==> final(system).spec_processor()->Some_0.spec_running(),
        old(system).spec_processor() is Some ==> *final(system) == *old(system),
        final(system).spec_bus() == old(system).spec_bus(),
        forall|id: u64|
            final(system).spec_has_window(id) == old(system).spec_has_window(id)
                && final(system).spec_pending(id) == old(system).spec_pending(id),
{
    if system.processor.is_some() {
        return ;
    }
    let mut processor = InputProcessorState::new();
    let started = processor.start();
    system.processor = Some(processor);
}

/// Stop the input processing worker and clear the window routing table;
/// pending per-window envelopes are discarded. The bus itself is kept.
pub fn shutdown_event_bus<T>(system: &mut EventSystem<T>)
    requires
        old(system).wf(),
    ensures
        final(system).wf(),
        final(system).spec_processor() is None,
        final(system).spec_bus() == old(system).spec_bus(),
        forall|id: u64| !final(system).spec_has_window(id),
{
    match system.processor.take() {
        Some(mut processor) => {
            let was_running = processor.stop();
        },
        None => {
        },
    }
    system.windows.clear();
}

/// Post an input event without window context: it goes to the global bus,
/// numbered and timestamped there. Reports `Overload` when the bus cannot
/// accept it.
pub fn post_input_event<T>(system: &mut EventSystem<T>, input: T) -> (r: Result<
    (),
    EventBusError,
>)
    requires
        old(system).wf(),
    ensures
        final(system).wf(),
        final(system).spec_processor() == old(system).spec_processor(),
        forall|id: u64|
            final(system).spec_has_window(id) == old(system).spec_has_window(id)
                && final(system).spec_pending(id) == old(system).spec_pending(id),
        old(system).spec_bus().can_accept() ==> {
            &&& r is Ok
            &&& final(system).spec_bus()@.len() == old(system).spec_bus()@.len() + 1
            &&& final(system).spec_bus()@.subrange(0, old(system).spec_bus()@.len() as int)
                == old(system).spec_bus()@
            &&& final(system).spec_bus()@.last().input == input
            &&& final(system).spec_bus()@.last().sequence_number as nat == old(
                system,
            ).spec_bus().spec_sequence()
            &&& final(system).spec_bus().spec_sequence() == old(
                system,
            ).spec_bus().spec_sequence() + 1
            &&& final(system).spec_bus().spec_stats().total_events_pushed == old(
                system,
            ).spec_bus().spec_stats().total_events_pushed + 1
        },
        !old(system).spec_bus().can_accept() ==> r == Err::<(), EventBusError>(
            EventBusError::Overload,
        ) && final(system).spec_bus() == old(system).spec_bus(),
{
    system.bus.push(input)
}

/// Snapshot of the bus counters, for monitoring.
#[derive(Debug, Clone, Copy)]
pub struct EventBusStats {
    pub total_pushed: u64,
    pub total_popped: u64,
    pub buffer_expansions: u64,
    pub push_failures: u64,
    pub max_buffer_size: usize,
    pub pending_events: usize,
}

impl EventBusStats {
    /// Read the bus counters and pending length of `system`.
    pub fn current<T>(system: &EventSystem<T>) -> (r: EventBusStats)
        requires
            system.wf(),
        ensures
            r.total_pushed == system.spec_bus().spec_stats().total_events_pushed,
            r.total_popped == system.spec_bus().spec_stats().total_events_popped,
            r.buffer_expansions == system.spec_bus().spec_stats().buffer_expansions,
            r.push_failures == system.spec_bus().spec_stats().push_failures,
            r.max_buffer_size == system.spec_bus().spec_stats().max_buffer_size,
            r.pending_events == system.spec_bus()@.len(),
    {
        let pending_events = system.bus.len();
        let stats = system.bus.stats();
        EventBusStats {
            total_pushed: stats.total_events_pushed,
            total_popped: stats.total_events_popped,
            buffer_expansions: stats.buffer_expansions,
            push_failures: stats.push_failures,
            max_buffer_size: stats.max_buffer_size,
            pending_events,
        }
    }
}

} // verus!
