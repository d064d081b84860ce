//! Dynamically growing event bus over the bounded ring buffer.
//!
//! The bus wraps a ring, stamps every accepted input with a strictly
//! increasing, gap-free sequence number and a timestamp, and doubles the ring
//! by migrating all pending envelopes in FIFO order when a push finds it
//! full. Growth stops at a hard maximum; a push that cannot be accepted
//! reports overload to the host instead of being dropped silently.

use vstd::arithmetic::power2::{lemma_pow2_strictly_increases, pow2};
use vstd::prelude::*;

use crate::clock::instant_now;
use crate::ring::{is_pow2, LockFreeRingBuffer};

verus! {

/// Capacity of the ring a fresh bus starts with.
pub const INITIAL_BUFFER_CAPACITY: usize = 8192;

/// Hard maximum the bus never grows past.
pub const MAX_BUFFER_CAPACITY: usize = 1048576;

/// Input wrapped with the metadata the bus assigns at post time.
#[derive(Clone)]
pub struct Event<T> {
    pub input: T,
    pub timestamp: std::time::Instant,
    pub sequence_number: u64,
}

/// Observability counters; they record behaviour and decide nothing.
#[derive(Clone, Copy, Debug, Default)]
pub struct EventBusStats {
    pub total_events_pushed: u64,
    pub total_events_popped: u64,
    pub buffer_expansions: u64,
    pub push_failures: u64,
    pub max_buffer_size: usize,
}

/// The condition on which the bus refuses a push.
#[derive(Clone, Copy, Debug, PartialEq, Eq, Structural)]
pub enum EventBusError {
    /// The ring is full, doubling it would exceed the hard maximum (or the
    /// sequence counter is exhausted): the host is overloaded.
    Overload,
}

pub struct EventBus<T> {
    ring: LockFreeRingBuffer<Event<T>>,
    sequence: u64,
    stats: EventBusStats,
}

impl<T> EventBus<T> {
    /// Pending envelopes, oldest first.
    pub closed spec fn view(&self) -> Seq<Event<T>> {
        self.ring@
    }

    /// Capacity of the current ring.
    pub closed spec fn spec_capacity(&self) -> nat {
        self.ring.spec_capacity()
    }

    /// The sequence number the next accepted push will carry.
    pub closed spec fn spec_sequence(&self) -> nat {
        self.sequence as nat
    }

    /// Current observability counters.
    pub closed spec fn spec_stats(&self) -> EventBusStats {
        self.stats
    }

    /// Well-formedness: the ring is well formed, the capacity is the initial
    /// one doubled once per recorded expansion and within the hard maximum,
    /// the counters account for the pending length, and the pending
    /// envelopes carry consecutive sequence numbers ending just before the
    /// next one to be assigned.
    pub closed spec fn wf(&self) -> bool {
        &&& self.ring.wf()
        &&& self.ring.spec_capacity() == INITIAL_BUFFER_CAPACITY as nat * pow2(
            self.stats.buffer_expansions as nat,
        )
        &&& self.ring.spec_capacity() <= MAX_BUFFER_CAPACITY as nat
        &&& self.stats.total_events_pushed == self.sequence
        &&& self.stats.total_events_popped + self@.len() == self.stats.total_events_pushed
        &&& forall|i: int|
            0 <= i < self@.len() ==> (#[trigger] self@[i].sequence_number) as int
                == self.sequence - self@.len() + i
    }

    /// True iff a push is accepted in the current state: either the ring has
    /// room, or it may still double; and the sequence counter can still hand
    /// out a fresh number.
    pub open spec fn can_accept(&self) -> bool {
        (self@.len() < self.spec_capacity() || self.spec_capacity() * 2
            <= MAX_BUFFER_CAPACITY as nat) && self.spec_sequence() < u64::MAX as nat
    }

    /// Create an empty bus with the initial capacity.
    pub fn new() -> (r: Self)
        ensures
            r.wf(),
            r@ == Seq::<Event<T>>::empty(),
            r.spec_capacity() == INITIAL_BUFFER_CAPACITY as nat,
            r.spec_sequence() == 0,
            r.spec_stats() == (EventBusStats {
                total_events_pushed: 0,
                total_events_popped: 0,
                buffer_expansions: 0,
                push_failures: 0,
                max_buffer_size: 0,
            }),
    {
        proof {
            vstd::arithmetic::power2::lemma2_to64();
            reveal_with_fuel(is_pow2, 15);
            assert(is_pow2(INITIAL_BUFFER_CAPACITY as nat));
        }
        EventBus {
            ring: LockFreeRingBuffer::new(INITIAL_BUFFER_CAPACITY),
            sequence: 0,
            stats: EventBusStats {
                total_events_pushed: 0,
                total_events_popped: 0,
                buffer_expansions: 0,
                push_failures: 0,
                max_buffer_size: 0,
            },
        }
    }

    /// Accept `input`: stamp it with the next sequence number and the
    /// current time and append it, doubling the ring first when it is full.
    /// Refuses with `Overload` exactly when the state cannot accept a push,
    /// leaving the bus unchanged.
    pub fn push(&mut self, input: T) -> (r: Result<(), EventBusError>)
        requires
            old(self).wf(),
        ensures
            final(self).wf(),
            old(self).can_accept() ==> {
                &&& r is Ok
                &&& final(self)@.len() == old(self)@.len() + 1
                &&& final(self)@.subrange(0, old(self)@.len() as int) == old(self)@
                &&& final(self)@.last().input == input
                &&& final(self)@.last().sequence_number as nat == old(self).spec_sequence()
                &&& final(self).spec_sequence() == old(self).spec_sequence() + 1
                &&& final(self).spec_stats().total_events_pushed == old(
                    self,
                ).spec_stats().total_events_pushed + 1
                &&& final(self).spec_stats().total_events_popped == old(
                    self,
                ).spec_stats().total_events_popped
                &&& final(self).spec_stats().push_failures == old(self).spec_stats().push_failures
                &&& (old(self)@.len() < old(self).spec_capacity() ==> final(self).spec_capacity()
                    == old(self).spec_capacity() && final(self).spec_stats().buffer_expansions
                    == old(self).spec_stats().buffer_expansions
                    && final(self).spec_stats().max_buffer_size
                    == old(self).spec_stats().max_buffer_size)
                &&& (old(self)@.len() == old(self).spec_capacity() ==> final(self).spec_capacity()
                    == old(self).spec_capacity() * 2 && final(self).spec_stats().buffer_expansions
                    == old(self).spec_stats().buffer_expansions + 1
                    && final(self).spec_stats().max_buffer_size as nat
                    == old(self).spec_capacity() * 2)
            },
            !old(self).can_accept() ==> r == Err::<(), EventBusError>(EventBusError::Overload)
                && *final(self) == *old(self),
    {
        if self.sequence == u64::MAX {
            return Err(EventBusError::Overload);
        }
        let event = Event {
            input,
            timestamp: instant_now(),
            sequence_number: self.sequence,
        };
        proof {
            crate::ring::lemma_ring_occupancy(&self.ring);
        }
        let full = self.ring.len() == self.ring.capacity();
        if full {
            let capacity = self.ring.capacity();
            if capacity > MAX_BUFFER_CAPACITY / 2 {
                return Err(EventBusError::Overload);
            }
            self.expand_and_push(event);
        } else {
            let accepted = self.ring.try_push(event);
            proof {
                assert(accepted);
            }
        }
        self.sequence = self.sequence + 1;
        self.stats.total_events_pushed = self.stats.total_events_pushed + 1;
        Ok(())
    }

    /// Double the ring, migrate every pending envelope in FIFO order, and
    /// append `event` to the new ring.
    fn expand_and_push(&mut self, event: Event<T>)
        requires
            old(self).wf(),
            old(self)@.len() == old(self).spec_capacity(),
            old(self).spec_capacity() * 2 <= MAX_BUFFER_CAPACITY as nat,
        ensures
            final(self).ring.wf(),
            final(self).spec_capacity() == old(self).spec_capacity() * 2,
            final(self)@ == old(self)@.push(event),
            final(self).sequence == old(self).sequence,
            final(self).spec_stats().total_events_pushed == old(
                self,
            ).spec_stats().total_events_pushed,
            final(self).spec_stats().total_events_popped == old(
                self,
            ).spec_stats().total_events_popped,
            final(self).spec_stats().buffer_expansions == old(
                self,
            ).spec_stats().buffer_expansions + 1,
            final(self).spec_stats().push_failures == old(self).spec_stats().push_failures,
            final(self).spec_stats().max_buffer_size as nat == final(self).spec_capacity(),
            final(self).spec_capacity() == INITIAL_BUFFER_CAPACITY as nat * pow2(
                final(self).spec_stats().buffer_expansions as nat,
            ),
    {
        let old_capacity = self.ring.capacity();
        let new_capacity = old_capacity * 2;
        proof {
            crate::ring::lemma_ring_capacity(&self.ring);
            crate::ring::lemma_is_pow2_double(self.ring.spec_capacity());
            assert(is_pow2(new_capacity as nat));
        }
        let mut new_ring = LockFreeRingBuffer::new(new_capacity);
        let total = self.ring.len();
        let mut moved: usize = 0;
        while moved < total
            invariant
                self.ring.wf(),
                new_ring.wf(),
                moved <= total,
                total == old(self)@.len(),
                total == old(self).spec_capacity(),
                self.sequence == old(self).sequence,
                self.stats == old(self).stats,
                self.ring.spec_capacity() == old(self).spec_capacity(),
                new_ring.spec_capacity() == new_capacity as nat,
                new_capacity as nat == old(self).spec_capacity() * 2,
                new_ring@ == old(self)@.subrange(0, moved as int),
                self.ring@ == old(self)@.subrange(moved as int, total as int),
            decreases total - moved,
        {
            match self.ring.try_pop() {
                Some(migrated) => {
                    let accepted = new_ring.try_push(migrated);
                    proof {
                        assert(accepted);
                    }
                    moved += 1;
                    proof {
                        assert(new_ring@ =~= old(self)@.subrange(0, moved as int));
                    }
                }
                None => {
                    proof {
                        assert(false);
                    }
                }
            }
        }
        let accepted = new_ring.try_push(event);
        proof {
            assert(accepted);
            assert(new_ring@ =~= old(self)@.push(event));
            if self.stats.buffer_expansions as nat >= 8 {
                lemma_pow2_strictly_increases(7, self.stats.buffer_expansions as nat);
                assert(pow2(7) == 128) by {
                    vstd::arithmetic::power2::lemma2_to64();
                }
                assert(false);
            }
            assert(pow2((self.stats.buffer_expansions + 1) as nat) == 2 * pow2(
                self.stats.buffer_expansions as nat,
            )) by {
                vstd::arithmetic::power2::lemma_pow2_unfold(
                    (self.stats.buffer_expansions + 1) as nat,
                );
            }
        }
        self.ring = new_ring;
        self.stats.buffer_expansions = self.stats.buffer_expansions + 1;
        self.stats.max_buffer_size = new_capacity;
    }

    /// Remove and return up to `max_batch_size` envelopes, oldest first.
    pub fn try_pop_batch(&mut self, max_batch_size: usize) -> (events: Vec<Event<T>>)
        requires
            old(self).wf(),
        ensures
            final(self).wf(),
            events@.len() == vstd::math::min(max_batch_size as int, old(self)@.len() as int),
            events@ == old(self)@.subrange(0, events@.len() as int),
            final(self)@ == old(self)@.subrange(events@.len() as int, old(self)@.len() as int),
            final(self).spec_sequence() == old(self).spec_sequence(),
            final(self).spec_capacity() == old(self).spec_capacity(),
            final(self).spec_stats().total_events_popped == old(
                self,
            ).spec_stats().total_events_popped + events@.len(),
            final(self).spec_stats().total_events_pushed == old(
                self,
            ).spec_stats().total_events_pushed,
            final(self).spec_stats().buffer_expansions == old(
                self,
            ).spec_stats().buffer_expansions,
    {
        let mut events: Vec<Event<T>> = Vec::new();
        let mut taken: usize = 0;
        while taken < max_batch_size && !self.ring.is_empty()
            invariant
                self.ring.wf(),
                taken <= max_batch_size,
                taken == events@.len(),
                taken <= old(self)@.len(),
                taken < max_batch_size || taken == max_batch_size,
                self.sequence == old(self).sequence,
                self.stats.total_events_pushed == old(self).stats.total_events_pushed,
                self.stats.buffer_expansions == old(self).stats.buffer_expansions,
                self.stats.push_failures == old(self).stats.push_failures,
                self.stats.max_buffer_size == old(self).stats.max_buffer_size,
                self.stats.total_events_popped == old(self).stats.total_events_popped + taken,
                self.ring.spec_capacity() == old(self).spec_capacity(),
                old(self).wf(),
                events@ == old(self)@.subrange(0, taken as int),
                self.ring@ == old(self)@.subrange(taken as int, old(self)@.len() as int),
            decreases max_batch_size - taken,
        {
            match self.ring.try_pop() {
                Some(event) => {
                    events.push(event);
                    proof {
                        assert(self.stats.total_events_popped < self.stats.total_events_pushed);
                    }
                    self.stats.total_events_popped = self.stats.total_events_popped + 1;
                    taken += 1;
                    proof {
                        assert(events@ =~= old(self)@.subrange(0, taken as int));
                    }
                }
                None => {
                    proof {
                        assert(false);
                    }
                }
            }
        }
        events
    }

    /// Number of pending envelopes.
    pub fn len(&self) -> (r: usize)
        requires
            self.wf(),
        ensures
            r == self@.len(),
    {
        self.ring.len()
    }

    /// True iff no envelope is pending.
    pub fn is_empty(&self) -> (r: bool)
        requires
            self.wf(),
        ensures
            r <==> self@.len() == 0,
    {
        self.ring.is_empty()
    }

    /// The observability counters.
    pub fn stats(&self) -> (r: &EventBusStats)
        ensures
            *r == self.spec_stats(),
    {
        &self.stats
    }
}

/// The bus counters account for the pending envelopes exactly: the number of
/// envelopes popped plus the number still pending equals the number pushed,
/// which is also the next sequence number to be assigned.
pub proof fn lemma_bus_accounting<T>(bus: &EventBus<T>)
    requires
        bus.wf(),
    ensures
        bus.spec_stats().total_events_popped + bus@.len() == bus.spec_stats().total_events_pushed,
        bus.spec_stats().total_events_pushed == bus.spec_sequence(),
{
}

/// Consumers observe events in push order: two successive batch drains of
/// sizes `first` and `second` return exactly the oldest `first + second`
/// pending envelopes, concatenated in their push order.
pub proof fn lemma_batches_preserve_push_order<T>(pending: Seq<Event<T>>, first: int, second: int)
    requires
        0 <= first,
        0 <= second,
        first + second <= pending.len(),
    ensures
        pending.subrange(0, first) + pending.subrange(first, pending.len() as int).subrange(
            0,
            second,
        ) == pending.subrange(0, first + second),
{
    assert(pending.subrange(0, first) + pending.subrange(first, pending.len() as int).subrange(
        0,
        second,
    ) =~= pending.subrange(0, first + second));
}

/// Sequence numbers across pending envelopes are strictly increasing and
/// gap-free: two positions differ in sequence number by exactly their
/// distance, so no number repeats and none is skipped.
pub proof fn lemma_sequence_numbers<T>(bus: &EventBus<T>, i: int, j: int)
    requires
        bus.wf(),
        0 <= i < j < bus@.len(),
    ensures
        bus@[i].sequence_number < bus@[j].sequence_number,
        bus@[j].sequence_number - bus@[i].sequence_number == j - i,
{
}

} // verus!
