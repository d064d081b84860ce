//! Bounded FIFO ring buffer with power-of-two capacity.
//!
//! The buffer keeps a start index and a length over a slot vector and tracks
//! the total number of accepted pushes and completed pops. At every point,
//! `pops <= pushes` and `pushes - pops <= capacity` hold, pending elements
//! leave in push order, and a push is refused exactly when the buffer holds
//! `capacity` elements.

use vstd::prelude::*;

verus! {

/// True iff `n` is a power of two.
pub open spec fn is_pow2(n: nat) -> bool
    decreases n,
{
    if n == 0 {
        false
    } else if n == 1 {
        true
    } else {
        n % 2 == 0 && is_pow2(n / 2)
    }
}

/// Position in the slot vector of the `i`-th pending element when the oldest
/// pending element sits at `start`, for `start < cap` and `i <= cap`.
pub open spec fn ring_slot(start: int, i: int, cap: int) -> int {
    if start + i >= cap {
        start + i - cap
    } else {
        start + i
    }
}

/// Bounded FIFO queue over a fixed slot vector.
///
/// A slot is occupied iff it holds a pending element; elements are appended
/// at `start + len` and removed at `start`, both taken modulo the capacity.
pub struct LockFreeRingBuffer<T> {
    slots: Vec<Option<T>>,
    capacity: usize,
    start: usize,
    len: usize,
    pushes: Ghost<nat>,
    pops: Ghost<nat>,
}

impl<T> LockFreeRingBuffer<T> {
    /// Pending elements, oldest first.
    pub closed spec fn view(&self) -> Seq<T> {
        Seq::new(
            self.len as nat,
            |i: int| self.slots@[ring_slot(self.start as int, i, self.capacity as int)]->Some_0,
        )
    }

    /// The fixed capacity the buffer was created with.
    pub closed spec fn spec_capacity(&self) -> nat {
        self.capacity as nat
    }

    /// Total number of pushes that have been accepted.
    pub closed spec fn spec_pushes(&self) -> nat {
        self.pushes@
    }

    /// Total number of pops that have returned an element.
    pub closed spec fn spec_pops(&self) -> nat {
        self.pops@
    }

    /// Well-formedness: the slot vector matches the capacity, the pending
    /// region is fully occupied, and the push/pop totals account for the
    /// pending length.
    pub closed spec fn wf(&self) -> bool {
        &&& self.slots@.len() == self.capacity
        &&& is_pow2(self.capacity as nat)
        &&& self.capacity <= usize::MAX / 2
        &&& self.start < self.capacity
        &&& self.len <= self.capacity
        &&& self.pops@ + self.len as nat == self.pushes@
        &&& forall|i: int|
            0 <= i < self.len ==> (#[trigger] self.slots@[ring_slot(
                self.start as int,
                i,
                self.capacity as int,
            )]) is Some
    }

    /// Create an empty buffer. The capacity must be a power of two.
    pub fn new(capacity: usize) -> (r: Self)
        requires
            is_pow2(capacity as nat),
            capacity <= usize::MAX / 2,
        ensures
            r.wf(),
            r@ == Seq::<T>::empty(),
            r.spec_capacity() == capacity,
            r.spec_pushes() == 0,
            r.spec_pops() == 0,
    {
        let mut slots: Vec<Option<T>> = Vec::new();
        let mut i: usize = 0;
        while i < capacity
            invariant
                i <= capacity,
                slots@.len() == i,
                forall|j: int| 0 <= j < i ==> (#[trigger] slots@[j]) is None,
            decreases capacity - i,
        {
            slots.push(None);
            i += 1;
        }
        let r = LockFreeRingBuffer {
            slots,
            capacity,
            start: 0,
            len: 0,
            pushes: Ghost(0),
            pops: Ghost(0),
        };
        proof {
            assert(r@ =~= Seq::<T>::empty());
        }
        r
    }

    /// Append `value` if the buffer is not full. Returns `true` exactly when
    /// the buffer had room; on refusal the buffer is unchanged.
    pub fn try_push(&mut self, value: T) -> (r: bool)
        requires
            old(self).wf(),
        ensures
            final(self).wf(),
            final(self).spec_capacity() == old(self).spec_capacity(),
            r <==> old(self)@.len() < old(self).spec_capacity(),
            r ==> final(self)@ == old(self)@.push(value),
            r ==> final(self).spec_pushes() == old(self).spec_pushes() + 1,
            r ==> final(self).spec_pops() == old(self).spec_pops(),
            !r ==> *final(self) == *old(self),
    {
        if self.len >= self.capacity {
            return false;
        }
        let pos = self.start + self.len;
        let idx = if pos >= self.capacity {
            pos - self.capacity
        } else {
            pos
        };
        self.slots[idx] = Some(value);
        self.len += 1;
        proof {
            self.pushes@ = self.pushes@ + 1;
            assert(self@ =~= old(self)@.push(value));
        }
        true
    }

    /// Remove and return the oldest pending element, or `None` when empty.
    pub fn try_pop(&mut self) -> (r: Option<T>)
        requires
            old(self).wf(),
        ensures
            final(self).wf(),
            final(self).spec_capacity() == old(self).spec_capacity(),
            old(self)@.len() == 0 ==> r is None && *final(self) == *old(self),
            old(self)@.len() > 0 ==> {
                &&& r == Some(old(self)@[0])
                &&& final(self)@ == old(self)@.subrange(1, old(self)@.len() as int)
                &&& final(self).spec_pops() == old(self).spec_pops() + 1
                &&& final(self).spec_pushes() == old(self).spec_pushes()
            },
    {
        if self.len == 0 {
            return None;
        }
        let value = self.slots[self.start].take();
        self.start = if self.start + 1 >= self.capacity {
            0
        } else {
            self.start + 1
        };
        self.len -= 1;
        proof {
            self.pops@ = self.pops@ + 1;
            assert forall|i: int| 0 <= i < self.len implies (#[trigger] self.slots@[ring_slot(
                self.start as int,
                i,
                self.capacity as int,
            )]) is Some by {
                assert(ring_slot(self.start as int, i, self.capacity as int) == ring_slot(
                    old(self).start as int,
                    i + 1,
                    self.capacity as int,
                ));
                assert(old(self).slots@[ring_slot(
                    old(self).start as int,
                    i + 1,
                    self.capacity as int,
                )] is Some);
            }
            assert(self@ =~= old(self)@.subrange(1, old(self)@.len() as int));
        }
        value
    }

    /// The fixed capacity the buffer was created with.
    pub fn capacity(&self) -> (r: usize)
        ensures
            r == self.spec_capacity(),
    {
        self.capacity
    }

    /// Number of pending elements.
    pub fn len(&self) -> (r: usize)
        requires
            self.wf(),
        ensures
            r == self@.len(),
    {
        self.len
    }

    /// True iff no element is pending.
    pub fn is_empty(&self) -> (r: bool)
        requires
            self.wf(),
        ensures
            r <==> self@.len() == 0,
    {
        self.len == 0
    }
}

/// At every observation of a well-formed buffer, the number of completed
/// pops is at most the number of accepted pushes, and their difference (the
/// pending length) never exceeds the capacity.
pub proof fn lemma_ring_occupancy<T>(r: &LockFreeRingBuffer<T>)
    requires
        r.wf(),
    ensures
        r.spec_pops() <= r.spec_pushes(),
        r.spec_pushes() - r.spec_pops() <= r.spec_capacity(),
        r.spec_pushes() - r.spec_pops() == r@.len(),
{
}

/// A well-formed buffer's capacity is a power of two and small enough that
/// twice of it still fits a `usize`.
pub proof fn lemma_ring_capacity<T>(r: &LockFreeRingBuffer<T>)
    requires
        r.wf(),
    ensures
        is_pow2(r.spec_capacity()),
        r.spec_capacity() <= usize::MAX / 2,
{
}

/// Doubling a power of two gives a power of two.
pub proof fn lemma_is_pow2_double(n: nat)
    requires
        is_pow2(n),
    ensures
        is_pow2(2 * n),
{
    assert((2 * n) % 2 == 0);
    assert((2 * n) / 2 == n);
}

/// Elements are observed in push order: when the pending sequence is `s`,
/// the pop after `k` earlier pops returns `s[k]`, for every `k` within the
/// pending length.
pub proof fn lemma_fifo_order<T>(s: Seq<T>, k: int)
    requires
        0 <= k < s.len(),
    ensures
        s.skip(k).first() == s[k],
{
}

} // verus!
