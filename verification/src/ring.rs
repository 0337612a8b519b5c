//! A fixed-capacity FIFO ring buffer with a dropped-item counter.
//!
//! Capacity is fixed at construction and must be a power of two, so that
//! wrapping an index is a single mask with `capacity - 1`. Items occupy the
//! circular range `[read, read + length)` modulo the capacity; a push into a
//! full ring fails and only bumps the dropped-item counter.

use vstd::arithmetic::div_mod::lemma_mod_multiples_vanish;
use vstd::arithmetic::div_mod::lemma_small_mod;
use vstd::prelude::*;

verus! {

/// Why a push was refused.
#[derive(Debug)]
pub enum PushError {
    RingIsFull,
}

/// Holds when `n` is a power of two.
pub open spec fn is_pow2(n: usize) -> bool {
    n != 0 && n & ((n - 1) as usize) == 0
}

/// Masking with `cap - 1` reduces an index modulo `cap` when `cap` is a
/// power of two. By induction on `i`: below `cap` the mask keeps `i` as
/// it is, and subtracting `cap` from a larger `i` changes neither the
/// masked value nor the remainder.
proof fn lemma_pow2_mask(cap: usize, i: usize)
    requires
        is_pow2(cap),
    ensures
        i & ((cap - 1) as usize) == i as int % cap as int,
    decreases i,
{
    if i < cap {
        assert((cap != 0 && cap & ((cap - 1) as usize) == 0 && i < cap) ==> i & ((cap
            - 1) as usize) == i) by (bit_vector);
        lemma_small_mod(i as nat, cap as nat);
    } else {
        assert((cap != 0 && cap & ((cap - 1) as usize) == 0 && i >= cap) ==> ((i
            - cap) as usize) & ((cap - 1) as usize) == i & ((cap - 1) as usize)) by (bit_vector);
        lemma_pow2_mask(cap, (i - cap) as usize);
        lemma_mod_multiples_vanish(1, i - cap, cap as int);
    }
}

/// A bounded FIFO container over a circular slot array.
pub struct RingBuffer<T> {
    queue: Vec<Option<T>>,
    /// Number of items refused because the ring was full.
    dropped: usize,
    /// Slot of the oldest live item.
    read: usize,
    /// Number of live items.
    length: usize,
    /// Number of slots; a power of two.
    cap: usize,
}

impl<T> RingBuffer<T> {
    /// Number of slots, as a mathematical integer.
    pub closed spec fn spec_capacity(self) -> int {
        self.cap as int
    }

    /// The dropped-item count, as a mathematical integer.
    pub closed spec fn spec_dropped(self) -> int {
        self.dropped as int
    }

    /// Forward distance from the read cursor to slot `j` around the ring.
    spec fn dist(self, j: int) -> int {
        if j >= self.read { j - self.read } else { j + self.cap - self.read }
    }

    /// The slot holding the `k`-th oldest live item.
    spec fn slot_of(self, k: int) -> int {
        if self.read + k < self.cap { self.read + k } else { self.read + k - self.cap }
    }

    /// Validity of the capacity alone: a power of two, small enough that an
    /// index below twice the capacity cannot overflow.
    pub closed spec fn cap_wf(self) -> bool {
        is_pow2(self.cap) && self.cap <= usize::MAX / 2
    }

    /// Structural validity: the slot array has exactly `cap` slots, cursors
    /// are in range, and a slot is occupied exactly when it lies in the live
    /// circular range `[read, read + length)`.
    pub closed spec fn wf(self) -> bool {
        &&& self.cap_wf()
        &&& self.queue@.len() == self.cap
        &&& self.read < self.cap
        &&& self.length <= self.cap
        &&& forall|j: int| #![trigger self.queue@[j]]
            0 <= j < self.cap ==> (self.queue@[j] is Some <==> self.dist(j) < self.length)
    }
}

impl<T> View for RingBuffer<T> {
    type V = Seq<T>;

    /// The live items, oldest first.
    closed spec fn view(&self) -> Seq<T> {
        Seq::new(self.length as nat, |k: int| self.queue@[self.slot_of(k)]->0)
    }
}

impl<T> RingBuffer<T> {
    /// Make an empty ring of `capacity` slots. The capacity must be a
    /// power of two, so that wrapping an index is a single mask; any other
    /// capacity is a construction-time fault and is excluded here.
    pub fn new(capacity: usize) -> (r: Self)
        requires
            is_pow2(capacity),
            capacity <= usize::MAX / 2,
        ensures
            r.wf(),
            r@ == Seq::<T>::empty(),
            r.spec_capacity() == capacity,
            r.spec_dropped() == 0,
    {
        let mut queue: Vec<Option<T>> = Vec::new();
        let mut i: usize = 0;
        while i < capacity
            invariant
                i <= capacity,
                queue@.len() == i,
                forall|j: int| #![trigger queue@[j]] 0 <= j < i ==> queue@[j] is None,
            decreases capacity - i,
        {
            queue.push(None);
            i = i + 1;
        }
        let r = Self { queue, dropped: 0, read: 0, length: 0, cap: capacity };
        proof {
            assert(r@ =~= Seq::<T>::empty());
        }
        r
    }

    /// Wrap an index into the slot range: masking with `capacity - 1` is
    /// reduction modulo the capacity, the capacity being a power of two.
    pub fn mask(&self, i: usize) -> (r: usize)
        requires
            self.cap_wf(),
        ensures
            r == i as int % self.spec_capacity(),
            r < self.spec_capacity(),
            i < self.spec_capacity() ==> r == i,
            self.spec_capacity() <= i < 2 * self.spec_capacity() ==> r == i - self.spec_capacity(),
    {
        proof {
            lemma_pow2_mask(self.cap, i);
            if i < self.cap {
                lemma_small_mod(i as nat, self.cap as nat);
            } else if i < 2 * self.cap {
                lemma_mod_multiples_vanish(1, i - self.cap, self.cap as int);
                lemma_small_mod((i - self.cap) as nat, self.cap as nat);
            }
        }
        i & (self.cap - 1)
    }

    /// Append `item` as the newest element. A push into a full ring refuses
    /// the item, leaves every slot as it was, and bumps the dropped count
    /// (which saturates at the machine limit).
    pub fn push(&mut self, item: T) -> (r: Result<(), PushError>)
        requires
            old(self).wf(),
        ensures
            final(self).wf(),
            final(self).spec_capacity() == old(self).spec_capacity(),
            r is Err <==> old(self)@.len() == old(self).spec_capacity(),
            r is Err ==> final(self)@ == old(self)@ && final(self).spec_dropped() == (
            if old(self).spec_dropped() < usize::MAX { old(self).spec_dropped() + 1 } else {
                old(self).spec_dropped()
            }),
            r is Ok ==> final(self)@ == old(self)@.push(item) && final(self).spec_dropped()
                == old(self).spec_dropped(),
    {
        if self.is_full() {
            if self.dropped < usize::MAX {
                self.dropped = self.dropped + 1;
            }
            return Err(PushError::RingIsFull);
        }

        let idx = self.mask(self.read + self.length);
        self.queue[idx] = Some(item);
        self.length = self.length + 1;

        proof {
            assert(final(self)@ =~= old(self)@.push(item));
        }
        Ok(())
    }

    /// Remove and return the oldest item, or nothing when the ring is empty.
    pub fn pop(&mut self) -> (r: Option<T>)
        requires
            old(self).wf(),
        ensures
            final(self).wf(),
            final(self).spec_capacity() == old(self).spec_capacity(),
            final(self).spec_dropped() == old(self).spec_dropped(),
            r is Some <==> old(self)@.len() > 0,
            old(self)@.len() == 0 ==> final(self)@ == old(self)@,
            old(self)@.len() > 0 ==> r == Some(old(self)@[0]) && final(self)@ == old(
                self,
            )@.subrange(1, old(self)@.len() as int),
    {
        if self.is_empty() {
            return None;
        }

        let idx = self.mask(self.read);
        let mut taken: Option<T> = None;
        core::mem::swap(&mut taken, &mut self.queue[idx]);

        self.read = self.mask(idx + 1);
        self.length = self.length - 1;

        proof {
            assert(final(self)@ =~= old(self)@.subrange(1, old(self)@.len() as int));
        }
        taken
    }

    /// Whether every slot holds a live item.
    pub fn is_full(&self) -> (r: bool)
        requires
            self.wf(),
        ensures
            r <==> self@.len() == self.spec_capacity(),
    {
        self.length == self.cap
    }

    /// Whether no slot holds a live item.
    pub fn is_empty(&self) -> (r: bool)
        requires
            self.wf(),
        ensures
            r <==> self@.len() == 0,
    {
        self.length == 0
    }

    /// The number of items currently stored, not to be confused with
    /// `capacity`, the most the ring can hold.
    pub fn len(&self) -> (r: usize)
        requires
            self.wf(),
        ensures
            r == self@.len(),
    {
        self.length
    }

    /// The number of slots.
    pub fn capacity(&self) -> (r: usize)
        requires
            self.wf(),
        ensures
            r == self.spec_capacity(),
    {
        self.cap
    }

    /// How many pushes were refused because the ring was full.
    pub fn dropped_count(&self) -> (r: usize)
        requires
            self.wf(),
        ensures
            r == self.spec_dropped(),
    {
        self.dropped
    }

    /// Record one item refused because the ring was full, exactly as a
    /// failing push does to the counter, without taking the item: for a
    /// caller that must hand the refused item back rather than destroy
    /// it.
    pub fn count_dropped(&mut self)
        requires
            old(self).wf(),
            old(self)@.len() == old(self).spec_capacity(),
        ensures
            final(self).wf(),
            final(self)@ == old(self)@,
            final(self).spec_capacity() == old(self).spec_capacity(),
            final(self).spec_dropped() == (if old(self).spec_dropped() < usize::MAX {
                old(self).spec_dropped() + 1
            } else {
                old(self).spec_dropped()
            }),
    {
        if self.dropped < usize::MAX {
            self.dropped = self.dropped + 1;
        }
    }

    /// Law: a valid ring never holds more items than its capacity,
    /// whatever sequence of pushes and pops produced it.
    pub proof fn lemma_len_le_capacity(self)
        requires
            self.wf(),
        ensures
            self@.len() <= self.spec_capacity(),
    {
    }

    /// Pop and discard every live item and rewind the read cursor.
    pub fn clear(&mut self)
        requires
            old(self).wf(),
        ensures
            final(self).wf(),
            final(self).spec_capacity() == old(self).spec_capacity(),
            final(self).spec_dropped() == old(self).spec_dropped(),
            final(self)@ == Seq::<T>::empty(),
    {
        loop
            invariant
                self.wf(),
                self.spec_capacity() == old(self).spec_capacity(),
                self.spec_dropped() == old(self).spec_dropped(),
            ensures
                self@.len() == 0,
            decreases self@.len(),
        {
            if self.pop().is_none() {
                break;
            }
        }
        self.read = 0;
        proof {
            assert(final(self)@ =~= Seq::<T>::empty());
        }
    }
}

} // verus!
