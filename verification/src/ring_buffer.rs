//! A fixed-capacity first-in, first-out buffer over a circular array.
//!
//! One slot is kept free to tell a full buffer from an empty one, so a
//! buffer of capacity `c` holds at most `c - 1` items.

use vstd::prelude::*;
use vstd::arithmetic::div_mod::{lemma_mod_multiples_vanish, lemma_small_mod};

verus! {

/// Reduces an index that wrapped at most once around a ring of size `m`.
proof fn lemma_ring_mod(x: int, m: int)
    requires
        0 < m,
        0 <= x < 2 * m,
    ensures
        x % m == (if x < m {
            x
        } else {
            x - m
        }),
{
    if x < m {
        lemma_small_mod(x as nat, m as nat);
    } else {
        lemma_mod_multiples_vanish(1, x - m, m);
        lemma_small_mod((x - m) as nat, m as nat);
    }
}

/// A bounded queue over a circular array: items enter at `tail` and leave
/// at `head`.
#[derive(Debug)]
pub struct RingBuffer<T> {
    buffer: Vec<Option<T>>,
    head: usize,
    tail: usize,
    capacity: usize,
}

impl<T: Copy> RingBuffer<T> {
    /// The bound the buffer was created with.
    pub closed spec fn cap(self) -> int {
        self.capacity as int
    }

    /// How many items the buffer holds.
    pub closed spec fn len_spec(self) -> int {
        if self.tail >= self.head {
            self.tail - self.head
        } else {
            self.tail + self.capacity - self.head
        }
    }

    /// The buffer's internal invariant: indices stay inside the array, and
    /// every occupied slot holds an item.
    pub closed spec fn wf(self) -> bool {
        &&& 1 <= self.capacity
        &&& self.buffer@.len() == self.capacity
        &&& self.head < self.capacity
        &&& self.tail < self.capacity
        &&& forall|j: int|
            0 <= j < self.len_spec() ==> #[trigger] self.buffer@[(self.head + j) % (
            self.capacity as int)] is Some
    }

    /// The queued items, oldest first.
    pub closed spec fn contents(self) -> Seq<T> {
        Seq::new(
            self.len_spec() as nat,
            |j: int| self.buffer@[(self.head + j) % (self.capacity as int)].unwrap(),
        )
    }

    /// A well-formed buffer never holds more than one item less than its
    /// bound: one slot always stays free.  This is what makes a failing
    /// `push` the same thing as a full buffer.
    pub proof fn lemma_occupancy_bound(self)
        requires
            self.wf(),
        ensures
            self.contents().len() <= self.cap() - 1,
    {
    }

    /// An empty buffer that can hold up to `capacity - 1` items.
    pub fn new(capacity: usize) -> (r: RingBuffer<T>)
        requires
            capacity >= 1,
        ensures
            r.wf(),
            r.cap() == capacity,
            r.contents() == Seq::<T>::empty(),
    {
        let mut buffer: Vec<Option<T>> = Vec::new();
        let mut i: usize = 0;
        while i < capacity
            invariant
                i <= capacity,
                buffer@.len() == i,
            decreases capacity - i,
        {
            buffer.push(None);
            i = i + 1;
        }
        let r = RingBuffer { buffer, head: 0, tail: 0, capacity };
        proof {
            assert(r.contents() =~= Seq::<T>::empty());
        }
        r
    }

    /// Appends an item at the tail; a full buffer rejects it unchanged.
    pub fn push(&mut self, item: T) -> (r: Result<(), ()>)
        requires
            old(self).wf(),
        ensures
            final(self).wf(),
            final(self).cap() == old(self).cap(),
            r is Ok <==> old(self).contents().len() < old(self).cap() - 1,
            r is Err <==> old(self).contents().len() == old(self).cap() - 1,
            r is Ok ==> final(self).contents() == old(self).contents().push(item),
            r is Err ==> final(self).contents() == old(self).contents(),
    {
        proof {
            lemma_ring_mod(self.tail + 1, self.capacity as int);
        }
        if (self.tail + 1) % self.capacity == self.head {
            return Err(());
        }
        let ghost prior = *self;
        self.buffer.set(self.tail, Some(item));
        self.tail = (self.tail + 1) % self.capacity;
        proof {
            let cap = self.capacity as int;
            assert forall|j: int|
                0 <= j < self.len_spec() implies #[trigger] self.buffer@[(self.head + j)
                % cap] is Some by {
                lemma_ring_mod(self.head + j, cap);
                if j < self.len_spec() - 1 {
                    lemma_ring_mod(prior.head + j, cap);
                    assert(prior.buffer@[(prior.head + j) % cap] is Some);
                }
            }
            assert forall|j: int|
                0 <= j < self.len_spec() implies self.contents()[j] == old(self).contents().push(
                item,
            )[j] by {
                lemma_ring_mod(self.head + j, cap);
                if j < self.len_spec() - 1 {
                    lemma_ring_mod(prior.head + j, cap);
                }
            }
            assert(self.contents() =~= old(self).contents().push(item));
        }
        Ok(())
    }

    /// Removes and returns the oldest item; an empty buffer reports a
    /// failure instead.
    pub fn pop(&mut self) -> (r: Result<T, ()>)
        requires
            old(self).wf(),
        ensures
            final(self).wf(),
            final(self).cap() == old(self).cap(),
            r is Ok <==> old(self).contents().len() > 0,
            r matches Ok(item) ==> item == old(self).contents()[0] && final(self).contents()
                == old(self).contents().drop_first(),
            r is Err ==> final(self).contents() == old(self).contents(),
    {
        if self.head == self.tail {
            return Err(());
        }
        let ghost prior = *self;
        proof {
            lemma_small_mod(self.head as nat, self.capacity as nat);
            assert(prior.buffer@[(prior.head + 0) % (prior.capacity as int)] is Some);
        }
        let slot = self.buffer[self.head];
        self.head = (self.head + 1) % self.capacity;
        proof {
            lemma_ring_mod(prior.head + 1, prior.capacity as int);
            let cap = self.capacity as int;
            assert forall|j: int|
                0 <= j < self.len_spec() implies #[trigger] self.buffer@[(self.head + j)
                % cap] is Some by {
                lemma_ring_mod(self.head + j, cap);
                lemma_ring_mod(prior.head + (j + 1), cap);
                assert(prior.buffer@[(prior.head + (j + 1)) % cap] is Some);
            }
            assert forall|j: int|
                0 <= j < self.len_spec() implies self.contents()[j] == prior.contents().drop_first()[j]
                by {
                lemma_ring_mod(self.head + j, cap);
                lemma_ring_mod(prior.head + (j + 1), cap);
            }
            assert(self.contents() =~= prior.contents().drop_first());
        }
        match slot {
            Some(item) => Ok(item),
            None => Err(()),
        }
    }

    /// Whether the buffer holds nothing.
    pub fn is_empty(&self) -> (r: bool)
        requires
            self.wf(),
        ensures
            r == (self.contents().len() == 0),
    {
        self.head == self.tail
    }

    /// Whether the buffer holds as much as it can.
    pub fn is_full(&self) -> (r: bool)
        requires
            self.wf(),
        ensures
            r == (self.contents().len() == self.cap() - 1),
    {
        proof {
            lemma_ring_mod(self.tail + 1, self.capacity as int);
        }
        (self.tail + 1) % self.capacity == self.head
    }
}

} // verus!
