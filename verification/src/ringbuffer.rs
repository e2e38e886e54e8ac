//! A fixed-capacity circular queue with one producer and one consumer.
//!
//! The queue never allocates and every operation takes constant time. Its
//! abstract value is the sequence of queued entries, oldest first.

use vstd::prelude::*;

verus! {

/// The error of [`RingBuffer::put`] on a ring that already holds `SIZE` entries.
#[derive(Clone, Copy, Debug, PartialEq, Eq)]
pub struct Full;

/// A circular queue of at most `SIZE` entries.
#[derive(Debug)]
pub struct RingBuffer<T, const SIZE: usize> {
    take_index: usize,
    put_index: usize,
    length: usize,
    entries: [T; SIZE],
}

impl<T: Copy, const SIZE: usize> Copy for RingBuffer<T, SIZE> {

}

impl<T: Copy, const SIZE: usize> Clone for RingBuffer<T, SIZE> {
    /// A ring of its own with the same entries.
    fn clone(&self) -> (copy: Self)
        ensures
            copy == *self,
    {
        *self
    }
}

/// The position `offset` places after `start` on a circle of `size` places,
/// for `start < size` and `offset <= size`.
pub open spec fn wrapped(start: int, offset: int, size: int) -> int {
    if start + offset < size {
        start + offset
    } else {
        start + offset - size
    }
}

/// What a ring of capacity `capacity` holds after an attempt to put `entry`
/// into one that held `queue`.
pub open spec fn after_put<T>(queue: Seq<T>, capacity: nat, entry: T) -> Seq<T> {
    if queue.len() < capacity {
        queue.push(entry)
    } else {
        queue
    }
}

/// What a ring holds after an attempt to take from one that held `queue`.
pub open spec fn after_take<T>(queue: Seq<T>) -> Seq<T> {
    if queue.len() > 0 {
        queue.skip(1)
    } else {
        queue
    }
}

/// What an attempt to take from a ring that holds `queue` returns.
pub open spec fn taken_from<T>(queue: Seq<T>) -> Option<T> {
    if queue.len() > 0 {
        Some(queue[0])
    } else {
        None
    }
}

impl<T, const SIZE: usize> View for RingBuffer<T, SIZE> {
    type V = Seq<T>;

    /// The queued entries, oldest first.
    closed spec fn view(&self) -> Seq<T> {
        Seq::new(
            self.length as nat,
            |i: int| self.entries@[wrapped(self.take_index as int, i, SIZE as int)],
        )
    }
}

impl<T, const SIZE: usize> RingBuffer<T, SIZE> {
    /// The cursors and the count agree with each other and with the capacity.
    pub closed spec fn wf(&self) -> bool {
        &&& self.length <= SIZE
        &&& SIZE == 0 ==> self.take_index == 0 && self.put_index == 0
        &&& SIZE > 0 ==> self.take_index < SIZE && self.put_index < SIZE
        &&& SIZE > 0 ==> self.put_index as int == wrapped(
            self.take_index as int,
            self.length as int,
            SIZE as int,
        )
    }

    /// A well-formed ring never holds more than `SIZE` entries.
    pub proof fn lemma_len_bounded(&self)
        requires
            self.wf(),
        ensures
            self@.len() <= SIZE,
    {
    }
}

proof fn lemma_next_index(index: usize, size: usize)
    requires
        index < size,
    ensures
        (index + 1) % (size as int) == if index + 1 < size {
            index + 1
        } else {
            0
        },
{
    if index + 1 < size {
        vstd::arithmetic::div_mod::lemma_small_mod((index + 1) as nat, size as nat);
    } else {
        vstd::arithmetic::div_mod::lemma_mod_self_0(size as int);
    }
}

impl<T: Default + Copy, const SIZE: usize> RingBuffer<T, SIZE> {
    /// A ring that holds nothing.
    pub fn empty() -> (ring: Self)
        ensures
            ring.wf(),
            ring@ == Seq::<T>::empty(),
    {
        Self { take_index: 0, put_index: 0, length: 0, entries: [T::default();SIZE] }
    }

    /// A ring that holds `entries`, the first of them oldest.
    pub fn from_slice(entries: &[T]) -> (ring: Self)
        requires
            entries@.len() <= SIZE,
        ensures
            ring.wf(),
            ring@ == entries@,
    {
        let mut ring = Self::empty();
        let mut i: usize = 0;
        while i < entries.len()
            invariant
                i <= entries@.len() <= SIZE,
                ring.wf(),
                ring@ == entries@.take(i as int),
            decreases entries@.len() - i,
        {
            let put = ring.put(entries[i]);
            assert(put is Ok);
            i += 1;
        }
        ring
    }
}

impl<T: Copy, const SIZE: usize> RingBuffer<T, SIZE> {
    /// The number of queued entries.
    pub fn len(&self) -> (n: usize)
        requires
            self.wf(),
        ensures
            n == self@.len(),
            n <= SIZE,
    {
        self.length
    }

    /// Whether the ring holds `SIZE` entries.
    pub fn is_full(&self) -> (full: bool)
        requires
            self.wf(),
        ensures
            full == (self@.len() == SIZE),
    {
        self.len() == SIZE
    }

    /// Whether the ring holds nothing.
    pub fn is_empty(&self) -> (empty: bool)
        requires
            self.wf(),
        ensures
            empty == (self@.len() == 0),
    {
        self.len() == 0
    }

    /// Removes and returns the oldest entry. On an empty ring it returns
    /// `None` and changes nothing.
    pub fn take(&mut self) -> (entry: Option<T>)
        requires
            old(self).wf(),
        ensures
            final(self).wf(),
            entry == taken_from(old(self)@),
            final(self)@ == after_take(old(self)@),
            old(self)@.len() == 0 ==> *final(self) == *old(self),
    {
        if self.is_empty() {
            None
        } else {
            let entry = self.entries[self.take_index];
            proof {
                lemma_next_index(self.take_index, SIZE);
            }
            self.take_index = (self.take_index + 1) % SIZE;
            self.length -= 1;
            Some(entry)
        }
    }

    /// Appends `entry` as the newest. On a full ring it returns `Err(Full)`
    /// and changes nothing.
    pub fn put(&mut self, entry: T) -> (put: Result<(), Full>)
        requires
            old(self).wf(),
        ensures
            final(self).wf(),
            put is Ok <==> old(self)@.len() < SIZE,
            final(self)@ == after_put(old(self)@, SIZE as nat, entry),
            put is Err ==> *final(self) == *old(self),
    {
        if self.is_full() {
            Err(Full)
        } else {
            proof {
                lemma_next_index(self.put_index, SIZE);
            }
            self.entries[self.put_index] = entry;
            self.put_index = (self.put_index + 1) % SIZE;
            self.length += 1;
            Ok(())
        }
    }
}

/// One attempt on a ring: to put an entry, or to take one.
pub enum RingOp<T> {
    Put(T),
    Take,
}

/// What a run of attempts has done to a ring that started empty.
pub struct RingHistory<T> {
    /// What the ring holds now.
    pub queue: Seq<T>,
    /// Every entry that a put was accepted for, in the order of the puts.
    pub accepted: Seq<T>,
    /// Every entry that a take returned, in the order of the takes.
    pub taken: Seq<T>,
}

/// The history of a ring of capacity `capacity` that started empty and then
/// saw the attempts `ops`, in order.
pub open spec fn ring_run<T>(capacity: nat, ops: Seq<RingOp<T>>) -> RingHistory<T>
    decreases ops.len(),
{
    if ops.len() == 0 {
        RingHistory { queue: Seq::empty(), accepted: Seq::empty(), taken: Seq::empty() }
    } else {
        let before = ring_run(capacity, ops.drop_last());
        match ops.last() {
            RingOp::Put(entry) => RingHistory {
                queue: after_put(before.queue, capacity, entry),
                accepted: if before.queue.len() < capacity {
                    before.accepted.push(entry)
                } else {
                    before.accepted
                },
                taken: before.taken,
            },
            RingOp::Take => RingHistory {
                queue: after_take(before.queue),
                accepted: before.accepted,
                taken: match taken_from(before.queue) {
                    Some(entry) => before.taken.push(entry),
                    None => before.taken,
                },
            },
        }
    }
}

/// Whatever attempts are made on a ring, in whatever order, it never holds
/// more entries than its capacity.
pub proof fn lemma_count_within_capacity<T>(capacity: nat, ops: Seq<RingOp<T>>)
    ensures
        ring_run(capacity, ops).queue.len() <= capacity,
    decreases ops.len(),
{
    if ops.len() > 0 {
        lemma_count_within_capacity(capacity, ops.drop_last());
    }
}

/// First in, first out: whatever attempts are made on a ring, the entries
/// taken so far, followed by the entries still queued, are exactly the
/// entries accepted so far, in the order in which they were accepted.
/// Nothing is lost, repeated or reordered.
pub proof fn lemma_fifo<T>(capacity: nat, ops: Seq<RingOp<T>>)
    ensures
        ring_run(capacity, ops).taken + ring_run(capacity, ops).queue == ring_run(
            capacity,
            ops,
        ).accepted,
    decreases ops.len(),
{
    if ops.len() > 0 {
        lemma_fifo(capacity, ops.drop_last());
    }
}

} // verus!
