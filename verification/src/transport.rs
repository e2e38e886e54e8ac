//! The split-ring transport of one direction: a ring of free slots, a ring
//! of used slots, and the pool of frame buffers that both rings index.
//!
//! A slot has no owner field. Who may touch it follows from where its index
//! is: in the free ring, in the used ring, or in the hand of the party that
//! took it from one ring and has not yet put it into the other.

use vstd::prelude::*;
use crate::frame::{frame_as_slice, frame_bytes, frame_clear, frame_clone, frame_extend_from_slice, Buf};
use crate::ringbuffer::RingBuffer;
use crate::MTU;

verus! {

/// An entry of a ring: a slot of the pool and a number of bytes. In the used
/// ring the number is the length of the frame that the slot holds; in the
/// free ring it is the room that the slot offers.
#[derive(Clone, Copy, Debug, PartialEq, Eq, Structural)]
pub struct Descriptor {
    pub index: usize,
    pub length: usize,
}

impl Default for Descriptor {
    fn default() -> (descriptor: Self)
        ensures
            descriptor == (Descriptor { index: 0, length: 0 }),
    {
        Descriptor { index: 0, length: 0 }
    }
}

/// The error of [`Direction::publish`] for a frame of more than `MTU` bytes.
#[derive(Clone, Copy, Debug, PartialEq, Eq)]
pub struct TooLong {
    /// The length of the frame that was refused.
    pub length: usize,
}

/// The slots `0 .. n`.
pub open spec fn all_slots(n: nat) -> Set<usize> {
    Set::new(|slot: usize| slot < n)
}

/// There are exactly `n` slots below `n`.
pub proof fn lemma_all_slots(n: nat)
    requires
        n <= usize::MAX + 1,
    ensures
        all_slots(n).finite(),
        all_slots(n).len() == n,
    decreases n,
{
    if n == 0 {
        assert(all_slots(0) =~= Set::empty());
    } else {
        lemma_all_slots((n - 1) as nat);
        assert(all_slots(n) =~= all_slots((n - 1) as nat).insert((n - 1) as usize));
    }
}

/// The state of one direction, as mathematics.
pub struct DirectionView {
    /// The free ring, oldest entry first.
    pub free: Seq<Descriptor>,
    /// The used ring, oldest entry first.
    pub used: Seq<Descriptor>,
    /// The slots in flight: taken from a ring and not yet put into one.
    pub held: Set<usize>,
    /// What each slot of the pool holds.
    pub frames: Seq<Seq<u8>>,
}

impl DirectionView {
    /// A direction before anyone has set it up: both rings are empty, no
    /// slot has been handed to a ring yet, and the buffers hold `frames`.
    pub open spec fn unassigned(frames: Seq<Seq<u8>>) -> DirectionView {
        DirectionView {
            free: Seq::empty(),
            used: Seq::empty(),
            held: all_slots(frames.len()),
            frames,
        }
    }

    /// A direction of `n` slots as its producer sets it up: the free ring
    /// holds every slot in rising order, the used ring is empty, and so is
    /// every buffer.
    pub open spec fn fresh(n: nat) -> DirectionView {
        DirectionView {
            free: Seq::new(n, |i: int| Descriptor { index: i as usize, length: MTU }),
            used: Seq::empty(),
            held: Set::empty(),
            frames: Seq::new(n, |i: int| Seq::empty()),
        }
    }

    /// The number of slots.
    pub open spec fn slots(self) -> nat {
        self.frames.len()
    }

    /// The slots that wait in the free ring, oldest first.
    pub open spec fn free_slots(self) -> Seq<usize> {
        self.free.map_values(|d: Descriptor| d.index)
    }

    /// The slots that wait in the used ring, oldest first.
    pub open spec fn used_slots(self) -> Seq<usize> {
        self.used.map_values(|d: Descriptor| d.index)
    }

    /// A descriptor as the free ring may hold it: a slot of the pool that is
    /// not in flight, offering `MTU` bytes of room.
    pub open spec fn free_entry(self, d: Descriptor) -> bool {
        &&& d.index < self.slots()
        &&& !self.held.contains(d.index)
        &&& d.length == MTU
    }

    /// A descriptor as the used ring may hold it: a slot of the pool that is
    /// not in flight, with the length of the frame that the slot holds.
    pub open spec fn used_entry(self, d: Descriptor) -> bool {
        &&& d.index < self.slots()
        &&& !self.held.contains(d.index)
        &&& d.length == self.frames[d.index as int].len()
        &&& d.length <= MTU
    }

    /// Slot conservation: every slot is in the free ring, in the used ring or
    /// in flight, and in one place only. The rings name slots of the pool,
    /// none of them twice, and a used descriptor gives the length of its
    /// frame.
    pub open spec fn wf(self) -> bool {
        &&& self.held.finite()
        &&& self.free.len() + self.used.len() + self.held.len() == self.slots()
        &&& forall|slot: usize| self.held.contains(slot) ==> slot < self.slots()
        &&& forall|i: int| 0 <= i < self.free.len() ==> self.free_entry(#[trigger] self.free[i])
        &&& forall|i: int| 0 <= i < self.used.len() ==> self.used_entry(#[trigger] self.used[i])
        &&& forall|i: int, j: int|
            0 <= i < j < self.free.len() ==> (#[trigger] self.free[i]).index != (
            #[trigger] self.free[j]).index
        &&& forall|i: int, j: int|
            0 <= i < j < self.used.len() ==> (#[trigger] self.used[i]).index != (
            #[trigger] self.used[j]).index
        &&& forall|i: int, j: int|
            0 <= i < self.free.len() && 0 <= j < self.used.len() ==> (
            #[trigger] self.free[i]).index != (#[trigger] self.used[j]).index
    }

    /// The slot that [`Direction::acquire`] hands out: the oldest of the free
    /// ring, if there is one.
    pub open spec fn next_free(self) -> Option<usize> {
        if self.free.len() > 0 {
            Some(self.free[0].index)
        } else {
            None
        }
    }

    /// The state after [`Direction::acquire`]: the oldest free slot, if there
    /// is one, has gone from the free ring into flight.
    pub open spec fn after_acquire(self) -> DirectionView {
        if self.free.len() > 0 {
            DirectionView {
                free: self.free.skip(1),
                held: self.held.insert(self.free[0].index),
                ..self
            }
        } else {
            self
        }
    }

    /// The state after [`Direction::publish`] of `bytes` in `slot`: the slot
    /// holds the bytes, and has gone from flight to the end of the used ring
    /// under a descriptor with their length.
    pub open spec fn after_publish(self, slot: usize, bytes: Seq<u8>) -> DirectionView {
        DirectionView {
            used: self.used.push(Descriptor { index: slot, length: bytes.len() as usize }),
            held: self.held.remove(slot),
            frames: self.frames.update(slot as int, bytes),
            ..self
        }
    }

    /// The descriptor that [`Direction::take_used`] hands out: the oldest of
    /// the used ring, if there is one.
    pub open spec fn next_used(self) -> Option<Descriptor> {
        if self.used.len() > 0 {
            Some(self.used[0])
        } else {
            None
        }
    }

    /// The state after [`Direction::take_used`]: the oldest used slot, if
    /// there is one, has gone from the used ring into flight.
    pub open spec fn after_take_used(self) -> DirectionView {
        if self.used.len() > 0 {
            DirectionView {
                used: self.used.skip(1),
                held: self.held.insert(self.used[0].index),
                ..self
            }
        } else {
            self
        }
    }

    /// The state after [`Direction::release`] of `slot`: it has gone from
    /// flight to the end of the free ring.
    pub open spec fn after_release(self, slot: usize) -> DirectionView {
        DirectionView {
            free: self.free.push(Descriptor { index: slot, length: MTU }),
            held: self.held.remove(slot),
            ..self
        }
    }
}

impl DirectionView {
    /// How often `slot` occurs: each time that the free ring names it, each
    /// time that the used ring names it, and once if it is in flight.
    pub open spec fn places(self, slot: usize) -> nat {
        let in_flight: nat = if self.held.contains(slot) {
            1
        } else {
            0
        };
        self.free_slots().to_multiset().count(slot) + self.used_slots().to_multiset().count(slot)
            + in_flight
    }

    /// Slot conservation: in a well-formed direction every slot of the pool
    /// occurs exactly once, in a ring or in flight, so that none is lost and
    /// none is doubled; and nothing that is not a slot of the pool occurs at
    /// all.
    pub proof fn lemma_conservation(self)
        requires
            self.wf(),
            self.slots() <= usize::MAX + 1,
        ensures
            forall|slot: usize| slot < self.slots() ==> #[trigger] self.places(slot) == 1,
            forall|slot: usize| slot >= self.slots() ==> #[trigger] self.places(slot) == 0,
    {
        let free_slots = self.free_slots();
        let used_slots = self.used_slots();
        // Neither ring names a slot twice, so each names as many slots as it
        // has entries, and a slot occurs in it once or not at all.
        free_slots.unique_seq_to_set();
        used_slots.unique_seq_to_set();
        free_slots.lemma_multiset_has_no_duplicates();
        used_slots.lemma_multiset_has_no_duplicates();
        free_slots.to_multiset_ensures();
        used_slots.to_multiset_ensures();
        let in_free = free_slots.to_set();
        let in_used = used_slots.to_set();
        assert forall|slot: usize| in_free.contains(slot) implies !in_used.contains(slot)
            && !self.held.contains(slot) && slot < self.slots() by {
            let i = choose|i: int| 0 <= i < free_slots.len() && free_slots[i] == slot;
            assert(self.free_entry(self.free[i]));
            if in_used.contains(slot) {
                let j = choose|j: int| 0 <= j < used_slots.len() && used_slots[j] == slot;
                assert(self.free[i].index != self.used[j].index);
            }
        }
        assert forall|slot: usize| in_used.contains(slot) implies !self.held.contains(slot)
            && slot < self.slots() by {
            let j = choose|j: int| 0 <= j < used_slots.len() && used_slots[j] == slot;
            assert(self.used_entry(self.used[j]));
        }
        // The three places are disjoint and hold as many slots as there
        // are, all of them slots of the pool: they hold every one.
        vstd::set_lib::lemma_set_disjoint_lens(in_free, in_used);
        let in_rings = in_free + in_used;
        vstd::set_lib::lemma_set_disjoint_lens(in_rings, self.held);
        let somewhere = in_rings + self.held;
        lemma_all_slots(self.slots());
        vstd::set_lib::lemma_subset_equality(somewhere, all_slots(self.slots()));
        assert forall|slot: usize| slot < self.slots() implies #[trigger] self.places(slot)
            == 1 by {
            assert(somewhere.contains(slot));
        }
        assert forall|slot: usize| slot >= self.slots() implies #[trigger] self.places(slot)
            == 0 by {
            assert(!somewhere.contains(slot));
        }
    }
}

impl DirectionView {
    /// Taking a free slot into flight conserves the slots.
    pub proof fn lemma_acquire_conserves(self)
        requires
            self.wf(),
        ensures
            self.after_acquire().wf(),
            self.after_acquire().slots() == self.slots(),
    {
    }

    /// Publishing a slot that is in flight, with a frame of at most `MTU`
    /// bytes, conserves the slots.
    pub proof fn lemma_publish_conserves(self, slot: usize, bytes: Seq<u8>)
        requires
            self.wf(),
            self.held.contains(slot),
            bytes.len() <= MTU,
        ensures
            self.after_publish(slot, bytes).wf(),
            self.after_publish(slot, bytes).slots() == self.slots(),
    {
    }

    /// Taking a used slot into flight conserves the slots.
    pub proof fn lemma_take_used_conserves(self)
        requires
            self.wf(),
        ensures
            self.after_take_used().wf(),
            self.after_take_used().slots() == self.slots(),
    {
    }

    /// Giving back a slot that is in flight conserves the slots.
    pub proof fn lemma_release_conserves(self, slot: usize)
        requires
            self.wf(),
            self.held.contains(slot),
        ensures
            self.after_release(slot).wf(),
            self.after_release(slot).slots() == self.slots(),
    {
    }

    /// A direction that its producer has just set up conserves its slots.
    pub proof fn lemma_fresh_conserves(n: nat)
        requires
            n <= usize::MAX + 1,
        ensures
            DirectionView::fresh(n).wf(),
            DirectionView::fresh(n).slots() == n,
    {
    }
}

/// One operation on a direction.
pub enum DirectionOp {
    /// Take the oldest free slot into flight.
    Acquire,
    /// Write `frame` into `slot` and put the slot into the used ring.
    Publish { slot: usize, frame: Seq<u8> },
    /// Take the oldest used slot into flight.
    TakeUsed,
    /// Put `slot` back into the free ring.
    Release { slot: usize },
}

impl DirectionView {
    /// Whether `op` may be done: only a slot that is in flight can be
    /// published or released, and only a frame of at most `MTU` bytes can be
    /// published.
    pub open spec fn admits(self, op: DirectionOp) -> bool {
        match op {
            DirectionOp::Acquire => true,
            DirectionOp::Publish { slot, frame } => self.held.contains(slot) && frame.len() <= MTU,
            DirectionOp::TakeUsed => true,
            DirectionOp::Release { slot } => self.held.contains(slot),
        }
    }

    /// The state after `op`; an operation that may not be done is not done.
    pub open spec fn after(self, op: DirectionOp) -> DirectionView {
        if !self.admits(op) {
            self
        } else {
            match op {
                DirectionOp::Acquire => self.after_acquire(),
                DirectionOp::Publish { slot, frame } => self.after_publish(slot, frame),
                DirectionOp::TakeUsed => self.after_take_used(),
                DirectionOp::Release { slot } => self.after_release(slot),
            }
        }
    }

    /// The state after the operations `ops`, in order.
    pub open spec fn after_all(self, ops: Seq<DirectionOp>) -> DirectionView
        decreases ops.len(),
    {
        if ops.len() == 0 {
            self
        } else {
            self.after_all(ops.drop_last()).after(ops.last())
        }
    }

    /// Every state that a direction can reach conserves its slots: whatever
    /// operations are done on a well-formed direction, in whatever order, no
    /// slot is lost and none is in two places.
    pub proof fn lemma_reachable_conserves(self, ops: Seq<DirectionOp>)
        requires
            self.wf(),
        ensures
            self.after_all(ops).wf(),
            self.after_all(ops).slots() == self.slots(),
        decreases ops.len(),
    {
        if ops.len() > 0 {
            let before = self.after_all(ops.drop_last());
            self.lemma_reachable_conserves(ops.drop_last());
            if before.admits(ops.last()) {
                match ops.last() {
                    DirectionOp::Acquire => before.lemma_acquire_conserves(),
                    DirectionOp::Publish { slot, frame } => before.lemma_publish_conserves(
                        slot,
                        frame,
                    ),
                    DirectionOp::TakeUsed => before.lemma_take_used_conserves(),
                    DirectionOp::Release { slot } => before.lemma_release_conserves(slot),
                }
            }
        }
    }
}

/// One direction of the link, with `N` slots.
pub struct Direction<const N: usize> {
    free: RingBuffer<Descriptor, N>,
    used: RingBuffer<Descriptor, N>,
    bufs: [Buf; N],
    held: Ghost<Set<usize>>,
}

impl<const N: usize> View for Direction<N> {
    type V = DirectionView;

    closed spec fn view(&self) -> DirectionView {
        DirectionView {
            free: self.free@,
            used: self.used@,
            held: self.held@,
            frames: Seq::new(N as nat, |i: int| frame_bytes(self.bufs@[i])),
        }
    }
}

impl<const N: usize> Direction<N> {
    /// Both rings are well formed, and the slots are conserved.
    pub closed spec fn wf(&self) -> bool {
        &&& self.free.wf()
        &&& self.used.wf()
        &&& self@.wf()
    }

    /// A well-formed direction has `N` slots, and its state is well formed.
    pub proof fn lemma_wf(&self)
        requires
            self.wf(),
        ensures
            self@.wf(),
            self@.slots() == N,
    {
    }

    /// A direction over the buffers `bufs` that nobody has set up yet: both
    /// rings are empty, and the buffers hold what they held.
    pub fn new(bufs: [Buf; N]) -> (direction: Self)
        ensures
            direction.wf(),
            direction@ == DirectionView::unassigned(
                Seq::new(N as nat, |i: int| frame_bytes(bufs@[i])),
            ),
    {
        let direction = Direction {
            free: RingBuffer::empty(),
            used: RingBuffer::empty(),
            bufs,
            held: Ghost(all_slots(N as nat)),
        };
        proof {
            lemma_all_slots(N as nat);
        }
        direction
    }

    /// Sets the direction up, whatever it held: empties both rings and every
    /// buffer, and loads the free ring with every slot, in rising order.
    pub fn reset(&mut self)
        ensures
            final(self).wf(),
            final(self)@ == DirectionView::fresh(N as nat),
    {
        self.free = RingBuffer::empty();
        self.used = RingBuffer::empty();
        self.held = Ghost(Set::empty());
        let mut i: usize = 0;
        while i < N
            invariant
                i <= N,
                self.free.wf(),
                self.used.wf(),
                self.used@ == Seq::<Descriptor>::empty(),
                self.held@ == Set::<usize>::empty(),
                self.free@ == Seq::new(
                    i as nat,
                    |k: int| Descriptor { index: k as usize, length: MTU },
                ),
                forall|k: int|
                    0 <= k < i ==> frame_bytes(#[trigger] self.bufs@[k]) == Seq::<u8>::empty(),
            decreases N - i,
        {
            let put = self.free.put(Descriptor { index: i, length: MTU });
            assert(put is Ok);
            frame_clear(&mut self.bufs[i]);
            i += 1;
        }
        proof {
            assert(self@.frames =~= DirectionView::fresh(N as nat).frames);
        }
    }

    /// The number of slots that wait in the free ring.
    pub fn free_len(&self) -> (n: usize)
        requires
            self.wf(),
        ensures
            n == self@.free.len(),
            n <= N,
    {
        self.free.len()
    }

    /// The number of slots that wait in the used ring.
    pub fn used_len(&self) -> (n: usize)
        requires
            self.wf(),
        ensures
            n == self@.used.len(),
            n <= N,
    {
        self.used.len()
    }

    /// Takes the oldest slot of the free ring into flight. With an empty free
    /// ring it returns `None` and changes nothing.
    pub fn acquire(&mut self) -> (slot: Option<usize>)
        requires
            old(self).wf(),
        ensures
            final(self).wf(),
            slot == old(self)@.next_free(),
            final(self)@ == old(self)@.after_acquire(),
            slot is Some ==> slot->0 < N,
    {
        match self.free.take() {
            None => None,
            Some(d) => {
                self.held = Ghost(self.held@.insert(d.index));
                Some(d.index)
            },
        }
    }

    /// Writes `bytes` into `slot`, which is in flight, and only then puts
    /// the slot at the end of the used ring, under a descriptor with the
    /// length of the bytes. More than `MTU` bytes are refused, and nothing
    /// changes.
    pub fn publish(&mut self, slot: usize, bytes: &[u8]) -> (published: Result<(), TooLong>)
        requires
            old(self).wf(),
            old(self)@.held.contains(slot),
        ensures
            final(self).wf(),
            published is Ok <==> bytes@.len() <= MTU,
            published is Ok ==> final(self)@ == old(self)@.after_publish(slot, bytes@),
            published is Err ==> *final(self) == *old(self),
            published is Err ==> published->Err_0.length == bytes@.len(),
    {
        if bytes.len() > MTU {
            return Err(TooLong { length: bytes.len() });
        }
        frame_clear(&mut self.bufs[slot]);
        let written = frame_extend_from_slice(&mut self.bufs[slot], bytes);
        assert(written is Ok);
        let put = self.used.put(Descriptor { index: slot, length: bytes.len() });
        assert(put is Ok);
        self.held = Ghost(self.held@.remove(slot));
        proof {
            assert(self@.frames =~= old(self)@.frames.update(slot as int, bytes@));
        }
        Ok(())
    }

    /// Takes the oldest descriptor of the used ring, and its slot into
    /// flight. With an empty used ring it returns `None` and changes nothing.
    pub fn take_used(&mut self) -> (descriptor: Option<Descriptor>)
        requires
            old(self).wf(),
        ensures
            final(self).wf(),
            descriptor == old(self)@.next_used(),
            final(self)@ == old(self)@.after_take_used(),
            descriptor is Some ==> old(self)@.used_entry(descriptor->0),
    {
        match self.used.take() {
            None => None,
            Some(d) => {
                self.held = Ghost(self.held@.insert(d.index));
                Some(d)
            },
        }
    }

    /// Puts `slot`, which is in flight, at the end of the free ring.
    pub fn release(&mut self, slot: usize)
        requires
            old(self).wf(),
            old(self)@.held.contains(slot),
        ensures
            final(self).wf(),
            final(self)@ == old(self)@.after_release(slot),
    {
        let put = self.free.put(Descriptor { index: slot, length: MTU });
        assert(put is Ok);
        self.held = Ghost(self.held@.remove(slot));
    }

    /// The bytes that `slot` holds.
    pub fn frame(&self, slot: usize) -> (bytes: &[u8])
        requires
            self.wf(),
            slot < N,
        ensures
            bytes@ == self@.frames[slot as int],
    {
        frame_as_slice(&self.bufs[slot])
    }

    /// A private copy of the buffer of `slot`.
    pub fn copy_frame(&self, slot: usize) -> (copy: Buf)
        requires
            self.wf(),
            slot < N,
        ensures
            frame_bytes(copy) == self@.frames[slot as int],
    {
        frame_clone(&self.bufs[slot])
    }
}

} // verus!
