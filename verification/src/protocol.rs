//! What the two ends of the link achieve together, stated over the states
//! of the link and proved from what each operation does to them.

use vstd::prelude::*;
use crate::handler::{drain, forwarded, loopback};
use crate::link::LinkView;
use crate::transport::{Descriptor, DirectionView};
use crate::MTU;

verus! {

/// The free descriptors that the driver's drain makes of the used transmit
/// descriptors `sent`: the same slots in the same order, each with `MTU`
/// bytes of room.
pub open spec fn reclaimed(sent: Seq<Descriptor>) -> Seq<Descriptor> {
    Seq::new(sent.len(), |i: int| Descriptor { index: sent[i].index, length: MTU })
}

/// The used receive descriptors that the driver's drain publishes when it
/// loops back the first `count` frames of `tx` into the first `count` free
/// slots of `rx`: the free slots in their order, each with the length of
/// the frame that went into it.
pub open spec fn delivered(tx: DirectionView, rx: DirectionView, count: nat) -> Seq<Descriptor> {
    Seq::new(count, |i: int| Descriptor { index: rx.free[i].index, length: tx.used[i].length })
}

/// Handling one sent frame conserves the slots of both directions.
pub proof fn lemma_loopback_conserves(tx: DirectionView, rx: DirectionView)
    requires
        tx.wf(),
        rx.wf(),
        tx.used.len() > 0,
    ensures
        ({
            let (tx1, rx1) = loopback(tx, rx);
            &&& tx1.wf()
            &&& rx1.wf()
            &&& tx1.slots() == tx.slots()
            &&& rx1.slots() == rx.slots()
            &&& tx1.used == tx.used.skip(1)
            &&& tx1.free == tx.free.push(Descriptor { index: tx.used[0].index, length: MTU })
            &&& tx1.held == tx.held
            &&& tx1.frames == tx.frames
            &&& rx1.held == rx.held
        }),
{
}

/// What a drain comes to. Every sent frame is handled, oldest first:
/// the used transmit ring is empty and its slots are free again, in the
/// order in which they were sent. As many frames as there were free receive
/// slots, the oldest ones, are in the used receive ring, behind what waited
/// there, in the order in which they were sent, each in its slot with its
/// length; the others are dropped. No other buffer has changed, no slot is
/// in flight that was not, and both directions still conserve their slots.
pub proof fn lemma_drain(tx: DirectionView, rx: DirectionView)
    requires
        tx.wf(),
        rx.wf(),
    ensures
        ({
            let (tx2, rx2) = drain(tx, rx);
            let count = forwarded(tx, rx);
            &&& tx2.wf()
            &&& rx2.wf()
            &&& tx2.used.len() == 0
            &&& tx2.free == tx.free + reclaimed(tx.used)
            &&& tx2.held == tx.held
            &&& tx2.frames == tx.frames
            &&& rx2.free == rx.free.skip(count as int)
            &&& rx2.used == rx.used + delivered(tx, rx, count)
            &&& rx2.held == rx.held
            &&& rx2.frames.len() == rx.frames.len()
            &&& forall|i: int|
                0 <= i < count ==> rx2.frames[(#[trigger] rx.free[i]).index as int]
                    == tx.frames[tx.used[i].index as int]
            &&& forall|i: int|
                0 <= i < rx.used.len() ==> rx2.frames[(#[trigger] rx.used[i]).index as int]
                    == rx.frames[rx.used[i].index as int]
        }),
    decreases tx.used.len(),
{
    if tx.used.len() > 0 {
        // The oldest frame first, then the rest by induction.
        let (tx1, rx1) = loopback(tx, rx);
        let (tx2, rx2) = drain(tx, rx);
        lemma_drain(tx1, rx1);
        if rx.free.len() > 0 {
            // The frame went into the oldest free slot, which the rest of
            // the drain does not touch: it is in the used ring by then.
            assert forall|i: int| 0 <= i < forwarded(tx, rx) implies rx2.frames[(
            #[trigger] rx.free[i]).index as int] == tx.frames[tx.used[i].index as int] by {
                if i == 0 {
                    assert(rx1.used[rx.used.len() as int].index == rx.free[0].index);
                } else {
                    assert(rx1.free[i - 1] == rx.free[i]);
                }
            }
            assert forall|i: int| 0 <= i < rx.used.len() implies rx2.frames[(
            #[trigger] rx.used[i]).index as int] == rx.frames[rx.used[i].index as int] by {
                assert(rx1.used[i] == rx.used[i]);
            }
        }
    }
}

/// The link after `count` calls of [`crate::device::EthDevice::transmit`] in
/// a row.
pub open spec fn after_transmits(link: LinkView, count: nat) -> LinkView
    decreases count,
{
    if count == 0 {
        link
    } else {
        after_transmits(link, (count - 1) as nat).after_transmit()
    }
}

/// A frame that is sent comes back as it was sent. Let a token for `slot`
/// be out, and let the receive direction have a free slot for every frame
/// that was sent before and for one more. When `frame`, of at most `MTU`
/// bytes, is sent through the token and the driver handles the
/// notification, the frame waits in the used receive ring, behind the
/// frames that waited there and those that were sent before it, with its
/// own bytes and its own length. Both doorbells have rung, and the token's
/// slot is free again.
pub proof fn lemma_round_trip(link: LinkView, slot: usize, frame: Seq<u8>)
    requires
        link.wf(),
        link.tx.held.contains(slot),
        frame.len() <= MTU,
        link.tx.used.len() < link.rx.free.len(),
    ensures
        ({
            let sent = link.after_send(slot, frame);
            let back = sent.after_notified();
            let place = (link.rx.used.len() + link.tx.used.len()) as int;
            &&& sent.wf()
            &&& sent.driver_notified
            &&& back.wf()
            &&& back.client_notified
            &&& !back.driver_notified
            &&& back.rx.used.len() == place + 1
            &&& back.rx.used[place].length == frame.len()
            &&& back.rx.frames[back.rx.used[place].index as int] == frame
            &&& back.tx.used.len() == 0
            &&& back.tx.free.last() == (Descriptor { index: slot, length: MTU })
        }),
{
    lemma_drain(link.after_send(slot, frame).tx, link.rx);
}

/// The plain case of the round trip. In a link in which no frame waits in
/// either direction and each direction has a free slot: the client takes a
/// transmit token, sends `frame` through it, of at most `MTU` bytes, and
/// the driver handles the notification. Then the client's next receive
/// hands out tokens, and the frame that it hands out has exactly the bytes
/// and the length of `frame`. After that receive no frame waits, and the
/// receive direction has all the free slots that it had.
pub proof fn lemma_echo(link: LinkView, frame: Seq<u8>)
    requires
        link.wf(),
        link.tx.used.len() == 0,
        link.rx.used.len() == 0,
        link.tx.free.len() > 0,
        link.rx.free.len() > 0,
        frame.len() <= MTU,
    ensures
        ({
            let slot = link.tx.free[0].index;
            let taken = link.after_transmit();
            let back = taken.after_send(slot, frame).after_notified();
            let done = back.after_receive();
            &&& taken.tx.held.contains(slot)
            &&& back.can_receive()
            &&& back.next_received() == frame
            &&& back.rx.used[0].length == frame.len()
            &&& done.wf()
            &&& done.rx.used.len() == 0
            &&& done.rx.free.len() == link.rx.free.len()
        }),
{
    let slot = link.tx.free[0].index;
    let taken = link.after_transmit();
    lemma_round_trip(taken, slot, frame);
    lemma_drain(taken.after_send(slot, frame).tx, taken.rx);
}

/// Transmit runs dry, and says so. Of `count` calls in a row, as many hand
/// out a token as there were free transmit slots, in the order of the free
/// ring; every later call finds no free slot and changes nothing.
pub proof fn lemma_transmit_runs_dry(link: LinkView, count: nat)
    requires
        link.wf(),
    ensures
        after_transmits(link, count).wf(),
        count < link.tx.free.len() ==> after_transmits(link, count).tx.next_free() == Some(
            link.tx.free[count as int].index,
        ),
        count <= link.tx.free.len() ==> after_transmits(link, count).tx.free
            == link.tx.free.skip(count as int),
        count >= link.tx.free.len() ==> after_transmits(link, count).tx.next_free() is None,
        count >= link.tx.free.len() ==> after_transmits(link, count) == after_transmits(
            link,
            link.tx.free.len(),
        ),
    decreases count,
{
    if count > 0 {
        lemma_transmit_runs_dry(link, (count - 1) as nat);
    }
}

/// The driver's drain brings transmit back. Where at least one sent frame
/// waits for the driver, then after the driver has handled its
/// notification a transmit slot is free, whether or not one was before:
/// every slot that held a sent frame is.
pub proof fn lemma_drain_recovers(link: LinkView)
    requires
        link.wf(),
        link.tx.used.len() > 0,
    ensures
        link.after_notified().wf(),
        link.after_notified().tx.free.len() == link.tx.free.len() + link.tx.used.len(),
        link.after_notified().tx.next_free() is Some,
        link.after_notified().after_transmit().tx.held.contains(
            link.after_notified().tx.free[0].index,
        ),
{
    lemma_drain(link.tx, link.rx);
}

/// One operation of either end of the link.
pub enum LinkOp {
    /// The client asks for a transmit token.
    Transmit,
    /// The client sends `frame` through the token for `slot`.
    Send { slot: usize, frame: Seq<u8> },
    /// The client gives the token for `slot` back unused.
    Release { slot: usize },
    /// The client asks for a received frame.
    Receive,
    /// The driver handles a notification.
    Notified,
}

/// The link after `op`. A send or a release through a token that is not out
/// is not done, nor is a send of a frame of more than `MTU` bytes.
pub open spec fn link_after(link: LinkView, op: LinkOp) -> LinkView {
    match op {
        LinkOp::Transmit => link.after_transmit(),
        LinkOp::Send { slot, frame } => if link.tx.held.contains(slot) && frame.len() <= MTU {
            link.after_send(slot, frame)
        } else {
            link
        },
        LinkOp::Release { slot } => if link.tx.held.contains(slot) {
            link.after_release(slot)
        } else {
            link
        },
        LinkOp::Receive => if link.can_receive() {
            link.after_receive()
        } else {
            link
        },
        LinkOp::Notified => link.after_notified(),
    }
}

/// The link after the operations `ops`, in order.
pub open spec fn link_after_all(link: LinkView, ops: Seq<LinkOp>) -> LinkView
    decreases ops.len(),
{
    if ops.len() == 0 {
        link
    } else {
        link_after(link_after_all(link, ops.drop_last()), ops.last())
    }
}

/// Every state that the link can reach conserves the slots of both
/// directions: whatever the client and the driver do, in whatever order, no
/// slot is lost and none is in two places.
pub proof fn lemma_link_conserves(link: LinkView, ops: Seq<LinkOp>)
    requires
        link.wf(),
    ensures
        link_after_all(link, ops).wf(),
        link_after_all(link, ops).tx.slots() == link.tx.slots(),
        link_after_all(link, ops).rx.slots() == link.rx.slots(),
    decreases ops.len(),
{
    if ops.len() > 0 {
        let before = link_after_all(link, ops.drop_last());
        lemma_link_conserves(link, ops.drop_last());
        if ops.last() is Notified {
            lemma_drain(before.tx, before.rx);
        }
    }
}

} // verus!
