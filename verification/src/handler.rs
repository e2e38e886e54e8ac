//! The driver side of the link: what the driver does when its doorbell
//! rings.
//!
//! With no wire behind it, the driver loops every frame back: what the
//! client sends comes back to the client as received. The handler keeps no
//! state of its own between two notifications; all of it is in the link.

use vstd::prelude::*;
use crate::device::Channel;
use crate::link::{Link, LinkView};
use crate::transport::DirectionView;
use crate::RX_BUF_SIZE;

verus! {

/// What one notification made the driver do.
#[derive(Clone, Copy, Debug, PartialEq, Eq, Structural)]
pub struct Drained {
    /// Frames that were looped back to the client.
    pub forwarded: usize,
    /// Frames that were dropped because no receive slot was free.
    pub dropped: usize,
}

/// The two directions after the driver has handled the oldest sent frame.
/// Where a receive slot is free, the frame is copied into the oldest of them
/// and published to the client; where none is, the frame is dropped. Either
/// way the frame's transmit slot goes back to the free ring.
pub open spec fn loopback(tx: DirectionView, rx: DirectionView) -> (DirectionView, DirectionView)
    recommends
        tx.used.len() > 0,
{
    let sent = tx.used[0];
    let received = if rx.free.len() > 0 {
        rx.after_acquire().after_publish(rx.free[0].index, tx.frames[sent.index as int])
    } else {
        rx
    };
    (tx.after_take_used().after_release(sent.index), received)
}

/// The two directions after the driver has handled every sent frame, oldest
/// first.
pub open spec fn drain(tx: DirectionView, rx: DirectionView) -> (DirectionView, DirectionView)
    decreases tx.used.len(),
{
    if tx.used.len() == 0 {
        (tx, rx)
    } else {
        let (tx, rx) = loopback(tx, rx);
        drain(tx, rx)
    }
}

/// The number of frames that a drain of `tx` into `rx` loops back: each
/// takes one free receive slot, and a drain frees none.
pub open spec fn forwarded(tx: DirectionView, rx: DirectionView) -> nat {
    if tx.used.len() <= rx.free.len() {
        tx.used.len()
    } else {
        rx.free.len()
    }
}

impl LinkView {
    /// The link after [`EthHandler::notified`]: the driver's doorbell is
    /// silent, every sent frame is handled, and the client's doorbell is
    /// rung if there was any.
    pub open spec fn after_notified(self) -> LinkView {
        let (tx, rx) = drain(self.tx, self.rx);
        LinkView {
            tx,
            rx,
            driver_notified: false,
            client_notified: self.client_notified || self.tx.used.len() > 0,
        }
    }
}

/// The driver's end of the link.
#[derive(Debug)]
pub struct EthHandler {
    channel: Channel,
}

impl EthHandler {
    /// The channel on which the driver hears from the client.
    pub closed spec fn channel(&self) -> Channel {
        self.channel
    }

    /// The driver's end of `link`, hearing from the client on `channel`. The
    /// driver fills receive slots first, so it sets the receive direction
    /// up, whatever it held: every receive slot is free afterwards. The
    /// transmit direction is the client's to set up, and is not touched.
    pub fn new(channel: Channel, link: &mut Link) -> (handler: Self)
        ensures
            final(link).rx_wf(),
            final(link).tx_wf() == old(link).tx_wf(),
            handler.channel() == channel,
            final(link)@ == (LinkView {
                rx: DirectionView::fresh(RX_BUF_SIZE as nat),
                ..old(link)@
            }),
    {
        proof {
            link.lemma_parts();
        }
        link.rx.reset();
        proof {
            link.lemma_parts();
        }
        EthHandler { channel }
    }

    /// The channel on which the driver hears from the client.
    pub fn client_channel(&self) -> (channel: Channel)
        ensures
            channel == self.channel(),
    {
        self.channel
    }

    /// Handles a notification from the client: drains the used transmit
    /// ring, oldest frame first, until it is empty, looping each frame back
    /// or dropping it, and giving its slot back. Several frames may wait
    /// behind one notification, or none.
    pub fn notified(&mut self, channel: Channel, link: &mut Link) -> (drained: Drained)
        requires
            old(link).wf(),
            channel == old(self).channel(),
        ensures
            final(link).wf(),
            *final(self) == *old(self),
            final(link)@ == old(link)@.after_notified(),
            drained.forwarded == forwarded(old(link)@.tx, old(link)@.rx),
            drained.forwarded + drained.dropped == old(link)@.tx.used.len(),
    {
        proof {
            link.lemma_parts();
        }
        let waiting = link.tx.used_len();
        link.to_driver = false;
        if waiting > 0 {
            link.to_client = true;
        }
        let mut forwarded: usize = 0;
        let mut dropped: usize = 0;
        proof {
            link.lemma_parts();
        }
        while link.tx.used_len() > 0
            invariant
                link.wf(),
                link.tx.wf(),
                link.rx.wf(),
                link.to_driver == false,
                link.to_client == (old(link)@.client_notified || waiting > 0),
                waiting == old(link)@.tx.used.len(),
                drain(link.tx@, link.rx@) == drain(old(link)@.tx, old(link)@.rx),
                forwarded + dropped + link.tx@.used.len() == waiting,
                forwarded + self::forwarded(link.tx@, link.rx@) == self::forwarded(
                    old(link)@.tx,
                    old(link)@.rx,
                ),
            decreases link.tx@.used.len(),
        {
            proof {
                link.tx.lemma_wf();
            }
            match link.tx.take_used() {
                None => {},
                Some(sent) => {
                    match link.rx.acquire() {
                        None => {
                            // No receive slot is free: the frame is lost.
                            dropped += 1;
                        },
                        Some(slot) => {
                            let published = link.rx.publish(slot, link.tx.frame(sent.index));
                            assert(published is Ok);
                            forwarded += 1;
                        },
                    }
                    link.tx.release(sent.index);
                },
            }
            proof {
                link.lemma_parts();
            }
        }
        proof {
            link.lemma_parts();
        }
        Drained { forwarded, dropped }
    }
}

} // verus!
