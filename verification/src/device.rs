//! The client side of the link: the device that a network stack polls.
//!
//! The stack asks for a send slot or for a received frame; the answer is a
//! token, or `None` where there is nothing to hand out. Nothing here waits.

use vstd::prelude::*;
use crate::frame::{
    frame_as_mut_slice, frame_as_slice, frame_bytes, frame_new, frame_resize, resized, Buf,
};
use crate::link::{Link, LinkView};
use crate::transport::DirectionView;
use crate::{MTU, TX_BUF_SIZE};

verus! {

/// The name of a notification channel to the other side.
#[derive(Clone, Copy, Debug, PartialEq, Eq, Structural)]
pub struct Channel {
    pub index: usize,
}

/// What kind of frame a device carries.
#[derive(Clone, Copy, Debug, PartialEq, Eq, Structural)]
pub enum Medium {
    Ethernet,
    Ip,
    Ieee802154,
}

/// Which checksums of a protocol the stack has to handle in software.
#[derive(Clone, Copy, Debug, PartialEq, Eq, Structural)]
pub enum Checksum {
    /// Verify on receive and compute on send.
    Both,
    /// Verify on receive.
    Rx,
    /// Compute on send.
    Tx,
    /// Neither.
    Ignored,
}

/// The checksum handling of each protocol.
#[derive(Clone, Copy, Debug, PartialEq, Eq, Structural)]
pub struct ChecksumCapabilities {
    pub ipv4: Checksum,
    pub udp: Checksum,
    pub tcp: Checksum,
    pub icmpv4: Checksum,
}

/// What a device tells the stack about itself.
#[derive(Clone, Copy, Debug, PartialEq, Eq, Structural)]
pub struct DeviceCapabilities {
    pub medium: Medium,
    /// The largest frame, in bytes, that the device sends or receives.
    pub max_transmission_unit: usize,
    /// The largest burst, in frames; `None` where there is no limit.
    pub max_burst_size: Option<usize>,
    pub checksum: ChecksumCapabilities,
}

/// `length` bytes, all zero.
pub open spec fn zeros(length: nat) -> Seq<u8> {
    Seq::new(length, |i: int| 0u8)
}

impl LinkView {
    /// The link after [`EthDevice::transmit`]: the oldest free transmit
    /// slot, if there is one, is in flight.
    pub open spec fn after_transmit(self) -> LinkView {
        LinkView { tx: self.tx.after_acquire(), ..self }
    }

    /// The link after [`TxToken::send`] of a frame of at most `MTU` bytes:
    /// the frame is published in the token's slot, and the driver's doorbell
    /// is rung.
    pub open spec fn after_send(self, slot: usize, frame: Seq<u8>) -> LinkView {
        LinkView { tx: self.tx.after_publish(slot, frame), driver_notified: true, ..self }
    }

    /// The link after [`TxToken::release`]: the token's slot waits in the
    /// free ring again.
    pub open spec fn after_release(self, slot: usize) -> LinkView {
        LinkView { tx: self.tx.after_release(slot), ..self }
    }

    /// Whether [`EthDevice::receive`] hands out tokens: a frame waits in the
    /// receive direction, and a transmit slot is free.
    pub open spec fn can_receive(self) -> bool {
        self.rx.used.len() > 0 && self.tx.free.len() > 0
    }

    /// The frame that [`EthDevice::receive`] hands out: what the slot of the
    /// oldest used receive descriptor holds.
    pub open spec fn next_received(self) -> Seq<u8> {
        self.rx.frames[self.rx.used[0].index as int]
    }

    /// The link after a [`EthDevice::receive`] that hands out tokens: the
    /// oldest used receive slot waits in the free ring again, the oldest free
    /// transmit slot is in flight, and the driver's doorbell is rung.
    pub open spec fn after_receive(self) -> LinkView {
        LinkView {
            rx: self.rx.after_take_used().after_release(self.rx.used[0].index),
            tx: self.tx.after_acquire(),
            driver_notified: true,
            ..self
        }
    }
}

/// The right to fill one transmit slot and send it, once. A token that is
/// neither used nor given back keeps its slot in flight for good.
#[must_use]
#[derive(Debug)]
pub struct TxToken {
    index: usize,
}

/// The error of [`TxToken::consume`] for a frame of more than `MTU` bytes.
#[derive(Debug)]
pub struct FrameTooLong {
    /// The token, which is still good for a shorter frame.
    pub token: TxToken,
    /// The length of the frame that was refused.
    pub length: usize,
}

/// A received frame, copied out of the link.
#[derive(Debug)]
pub struct RxToken {
    buf: Buf,
}

/// The client's end of the link.
#[derive(Debug)]
pub struct EthDevice {
    channel: Channel,
}

impl TxToken {
    /// The slot that the token stands for.
    pub closed spec fn slot(&self) -> usize {
        self.index
    }

    /// The slot that the token stands for.
    pub fn index(&self) -> (index: usize)
        ensures
            index == self.slot(),
    {
        self.index
    }

    /// Sends a frame of `length` bytes that `write` fills in, and returns
    /// what `write` returns. `write` gets `length` bytes, all zero. What it
    /// leaves in them is the frame: it is written into the token's slot, then
    /// the slot is published to the driver and the driver's doorbell is rung.
    /// A length of more than `MTU` is refused before `write` is called or
    /// anything is written, and the token comes back.
    pub fn consume<R, F: FnOnce(&mut [u8]) -> R>(
        self,
        link: &mut Link,
        length: usize,
        write: F,
    ) -> (sent: Result<R, FrameTooLong>)
        requires
            old(link).wf(),
            old(link)@.tx.held.contains(self.slot()),
            length <= MTU ==> forall|bytes: &mut [u8]|
                bytes@ == zeros(length as nat) ==> call_requires(write, (bytes,)),
        ensures
            final(link).wf(),
            sent is Ok <==> length <= MTU,
            sent matches Ok(result) ==> exists|bytes: &mut [u8]|
                bytes@ == zeros(length as nat) && #[trigger] call_ensures(write, (bytes,), result)
                    && final(link)@ == old(link)@.after_send(
                    self.slot(),
                    resized(final(bytes)@, length as nat, 0),
                ),
            sent is Err ==> *final(link) == *old(link),
            sent is Err ==> sent->Err_0.token == self && sent->Err_0.length == length,
    {
        if length > MTU {
            return Err(FrameTooLong { token: self, length });
        }
        let mut staged = frame_new();
        let grown = frame_resize(&mut staged, length, 0);
        assert(grown is Ok);
        assert(frame_bytes(staged) =~= zeros(length as nat));
        let result = write(frame_as_mut_slice(&mut staged));
        let ghost written = frame_bytes(staged);
        let ghost handed = choose|bytes: &mut [u8]|
            bytes@ == zeros(length as nat) && #[trigger] call_ensures(write, (bytes,), result)
                && final(bytes)@ == written;
        // A slice keeps its length, so this changes nothing; it is what
        // lets the length of the frame be known here.
        let fitted = frame_resize(&mut staged, length, 0);
        assert(fitted is Ok);
        match self.send(link, frame_as_slice(&staged)) {
            Ok(()) => {
                proof {
                    let done: Result<R, FrameTooLong> = Ok(result);
                    assert(call_ensures(write, (handed,), done->Ok_0));
                }
                Ok(result)
            },
            Err(refused) => Err(refused),
        }
    }

    /// Sends `frame`: writes it into the token's slot, then publishes the
    /// slot to the driver and rings the driver's doorbell. A frame of more
    /// than `MTU` bytes is refused before anything is written, and the token
    /// comes back.
    pub fn send(self, link: &mut Link, frame: &[u8]) -> (sent: Result<(), FrameTooLong>)
        requires
            old(link).wf(),
            old(link)@.tx.held.contains(self.slot()),
        ensures
            final(link).wf(),
            sent is Ok <==> frame@.len() <= MTU,
            sent is Ok ==> final(link)@ == old(link)@.after_send(self.slot(), frame@),
            sent is Err ==> *final(link) == *old(link),
            sent is Err ==> sent->Err_0.token == self && sent->Err_0.length == frame@.len(),
    {
        proof {
            link.lemma_parts();
        }
        match link.tx.publish(self.index, frame) {
            Ok(()) => {
                link.to_driver = true;
                proof {
                    link.lemma_parts();
                }
                Ok(())
            },
            Err(refused) => Err(FrameTooLong { token: self, length: refused.length }),
        }
    }

    /// Gives the slot back unused: it waits in the free ring again.
    pub fn release(self, link: &mut Link)
        requires
            old(link).wf(),
            old(link)@.tx.held.contains(self.slot()),
        ensures
            final(link).wf(),
            final(link)@ == old(link)@.after_release(self.slot()),
    {
        proof {
            link.lemma_parts();
        }
        link.tx.release(self.index);
        proof {
            link.lemma_parts();
        }
    }
}

impl RxToken {
    /// The bytes of the received frame.
    pub closed spec fn bytes(&self) -> Seq<u8> {
        frame_bytes(self.buf)
    }

    /// The length of the received frame, in bytes.
    pub fn len(&self) -> (length: usize)
        ensures
            length == self.bytes().len(),
    {
        frame_as_slice(&self.buf).len()
    }

    /// Hands the received frame to `read` and returns what `read` returns.
    /// The frame is the token's own copy: the link is not touched.
    pub fn consume<R, F: FnOnce(&mut [u8]) -> R>(self, read: F) -> (result: R)
        requires
            forall|bytes: &mut [u8]| bytes@ == self.bytes() ==> call_requires(read, (bytes,)),
        ensures
            exists|bytes: &mut [u8]|
                bytes@ == self.bytes() && #[trigger] call_ensures(read, (bytes,), result),
    {
        let mut buf = self.buf;
        read(frame_as_mut_slice(&mut buf))
    }

    /// The received frame. It is the token's own copy: the link is not
    /// touched.
    pub fn into_frame(self) -> (frame: Buf)
        ensures
            frame_bytes(frame) == self.bytes(),
    {
        self.buf
    }
}

impl EthDevice {
    /// The channel on which the device reaches the driver.
    pub closed spec fn channel(&self) -> Channel {
        self.channel
    }

    /// The client's end of `link`, reaching the driver on `channel`. The
    /// client fills transmit slots first, so it sets the transmit direction
    /// up, whatever it held: every transmit slot is free afterwards. The
    /// receive direction is the driver's to set up, and is not touched.
    pub fn new(channel: Channel, link: &mut Link) -> (device: Self)
        ensures
            final(link).tx_wf(),
            final(link).rx_wf() == old(link).rx_wf(),
            device.channel() == channel,
            final(link)@ == (LinkView {
                tx: DirectionView::fresh(TX_BUF_SIZE as nat),
                ..old(link)@
            }),
    {
        proof {
            link.lemma_parts();
        }
        link.tx.reset();
        proof {
            link.lemma_parts();
        }
        EthDevice { channel }
    }

    /// The channel on which the device reaches the driver.
    pub fn driver_channel(&self) -> (channel: Channel)
        ensures
            channel == self.channel(),
    {
        self.channel
    }

    /// A token for the oldest free transmit slot, or `None` where no
    /// transmit slot is free; then nothing changes.
    pub fn transmit(&mut self, link: &mut Link) -> (token: Option<TxToken>)
        requires
            old(link).wf(),
        ensures
            final(link).wf(),
            *final(self) == *old(self),
            final(link)@ == old(link)@.after_transmit(),
            token is Some <==> old(link)@.tx.free.len() > 0,
            token is Some ==> token->0.slot() == old(link)@.tx.free[0].index,
            token is Some ==> final(link)@.tx.held.contains(token->0.slot()),
            token is None ==> *final(link) == *old(link),
    {
        proof {
            link.lemma_parts();
        }
        if link.tx.free_len() == 0 {
            return None;
        }
        match link.tx.acquire() {
            Some(index) => {
                proof {
                    link.lemma_parts();
                }
                Some(TxToken { index })
            },
            None => None,
        }
    }

    /// A token for the oldest received frame and a token for a transmit
    /// slot, so that the stack can answer at once. Both are needed: where no
    /// frame waits, or no transmit slot is free, the result is `None` and
    /// nothing changes, even if a frame waits.
    ///
    /// The frame is copied out of its slot, the slot goes back to the free
    /// ring, and the driver's doorbell is rung, so that the driver does not
    /// run out of receive slots.
    pub fn receive(&mut self, link: &mut Link) -> (tokens: Option<(RxToken, TxToken)>)
        requires
            old(link).wf(),
        ensures
            final(link).wf(),
            *final(self) == *old(self),
            tokens is Some <==> old(link)@.can_receive(),
            tokens is None ==> *final(link) == *old(link),
            tokens is Some ==> final(link)@ == old(link)@.after_receive(),
            tokens matches Some((rx, tx)) ==> {
                &&& rx.bytes() == old(link)@.next_received()
                &&& rx.bytes().len() == old(link)@.rx.used[0].length
                &&& tx.slot() == old(link)@.tx.free[0].index
                &&& final(link)@.tx.held.contains(tx.slot())
            },
    {
        proof {
            link.lemma_parts();
        }
        if link.rx.used_len() == 0 || link.tx.free_len() == 0 {
            return None;
        }
        proof {
            link.rx.lemma_wf();
        }
        match link.rx.take_used() {
            None => None,
            Some(descriptor) => {
                let buf = link.rx.copy_frame(descriptor.index);
                link.rx.release(descriptor.index);
                match link.tx.acquire() {
                    None => None,
                    Some(index) => {
                        link.to_driver = true;
                        proof {
                            link.lemma_parts();
                        }
                        Some((RxToken { buf }, TxToken { index }))
                    },
                }
            },
        }
    }

    /// What the device tells the stack: it carries Ethernet frames of at
    /// most `MTU` bytes, has no limit on bursts, and asks the stack neither
    /// to compute nor to verify any checksum.
    pub fn capabilities(&self) -> (caps: DeviceCapabilities)
        ensures
            caps == (DeviceCapabilities {
                medium: Medium::Ethernet,
                max_transmission_unit: MTU,
                max_burst_size: None,
                checksum: ChecksumCapabilities {
                    ipv4: Checksum::Ignored,
                    udp: Checksum::Ignored,
                    tcp: Checksum::Ignored,
                    icmpv4: Checksum::Ignored,
                },
            }),
    {
        DeviceCapabilities {
            medium: Medium::Ethernet,
            max_transmission_unit: MTU,
            max_burst_size: None,
            checksum: ChecksumCapabilities {
                ipv4: Checksum::Ignored,
                udp: Checksum::Ignored,
                tcp: Checksum::Ignored,
                icmpv4: Checksum::Ignored,
            },
        }
    }
}

} // verus!
