//! Everything that lies between the client and the driver: the transmit
//! direction, the receive direction, and one doorbell each way.
//!
//! A doorbell carries no data and does not count: ringing it twice before
//! the other side looks is the same as ringing it once.

use vstd::prelude::*;
use crate::frame::{frame_bytes, Buf};
use crate::transport::{Direction, DirectionView};
use crate::{RX_BUF_SIZE, TX_BUF_SIZE};

verus! {

/// The state of the link, as mathematics.
pub struct LinkView {
    /// Frames on their way from the client to the driver.
    pub tx: DirectionView,
    /// Frames on their way from the driver to the client.
    pub rx: DirectionView,
    /// The client has rung for the driver, which has not yet looked.
    pub driver_notified: bool,
    /// The driver has rung for the client, which has not yet looked.
    pub client_notified: bool,
}

impl LinkView {
    /// Both directions conserve their slots.
    pub open spec fn wf(self) -> bool {
        &&& self.tx.wf()
        &&& self.rx.wf()
    }

    /// The link before either side has set up its direction, over buffers
    /// that hold `tx_frames` and `rx_frames`.
    pub open spec fn unassigned(tx_frames: Seq<Seq<u8>>, rx_frames: Seq<Seq<u8>>) -> LinkView {
        LinkView {
            tx: DirectionView::unassigned(tx_frames),
            rx: DirectionView::unassigned(rx_frames),
            driver_notified: false,
            client_notified: false,
        }
    }

    /// The link after both sides have set up their direction and before any
    /// frame was sent.
    pub open spec fn fresh() -> LinkView {
        LinkView {
            tx: DirectionView::fresh(TX_BUF_SIZE as nat),
            rx: DirectionView::fresh(RX_BUF_SIZE as nat),
            driver_notified: false,
            client_notified: false,
        }
    }

    /// A link that both sides have just set up conserves its slots.
    pub proof fn lemma_fresh_conserves()
        ensures
            LinkView::fresh().wf(),
    {
    }
}

/// The link between one client and one driver.
pub struct Link {
    pub(crate) tx: Direction<TX_BUF_SIZE>,
    pub(crate) rx: Direction<RX_BUF_SIZE>,
    pub(crate) to_driver: bool,
    pub(crate) to_client: bool,
}

impl View for Link {
    type V = LinkView;

    closed spec fn view(&self) -> LinkView {
        LinkView {
            tx: self.tx@,
            rx: self.rx@,
            driver_notified: self.to_driver,
            client_notified: self.to_client,
        }
    }
}

impl Link {
    /// The transmit direction is well formed.
    pub closed spec fn tx_wf(&self) -> bool {
        self.tx.wf()
    }

    /// The receive direction is well formed.
    pub closed spec fn rx_wf(&self) -> bool {
        self.rx.wf()
    }

    /// Both directions are well formed.
    pub open spec fn wf(&self) -> bool {
        &&& self.tx_wf()
        &&& self.rx_wf()
    }

    /// The state of a well-formed link is well formed, and its directions
    /// have `TX_BUF_SIZE` and `RX_BUF_SIZE` slots.
    pub proof fn lemma_wf(&self)
        requires
            self.wf(),
        ensures
            self@.wf(),
            self@.tx.slots() == TX_BUF_SIZE,
            self@.rx.slots() == RX_BUF_SIZE,
    {
        self.tx.lemma_wf();
        self.rx.lemma_wf();
    }

    /// What a link is made of, for the modules of its two ends.
    pub(crate) proof fn lemma_parts(&self)
        ensures
            self.tx_wf() == self.tx.wf(),
            self.rx_wf() == self.rx.wf(),
            self@ == (LinkView {
                tx: self.tx@,
                rx: self.rx@,
                driver_notified: self.to_driver,
                client_notified: self.to_client,
            }),
    {
    }

    /// A link over the buffers `tx_bufs` and `rx_bufs`, as it is before
    /// either side has set up its direction: empty rings and silent
    /// doorbells.
    pub fn new(tx_bufs: [Buf; TX_BUF_SIZE], rx_bufs: [Buf; RX_BUF_SIZE]) -> (link: Self)
        ensures
            link.wf(),
            link@ == LinkView::unassigned(
                Seq::new(TX_BUF_SIZE as nat, |i: int| frame_bytes(tx_bufs@[i])),
                Seq::new(RX_BUF_SIZE as nat, |i: int| frame_bytes(rx_bufs@[i])),
            ),
    {
        Link {
            tx: Direction::new(tx_bufs),
            rx: Direction::new(rx_bufs),
            to_driver: false,
            to_client: false,
        }
    }

    /// The transmit direction.
    pub fn tx(&self) -> (tx: &Direction<TX_BUF_SIZE>)
        ensures
            tx@ == self@.tx,
            tx.wf() == self.tx_wf(),
    {
        &self.tx
    }

    /// The receive direction.
    pub fn rx(&self) -> (rx: &Direction<RX_BUF_SIZE>)
        ensures
            rx@ == self@.rx,
            rx.wf() == self.rx_wf(),
    {
        &self.rx
    }

    /// Whether the client has rung for the driver since the driver last
    /// looked; the doorbell is silent afterwards.
    pub fn take_driver_notification(&mut self) -> (rung: bool)
        ensures
            rung == old(self)@.driver_notified,
            final(self)@ == (LinkView { driver_notified: false, ..old(self)@ }),
            final(self).tx_wf() == old(self).tx_wf(),
            final(self).rx_wf() == old(self).rx_wf(),
    {
        let rung = self.to_driver;
        self.to_driver = false;
        rung
    }

    /// Whether the driver has rung for the client since the client last
    /// looked; the doorbell is silent afterwards.
    pub fn take_client_notification(&mut self) -> (rung: bool)
        ensures
            rung == old(self)@.client_notified,
            final(self)@ == (LinkView { client_notified: false, ..old(self)@ }),
            final(self).tx_wf() == old(self).tx_wf(),
            final(self).rx_wf() == old(self).rx_wf(),
    {
        let rung = self.to_client;
        self.to_client = false;
        rung
    }
}

} // verus!
