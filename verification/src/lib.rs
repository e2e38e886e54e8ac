//! Ethernet frames between two isolated domains, without copying them
//! across the boundary.
//!
//! A client, which runs a network stack, and a driver, which owns the
//! device, share nothing but a [`link::Link`]: for each direction a ring of
//! free slots, a ring of used slots and a pool of frame buffers, and a
//! doorbell each way. A slot belongs to whoever took its index out of a
//! ring last; handing the index on hands the buffer on.
//!
//! - [`ringbuffer`]: the fixed-capacity queue that every ring is.
//! - [`frame`]: the frame buffer, and what is taken on trust about it.
//! - [`transport`]: one direction, and the conservation of its slots.
//! - [`link`]: both directions and the doorbells.
//! - [`device`]: the client's end, which hands out tokens to a polling stack.
//! - [`handler`]: the driver's end, which loops every frame back.
//! - [`protocol`]: what the two ends achieve together.
//!
//! Every operation runs to its end before the next begins, and none waits:
//! where there is nothing to hand out, the answer is `None`.

use vstd::prelude::*;

pub mod device;
pub mod frame;
pub mod handler;
pub mod link;
pub mod protocol;
pub mod ringbuffer;
pub mod transport;

verus! {

/// Largest frame payload, in bytes, that one buffer slot holds.
pub const MTU: usize = 1500;

/// Number of buffer slots for frames on their way to the driver.
pub const TX_BUF_SIZE: usize = 8;

/// Number of buffer slots for frames on their way to the client.
pub const RX_BUF_SIZE: usize = 8;

} // verus!
