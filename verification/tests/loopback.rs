use eth_driver_interface::device::{Channel, EthDevice};
use eth_driver_interface::handler::{Drained, EthHandler};
use eth_driver_interface::link::Link;
use eth_driver_interface::{MTU, RX_BUF_SIZE, TX_BUF_SIZE};

const DRIVER: Channel = Channel { index: 2 };
const CLIENT: Channel = Channel { index: 2 };

fn set_up() -> (Link, EthDevice, EthHandler) {
    let mut link = Link::new(Default::default(), Default::default());
    let device = EthDevice::new(DRIVER, &mut link);
    let handler = EthHandler::new(CLIENT, &mut link);
    (link, device, handler)
}

#[test]
fn new_link_has_nothing_free() {
    let link = Link::new(Default::default(), Default::default());
    assert_eq!(link.tx().free_len(), 0);
    assert_eq!(link.tx().used_len(), 0);
    assert_eq!(link.rx().free_len(), 0);
    assert_eq!(link.rx().used_len(), 0);
}

#[test]
fn each_side_sets_up_its_own_direction() {
    let mut link = Link::new(Default::default(), Default::default());
    let _device = EthDevice::new(DRIVER, &mut link);
    assert_eq!(link.tx().free_len(), TX_BUF_SIZE);
    assert_eq!(link.rx().free_len(), 0);
    let _handler = EthHandler::new(CLIENT, &mut link);
    assert_eq!(link.rx().free_len(), RX_BUF_SIZE);
    assert_eq!(link.tx().used_len(), 0);
    assert_eq!(link.rx().used_len(), 0);
}

#[test]
fn written_frame_goes_round() {
    let (mut link, mut device, mut handler) = set_up();
    let token = device.transmit(&mut link).unwrap();
    let written = token.consume(&mut link, 4, |bytes| {
        assert_eq!(bytes, &[0, 0, 0, 0]);
        bytes.copy_from_slice(b"PING");
        bytes.len()
    });
    assert_eq!(written.unwrap(), 4);
    assert_eq!(link.tx().frame(0), b"PING");
    assert!(link.take_driver_notification());
    assert_eq!(handler.notified(CLIENT, &mut link), Drained { forwarded: 1, dropped: 0 });

    let (rx, tx) = device.receive(&mut link).unwrap();
    let text = rx.consume(|bytes| String::from_utf8(bytes.to_vec()).unwrap());
    assert_eq!(text, "PING");
    tx.release(&mut link);
}

#[test]
fn written_frame_is_as_long_as_asked() {
    let (mut link, mut device, _handler) = set_up();
    let token = device.transmit(&mut link).unwrap();
    // The writer fills only the first two of six bytes.
    let written = token.consume(&mut link, 6, |bytes| {
        bytes[0] = 1;
        bytes[1] = 2;
    });
    assert!(written.is_ok());
    assert_eq!(link.tx().frame(0), &[1, 2, 0, 0, 0, 0]);
    assert_eq!(link.tx().used_len(), 1);
}

#[test]
fn too_long_a_length_is_refused_before_the_writer_runs() {
    let (mut link, mut device, _handler) = set_up();
    let token = device.transmit(&mut link).unwrap();
    let mut called = false;
    let refused = token
        .consume(&mut link, MTU + 1, |_bytes| {
            called = true;
        })
        .unwrap_err();
    assert!(!called);
    assert_eq!(refused.length, MTU + 1);
    assert_eq!(refused.token.index(), 0);
    assert_eq!(link.tx().used_len(), 0);
    assert_eq!(link.tx().free_len(), TX_BUF_SIZE - 1);
    assert!(link.tx().frame(0).is_empty());
    assert!(!link.take_driver_notification());
    refused.token.release(&mut link);
    assert_eq!(link.tx().free_len(), TX_BUF_SIZE);
}

#[test]
fn longest_length_is_written() {
    let (mut link, mut device, mut handler) = set_up();
    let token = device.transmit(&mut link).unwrap();
    let written = token.consume(&mut link, MTU, |bytes| {
        assert_eq!(bytes.len(), MTU);
        bytes[MTU - 1] = 0xff;
    });
    assert!(written.is_ok());
    assert_eq!(handler.notified(CLIENT, &mut link), Drained { forwarded: 1, dropped: 0 });
    let (rx, tx) = device.receive(&mut link).unwrap();
    assert_eq!(rx.len(), MTU);
    let frame = rx.into_frame();
    assert_eq!(frame.len(), MTU);
    assert_eq!(frame[MTU - 1], 0xff);
    assert_eq!(frame[0], 0);
    tx.release(&mut link);
}

#[test]
fn slot_is_cleared_before_it_is_written_again() {
    let (mut link, mut device, mut handler) = set_up();
    // Go once round the eight slots with long frames.
    for _ in 0..TX_BUF_SIZE {
        let token = device.transmit(&mut link).unwrap();
        assert!(token.send(&mut link, b"a long frame").is_ok());
        handler.notified(CLIENT, &mut link);
        let (rx, tx) = device.receive(&mut link).unwrap();
        assert_eq!(rx.into_frame().as_slice(), b"a long frame");
        tx.release(&mut link);
    }
    // Each slot comes round again; a short frame leaves nothing of the long one.
    let token = device.transmit(&mut link).unwrap();
    let slot = token.index();
    assert_eq!(link.tx().frame(slot), b"a long frame");
    assert!(token.send(&mut link, b"hi").is_ok());
    assert_eq!(link.tx().frame(slot), b"hi");
    handler.notified(CLIENT, &mut link);
    let (rx, tx) = device.receive(&mut link).unwrap();
    assert_eq!(rx.len(), 2);
    assert_eq!(rx.into_frame().as_slice(), b"hi");
    tx.release(&mut link);
}

#[test]
fn received_frame_is_a_copy() {
    let (mut link, mut device, mut handler) = set_up();
    let token = device.transmit(&mut link).unwrap();
    assert!(token.send(&mut link, b"first").is_ok());
    handler.notified(CLIENT, &mut link);
    let (rx, tx) = device.receive(&mut link).unwrap();
    tx.release(&mut link);
    // The receive slot is free again and is written over; the token keeps its frame.
    let token = device.transmit(&mut link).unwrap();
    assert!(token.send(&mut link, b"second").is_ok());
    for _ in 0..RX_BUF_SIZE {
        let token = device.transmit(&mut link).unwrap();
        assert!(token.send(&mut link, b"again").is_ok());
        handler.notified(CLIENT, &mut link);
    }
    assert_eq!(rx.len(), 5);
    let changed = rx.consume(|bytes| {
        let seen = bytes.to_vec();
        bytes[0] = b'F';
        seen
    });
    assert_eq!(changed, b"first");
}

#[test]
fn ping_goes_round() {
    let (mut link, mut device, mut handler) = set_up();

    let token = device.transmit(&mut link).expect("a transmit slot is free");
    assert_eq!(token.index(), 0);
    assert!(token.send(&mut link, b"PING").is_ok());
    assert_eq!(link.tx().free_len(), TX_BUF_SIZE - 1);
    assert_eq!(link.tx().used_len(), 1);
    assert_eq!(link.tx().frame(0), b"PING");

    assert!(link.take_driver_notification());
    assert!(!link.take_driver_notification());
    let drained = handler.notified(CLIENT, &mut link);
    assert_eq!(drained, Drained { forwarded: 1, dropped: 0 });
    assert_eq!(link.tx().used_len(), 0);
    assert_eq!(link.tx().free_len(), TX_BUF_SIZE);
    assert_eq!(link.rx().used_len(), 1);
    assert_eq!(link.rx().free_len(), RX_BUF_SIZE - 1);
    assert_eq!(link.rx().frame(0), b"PING");
    assert!(link.take_client_notification());

    let (rx, tx) = device.receive(&mut link).expect("a frame waits and a slot is free");
    assert_eq!(rx.len(), 4);
    assert_eq!(rx.into_frame().as_slice(), b"PING");
    assert_eq!(link.rx().used_len(), 0);
    assert_eq!(link.rx().free_len(), RX_BUF_SIZE);
    assert_eq!(tx.index(), 1);
    assert_eq!(link.tx().free_len(), TX_BUF_SIZE - 1);
    tx.release(&mut link);

    assert_eq!(link.tx().free_len(), TX_BUF_SIZE);
    assert_eq!(link.tx().used_len(), 0);
    assert_eq!(link.rx().free_len(), RX_BUF_SIZE);
    assert_eq!(link.rx().used_len(), 0);

    // Every transmit slot is there, each once.
    let mut tokens = Vec::new();
    while let Some(token) = device.transmit(&mut link) {
        tokens.push(token);
    }
    let mut slots: Vec<usize> = tokens.iter().map(|token| token.index()).collect();
    assert_eq!(slots, [2, 3, 4, 5, 6, 7, 0, 1]);
    slots.sort();
    assert_eq!(slots, [0, 1, 2, 3, 4, 5, 6, 7]);

    // And every receive slot: eight frames find one each, in the order of
    // the free ring, which got slot 0 back last.
    for (i, token) in tokens.into_iter().enumerate() {
        assert!(token.send(&mut link, &[i as u8]).is_ok());
    }
    assert_eq!(
        handler.notified(CLIENT, &mut link),
        Drained { forwarded: RX_BUF_SIZE, dropped: 0 }
    );
    for (i, slot) in [1, 2, 3, 4, 5, 6, 7, 0].into_iter().enumerate() {
        assert_eq!(link.rx().frame(slot), &[i as u8]);
    }
}

#[test]
fn empty_frame_goes_round() {
    let (mut link, mut device, mut handler) = set_up();
    let token = device.transmit(&mut link).unwrap();
    assert!(token.send(&mut link, &[]).is_ok());
    assert_eq!(handler.notified(CLIENT, &mut link), Drained { forwarded: 1, dropped: 0 });
    let (rx, tx) = device.receive(&mut link).unwrap();
    assert_eq!(rx.len(), 0);
    assert!(rx.into_frame().as_slice().is_empty());
    tx.release(&mut link);
}

#[test]
fn full_frame_goes_round() {
    let (mut link, mut device, mut handler) = set_up();
    let mut frame = vec![0u8; MTU];
    for (i, byte) in frame.iter_mut().enumerate() {
        *byte = (i % 251) as u8;
    }
    let token = device.transmit(&mut link).unwrap();
    assert!(token.send(&mut link, &frame).is_ok());
    assert_eq!(handler.notified(CLIENT, &mut link), Drained { forwarded: 1, dropped: 0 });
    let (rx, tx) = device.receive(&mut link).unwrap();
    assert_eq!(rx.len(), MTU);
    assert_eq!(rx.into_frame().as_slice(), &frame[..]);
    tx.release(&mut link);
}

#[test]
fn too_long_a_frame_is_refused_and_nothing_is_written() {
    let (mut link, mut device, mut handler) = set_up();
    let first = device.transmit(&mut link).unwrap();
    assert!(first.send(&mut link, b"kept").is_ok());
    assert_eq!(handler.notified(CLIENT, &mut link), Drained { forwarded: 1, dropped: 0 });
    assert!(link.take_client_notification());

    // Slot 1 is next; slot 0 is free again and still holds "kept".
    let token = device.transmit(&mut link).unwrap();
    assert_eq!(token.index(), 1);
    let frame = vec![7u8; MTU + 1];
    assert!(!link.take_driver_notification());
    let refused = token.send(&mut link, &frame).unwrap_err();
    assert_eq!(refused.length, MTU + 1);
    assert_eq!(refused.token.index(), 1);
    assert!(link.tx().frame(1).is_empty());
    assert_eq!(link.tx().frame(0), b"kept");
    assert_eq!(link.tx().used_len(), 0);
    assert_eq!(link.tx().free_len(), TX_BUF_SIZE - 1);
    assert!(!link.take_driver_notification());

    // The token is still good.
    assert!(refused.token.send(&mut link, b"short").is_ok());
    assert_eq!(link.tx().frame(1), b"short");
    assert_eq!(link.tx().used_len(), 1);
}

#[test]
fn transmit_runs_dry_and_recovers() {
    let (mut link, mut device, mut handler) = set_up();
    for i in 0..TX_BUF_SIZE {
        let token = device.transmit(&mut link).expect("a transmit slot is free");
        assert_eq!(token.index(), i);
        assert!(token.send(&mut link, &[i as u8]).is_ok());
    }
    assert_eq!(link.tx().free_len(), 0);
    assert!(device.transmit(&mut link).is_none());
    assert_eq!(link.tx().used_len(), TX_BUF_SIZE);

    let drained = handler.notified(CLIENT, &mut link);
    assert_eq!(drained, Drained { forwarded: RX_BUF_SIZE, dropped: 0 });
    let token = device.transmit(&mut link).expect("the driver gave the slots back");
    assert_eq!(token.index(), 0);
    token.release(&mut link);
}

#[test]
fn frames_come_back_in_the_order_they_were_sent() {
    let (mut link, mut device, mut handler) = set_up();
    for frame in [&b"one"[..], &b"two"[..], &b"three"[..]] {
        let token = device.transmit(&mut link).unwrap();
        assert!(token.send(&mut link, frame).is_ok());
    }
    assert_eq!(handler.notified(CLIENT, &mut link), Drained { forwarded: 3, dropped: 0 });
    for frame in [&b"one"[..], &b"two"[..], &b"three"[..]] {
        let (rx, tx) = device.receive(&mut link).unwrap();
        assert_eq!(rx.into_frame().as_slice(), frame);
        tx.release(&mut link);
    }
    assert!(device.receive(&mut link).is_none());
}

#[test]
fn frames_are_dropped_when_no_receive_slot_is_free() {
    let (mut link, mut device, mut handler) = set_up();
    // Fill the receive direction: eight frames looped back, none received.
    for i in 0..RX_BUF_SIZE {
        let token = device.transmit(&mut link).unwrap();
        assert!(token.send(&mut link, &[i as u8]).is_ok());
    }
    assert_eq!(
        handler.notified(CLIENT, &mut link),
        Drained { forwarded: RX_BUF_SIZE, dropped: 0 }
    );
    assert_eq!(link.rx().free_len(), 0);
    assert_eq!(link.rx().used_len(), RX_BUF_SIZE);

    // Three more frames find no receive slot. Their transmit slots come back.
    for i in 0..3 {
        let token = device.transmit(&mut link).unwrap();
        assert!(token.send(&mut link, &[100 + i as u8]).is_ok());
    }
    assert_eq!(handler.notified(CLIENT, &mut link), Drained { forwarded: 0, dropped: 3 });
    assert_eq!(link.tx().free_len(), TX_BUF_SIZE);
    assert_eq!(link.tx().used_len(), 0);
    assert_eq!(link.rx().used_len(), RX_BUF_SIZE);

    // The first eight are still there, in order.
    for i in 0..RX_BUF_SIZE {
        let (rx, tx) = device.receive(&mut link).unwrap();
        assert_eq!(rx.into_frame().as_slice(), &[i as u8]);
        tx.release(&mut link);
    }
    assert!(device.receive(&mut link).is_none());
}

#[test]
fn notification_with_nothing_sent_changes_nothing() {
    let (mut link, _device, mut handler) = set_up();
    assert_eq!(handler.notified(CLIENT, &mut link), Drained { forwarded: 0, dropped: 0 });
    assert!(!link.take_client_notification());
    assert_eq!(link.tx().free_len(), TX_BUF_SIZE);
    assert_eq!(link.rx().free_len(), RX_BUF_SIZE);
    assert_eq!(link.rx().used_len(), 0);
}

#[test]
fn receive_needs_a_free_transmit_slot() {
    let (mut link, mut device, mut handler) = set_up();
    let token = device.transmit(&mut link).unwrap();
    assert!(token.send(&mut link, b"waits").is_ok());
    assert_eq!(handler.notified(CLIENT, &mut link), Drained { forwarded: 1, dropped: 0 });

    // Take every transmit slot.
    let mut tokens = Vec::new();
    while let Some(token) = device.transmit(&mut link) {
        tokens.push(token);
    }
    assert_eq!(tokens.len(), TX_BUF_SIZE);
    assert!(!link.take_driver_notification());

    // A frame waits, but no transmit slot is free.
    assert_eq!(link.rx().used_len(), 1);
    assert!(device.receive(&mut link).is_none());
    assert_eq!(link.rx().used_len(), 1);
    assert_eq!(link.rx().free_len(), RX_BUF_SIZE - 1);
    assert!(!link.take_driver_notification());

    // With one slot back, the frame is handed out.
    tokens.pop().unwrap().release(&mut link);
    let (rx, tx) = device.receive(&mut link).unwrap();
    assert_eq!(rx.into_frame().as_slice(), b"waits");
    assert!(link.take_driver_notification());
    tx.release(&mut link);
    for token in tokens {
        token.release(&mut link);
    }
    assert_eq!(link.tx().free_len(), TX_BUF_SIZE);
}

#[test]
fn receive_with_nothing_waiting_is_none() {
    let (mut link, mut device, _handler) = set_up();
    assert!(device.receive(&mut link).is_none());
    assert_eq!(link.tx().free_len(), TX_BUF_SIZE);
    assert!(!link.take_driver_notification());
}
