use std::collections::VecDeque;

use eth_driver_interface::ringbuffer::{Full, RingBuffer};

#[test]
fn empty_ring_has_no_entries() {
    let mut ring = RingBuffer::<usize, 4>::empty();
    assert_eq!(ring.len(), 0);
    assert!(ring.is_empty());
    assert!(!ring.is_full());
    assert_eq!(ring.take(), None);
    assert_eq!(ring.len(), 0);
    assert!(ring.is_empty());
}

#[test]
fn entries_leave_in_the_order_they_came() {
    let mut ring = RingBuffer::<u32, 4>::empty();
    assert_eq!(ring.put(10), Ok(()));
    assert_eq!(ring.put(20), Ok(()));
    assert_eq!(ring.put(30), Ok(()));
    assert_eq!(ring.len(), 3);
    assert_eq!(ring.take(), Some(10));
    assert_eq!(ring.take(), Some(20));
    assert_eq!(ring.put(40), Ok(()));
    assert_eq!(ring.put(50), Ok(()));
    assert_eq!(ring.put(60), Ok(()));
    assert!(ring.is_full());
    assert_eq!(ring.take(), Some(30));
    assert_eq!(ring.take(), Some(40));
    assert_eq!(ring.take(), Some(50));
    assert_eq!(ring.take(), Some(60));
    assert_eq!(ring.take(), None);
}

#[test]
fn full_ring_refuses_another_entry() {
    let mut ring = RingBuffer::<u8, 2>::empty();
    assert_eq!(ring.put(1), Ok(()));
    assert_eq!(ring.put(2), Ok(()));
    assert!(ring.is_full());
    assert_eq!(ring.len(), 2);
    assert_eq!(ring.put(3), Err(Full));
    assert_eq!(ring.len(), 2);
    assert!(ring.is_full());
    assert_eq!(ring.take(), Some(1));
    assert_eq!(ring.take(), Some(2));
    assert_eq!(ring.take(), None);
}

#[test]
fn ring_of_one_entry() {
    let mut ring = RingBuffer::<u8, 1>::empty();
    for round in 0..5u8 {
        assert!(ring.is_empty());
        assert_eq!(ring.put(round), Ok(()));
        assert!(ring.is_full());
        assert_eq!(ring.put(100), Err(Full));
        assert_eq!(ring.take(), Some(round));
        assert_eq!(ring.take(), None);
    }
}

#[test]
fn ring_without_room_is_empty_and_full() {
    let mut ring = RingBuffer::<u8, 0>::empty();
    assert!(ring.is_empty());
    assert!(ring.is_full());
    assert_eq!(ring.len(), 0);
    assert_eq!(ring.put(1), Err(Full));
    assert_eq!(ring.take(), None);
    assert_eq!(ring.len(), 0);
}

#[test]
fn ring_from_a_slice_holds_it_in_order() {
    let mut ring = RingBuffer::<usize, 8>::from_slice(&[0, 1, 2, 3, 4, 5, 6, 7]);
    assert!(ring.is_full());
    assert_eq!(ring.put(8), Err(Full));
    for i in 0..8 {
        assert_eq!(ring.take(), Some(i));
    }
    assert!(ring.is_empty());

    let mut ring = RingBuffer::<usize, 8>::from_slice(&[]);
    assert!(ring.is_empty());
    assert_eq!(ring.take(), None);

    let mut ring = RingBuffer::<usize, 8>::from_slice(&[7, 5]);
    assert_eq!(ring.len(), 2);
    assert_eq!(ring.take(), Some(7));
    assert_eq!(ring.take(), Some(5));
}

#[test]
fn copy_of_a_ring_goes_its_own_way() {
    let mut ring = RingBuffer::<u8, 3>::empty();
    assert_eq!(ring.put(1), Ok(()));
    let mut copy = ring;
    assert_eq!(copy.put(2), Ok(()));
    assert_eq!(ring.len(), 1);
    assert_eq!(copy.len(), 2);
    assert_eq!(ring.take(), Some(1));
    assert_eq!(copy.take(), Some(1));
    assert_eq!(copy.take(), Some(2));
}

/// Any run of puts and takes: the ring does what a queue with a limit does,
/// never holds more than its capacity, and hands out what it accepted, in
/// that order.
#[test]
fn ring_behaves_as_a_bounded_queue() {
    const SIZE: usize = 5;
    let mut ring = RingBuffer::<u64, SIZE>::empty();
    let mut model: VecDeque<u64> = VecDeque::new();
    let mut accepted: Vec<u64> = Vec::new();
    let mut taken: Vec<u64> = Vec::new();
    let mut state: u64 = 0x2545_f491_4f6c_dd1d;
    for step in 0..10_000u64 {
        state ^= state << 13;
        state ^= state >> 7;
        state ^= state << 17;
        if state % 3 != 0 {
            let put = ring.put(step);
            if model.len() < SIZE {
                assert_eq!(put, Ok(()));
                model.push_back(step);
                accepted.push(step);
            } else {
                assert_eq!(put, Err(Full));
            }
        } else {
            let entry = ring.take();
            assert_eq!(entry, model.pop_front());
            if let Some(entry) = entry {
                taken.push(entry);
            }
        }
        assert!(ring.len() <= SIZE);
        assert_eq!(ring.len(), model.len());
        assert_eq!(ring.is_empty(), model.is_empty());
        assert_eq!(ring.is_full(), model.len() == SIZE);
    }
    taken.extend(model.iter().copied());
    assert_eq!(taken, accepted);
}
