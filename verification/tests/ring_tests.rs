//! Tests of the SPSC descriptor ring: conservation, FIFO order, the
//! capacity bound, and the stop protocol.

use safebricks::ring::{RingBuffer, RingPoll, STOP_MARK};

fn drain(ring: &mut RingBuffer, want: usize) -> Vec<u64> {
    match ring.read_from_head(want) {
        RingPoll::Stopped => panic!("ring unexpectedly stopped"),
        RingPoll::Received(v) => v,
    }
}

#[test]
fn ring_rejects_non_power_of_two() {
    assert!(RingBuffer::new_in_heap(0).is_err());
    assert!(RingBuffer::new_in_heap(3).is_err());
    assert!(RingBuffer::new_in_heap(100).is_err());
    assert!(RingBuffer::new_in_heap(128).is_ok());
    assert!(RingBuffer::new_in_heap(1).is_ok());
}

#[test]
fn ring_fifo_order() {
    let mut ring = RingBuffer::new_in_heap(8).unwrap();
    let wrote = ring.write_at_tail(&vec![10, 20, 30, 40, 50]);
    assert_eq!(wrote, 5);
    let got = drain(&mut ring, 3);
    assert_eq!(got, vec![10, 20, 30]);
    let got = drain(&mut ring, 10);
    assert_eq!(got, vec![40, 50]);
}

#[test]
fn ring_conservation_over_interleaving() {
    let mut ring = RingBuffer::new_in_heap(4).unwrap();
    let mut written: u64 = 0;
    let mut read: u64 = 0;
    let mut next: u64 = 0;
    for round in 0..50 {
        let batch: Vec<u64> = (0..(round % 5)).map(|_| {
            next += 1;
            next
        }).collect();
        written += ring.write_at_tail(&batch) as u64;
        let got = drain(&mut ring, (round % 3) as usize);
        read += got.len() as u64;
        let queued = ring.tail().wrapping_sub(ring.head());
        assert_eq!(written, read + queued);
        assert!(queued <= ring.size());
    }
}

#[test]
fn ring_bounded_queue() {
    let mut ring = RingBuffer::new_in_heap(4).unwrap();
    let wrote = ring.write_at_tail(&vec![1, 2, 3, 4, 5, 6]);
    assert_eq!(wrote, 4);
    assert_eq!(ring.tail().wrapping_sub(ring.head()), 4);
    assert_eq!(ring.available(), 4);
    let wrote_more = ring.write_at_tail(&vec![7]);
    assert_eq!(wrote_more, 0);
}

#[test]
fn ring_wraps_around() {
    let mut ring = RingBuffer::new_in_heap(4).unwrap();
    for i in 0..20u64 {
        assert_eq!(ring.write_at_tail(&vec![i]), 1);
        let got = drain(&mut ring, 1);
        assert_eq!(got, vec![i]);
    }
    assert_eq!(ring.head(), 20);
    assert_eq!(ring.tail(), 20);
}

#[test]
fn ring_stop_visibility() {
    let mut ring = RingBuffer::new_in_heap(8).unwrap();
    ring.write_at_tail(&vec![1, 2, 3]);
    ring.publish_stop();
    assert_eq!(ring.size(), STOP_MARK);
    for _ in 0..5 {
        match ring.read_from_head(4) {
            RingPoll::Stopped => {}
            RingPoll::Received(_) => panic!("consumer must observe the stop sentinel"),
        }
    }
}

#[test]
fn ring_counters_advance() {
    let mut ring = RingBuffer::new_in_heap(4).unwrap();
    assert_eq!(ring.head(), 0);
    assert_eq!(ring.tail(), 0);
    ring.write_at_tail(&vec![1, 2, 3, 4, 5, 6]);
    // the producer counter advanced by exactly the accepted count, up to
    // head + size
    assert_eq!(ring.tail(), ring.head() + ring.size());
    drain(&mut ring, 3);
    assert_eq!(ring.head(), 3);
    assert_eq!(ring.tail(), 4);
}

#[test]
fn ring_backpressure() {
    // producer offers size + 1 slots while the consumer reads one at a time
    let size: usize = 4;
    let mut ring = RingBuffer::new_in_heap(size as u64).unwrap();
    let items: Vec<u64> = (100..105).collect();
    let mut offered = items.clone();
    let mut received: Vec<u64> = Vec::new();
    while !offered.is_empty() {
        let accepted = ring.write_at_tail(&offered);
        offered.drain(..accepted);
        // writer progress never exceeds head + size
        assert!(ring.tail().wrapping_sub(ring.head()) <= size as u64);
        received.extend(drain(&mut ring, 1));
    }
    received.extend(drain(&mut ring, size));
    assert_eq!(received, items);
    assert_eq!(ring.available(), 0);
}

#[test]
fn ring_clear_resets_counters() {
    let mut ring = RingBuffer::new_in_heap(8).unwrap();
    ring.write_at_tail(&vec![1, 2, 3]);
    ring.clear();
    assert_eq!(ring.head(), 0);
    assert_eq!(ring.tail(), 0);
    assert_eq!(drain(&mut ring, 8), Vec::<u64>::new());
}
