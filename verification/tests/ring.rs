//! Tests for the bounded FIFO ring container.

use netstack::{PushError, RingBuffer};

#[derive(Debug, PartialEq, Eq)]
struct Item {
    val: i32,
    dropped: bool,
}

impl Item {
    pub fn new(val: i32) -> Self {
        Self { val, dropped: false }
    }
}

impl Drop for Item {
    fn drop(&mut self) {
        assert!(
            !self.dropped,
            "Item was dropped twice, something is wrong with the the ring buffer"
        );
        self.dropped = true;
    }
}

#[test]
fn test() {
    let mut ring = RingBuffer::<Item>::new(4);
    assert!(ring.is_empty());
    assert!(!ring.is_full());
    assert_eq!(ring.len(), 0);

    ring.push(Item::new(1)).expect("ring should not be full");

    assert!(!ring.is_empty());
    assert!(!ring.is_full());
    assert_eq!(ring.len(), 1);

    ring.push(Item::new(2)).expect("ring should not be full");
    ring.push(Item::new(3)).expect("ring should not be full");
    ring.push(Item::new(4)).expect("ring should not be full");

    assert!(!ring.is_empty());
    assert!(ring.is_full());
    assert_eq!(ring.len(), 4);
    assert!(matches!(ring.push(Item::new(5)), Err(PushError::RingIsFull)));
    assert_eq!(ring.dropped_count(), 1);

    let item = ring.pop().expect("ring should have 4 items");

    assert!(!ring.is_empty());
    assert!(!ring.is_full());
    assert_eq!(ring.len(), 3);
    assert_eq!(item.val, 1);

    assert_eq!(ring.pop().expect("ring should not be empty").val, 2);
    assert_eq!(ring.pop().expect("ring should not be empty").val, 3);
    assert_eq!(ring.pop().expect("ring should not be empty").val, 4);
    assert_eq!(ring.len(), 0);

    ring.push(Item::new(10)).expect("ring should not be full");
    ring.push(Item::new(20)).expect("ring should not be full");
    ring.push(Item::new(30)).expect("ring should not be full");
    ring.push(Item::new(40)).expect("ring should not be full");
}

#[test]
fn ring_capacity_four_concrete() {
    let mut ring = RingBuffer::<u32>::new(4);
    assert!(ring.push(1).is_ok());
    assert!(ring.push(2).is_ok());
    assert!(ring.push(3).is_ok());
    assert!(ring.push(4).is_ok());
    assert!(matches!(ring.push(5), Err(PushError::RingIsFull)));
    assert_eq!(ring.dropped_count(), 1);
    assert_eq!(ring.pop(), Some(1));
    assert_eq!(ring.pop(), Some(2));
    assert_eq!(ring.pop(), Some(3));
    assert_eq!(ring.pop(), Some(4));
    assert_eq!(ring.pop(), None);
    assert!(ring.is_empty());
}

#[test]
fn ring_wraparound_keeps_fifo_order() {
    let mut ring = RingBuffer::<u32>::new(4);
    for round in 0..10u32 {
        assert!(ring.push(round * 2).is_ok());
        assert!(ring.push(round * 2 + 1).is_ok());
        assert_eq!(ring.pop(), Some(round * 2));
        assert_eq!(ring.pop(), Some(round * 2 + 1));
    }
    assert!(ring.is_empty());
    assert_eq!(ring.dropped_count(), 0);
    assert!(ring.len() <= ring.capacity());
}

#[test]
fn ring_full_push_leaves_contents() {
    let mut ring = RingBuffer::<u32>::new(2);
    assert!(ring.push(7).is_ok());
    assert!(ring.push(8).is_ok());
    assert!(ring.push(9).is_err());
    assert!(ring.push(10).is_err());
    assert_eq!(ring.dropped_count(), 2);
    assert_eq!(ring.len(), 2);
    assert_eq!(ring.pop(), Some(7));
    assert_eq!(ring.pop(), Some(8));
}

#[test]
fn ring_clear_empties() {
    let mut ring = RingBuffer::<u32>::new(8);
    for v in 0..5u32 {
        assert!(ring.push(v).is_ok());
    }
    ring.clear();
    assert!(ring.is_empty());
    assert_eq!(ring.len(), 0);
    assert_eq!(ring.capacity(), 8);
    assert!(ring.push(42).is_ok());
    assert_eq!(ring.pop(), Some(42));
}

#[test]
fn ring_mask_wraps_indices() {
    let ring = RingBuffer::<u32>::new(8);
    assert_eq!(ring.mask(3), 3);
    assert_eq!(ring.mask(8), 0);
    assert_eq!(ring.mask(9), 1);
    assert_eq!(ring.mask(15), 7);
}
