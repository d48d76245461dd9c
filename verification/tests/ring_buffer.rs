use std::cmp::Ordering;
use temp_pair_enocean::ring_buffer::RingBuffer;

fn new_buffer() -> RingBuffer<u8, 4> {
    RingBuffer::new()
}

#[test]
pub fn test_empty() {
    let mut buf = new_buffer();
    assert_eq!(buf.len(), 0);
    assert!(buf.is_empty());
    assert!(!buf.is_full());

    let mut iter = buf.iter();
    assert_eq!(iter.next(), None);
    assert_eq!(iter.next(), None);
    assert_eq!(iter.next(), None);

    assert_eq!(buf.peek(), None);
    assert_eq!(buf.read(), None);
}

#[test]
pub fn test_read_write() {
    let mut buf = new_buffer();
    assert_eq!(buf.write(3), true);

    assert_eq!(buf.len(), 1);
    assert!(!buf.is_empty());
    assert!(!buf.is_full());

    let mut iter = buf.iter();
    assert_eq!(iter.next(), Some(&3));
    assert_eq!(iter.next(), None);
    assert_eq!(iter.next(), None);
    assert_eq!(iter.next(), None);
    assert_eq!(buf.len(), 1);

    assert_eq!(buf.peek(), Some(&3));
    assert_eq!(buf.len(), 1);

    assert_eq!(buf.read(), Some(3));
    assert_eq!(buf.len(), 0);
}

#[test]
pub fn test_fill() {
    let mut buf = new_buffer();
    assert_eq!(buf.write(3), true);
    assert_eq!(buf.write(4), true);
    assert_eq!(buf.write(5), true);
    assert_eq!(buf.write(6), false);

    assert_eq!(buf.len(), 3);
    assert!(!buf.is_empty());
    assert!(buf.is_full());

    let mut iter = buf.iter();
    assert_eq!(iter.next(), Some(&3));
    assert_eq!(iter.next(), Some(&4));
    assert_eq!(iter.next(), Some(&5));
    assert_eq!(iter.next(), None);
    assert_eq!(iter.next(), None);
    assert_eq!(iter.next(), None);
    assert_eq!(buf.len(), 3);

    assert_eq!(buf.peek(), Some(&3));
    assert_eq!(buf.len(), 3);
    assert_eq!(buf.read(), Some(3));
    assert_eq!(buf.len(), 2);

    assert_eq!(buf.peek(), Some(&4));
    assert_eq!(buf.len(), 2);
    assert_eq!(buf.read(), Some(4));
    assert_eq!(buf.len(), 1);

    assert_eq!(buf.peek(), Some(&5));
    assert_eq!(buf.len(), 1);
    assert_eq!(buf.read(), Some(5));
    assert_eq!(buf.len(), 0);
}

#[test]
pub fn test_wrwr() {
    let mut buf = new_buffer();
    assert_eq!(buf.write(3), true);
    assert_eq!(buf.write(4), true);
    assert_eq!(buf.write(5), true);

    assert_eq!(buf.len(), 3);
    assert!(!buf.is_empty());
    assert!(buf.is_full());

    {
        let mut iter = buf.iter();
        assert_eq!(iter.next(), Some(&3));
        assert_eq!(iter.next(), Some(&4));
        assert_eq!(iter.next(), Some(&5));
        assert_eq!(iter.next(), None);
        assert_eq!(iter.next(), None);
        assert_eq!(iter.next(), None);
        assert_eq!(buf.len(), 3);
    }

    assert_eq!(buf.read(), Some(3));
    assert_eq!(buf.len(), 2);

    assert_eq!(buf.write(6), true);

    {
        let mut iter = buf.iter();
        assert_eq!(iter.next(), Some(&4));
        assert_eq!(iter.next(), Some(&5));
        assert_eq!(iter.next(), Some(&6));
        assert_eq!(iter.next(), None);
        assert_eq!(iter.next(), None);
        assert_eq!(iter.next(), None);
        assert_eq!(buf.len(), 3);
    }

    assert_eq!(buf.peek(), Some(&4));
    assert_eq!(buf.len(), 3);
    assert_eq!(buf.read(), Some(4));
    assert_eq!(buf.len(), 2);

    assert_eq!(buf.peek(), Some(&5));
    assert_eq!(buf.len(), 2);
    assert_eq!(buf.read(), Some(5));
    assert_eq!(buf.len(), 1);

    assert_eq!(buf.peek(), Some(&6));
    assert_eq!(buf.len(), 1);
    assert_eq!(buf.read(), Some(6));
    assert_eq!(buf.len(), 0);
}

#[test]
fn len_never_exceeds_capacity() {
    let mut buf: RingBuffer<u8, 8> = RingBuffer::new();
    let mut written = 0usize;
    for round in 0..100u8 {
        if buf.write(round) {
            written += 1;
        }
        assert!(buf.len() <= 7);
        if round % 3 == 0 {
            let _ = buf.read();
        }
        assert!(buf.len() <= 7);
    }
    assert!(written > 7);
}

#[test]
fn write_on_full_queue_changes_nothing() {
    let mut buf = new_buffer();
    assert!(buf.write(1));
    assert!(buf.write(2));
    assert!(buf.write(3));
    assert_eq!(buf.write(9), false);
    assert_eq!(buf.len(), 3);
    assert_eq!(buf.read(), Some(1));
    assert_eq!(buf.read(), Some(2));
    assert_eq!(buf.read(), Some(3));
    assert_eq!(buf.read(), None);
}

#[test]
fn read_after_write_on_empty_queue_returns_the_value() {
    let mut buf = new_buffer();
    for value in [7u8, 0, 255, 0x55] {
        assert!(buf.write(value));
        assert_eq!(buf.read(), Some(value));
        assert!(buf.is_empty());
    }
}

#[test]
fn items_leave_in_the_order_written_across_the_wrap() {
    let mut buf: RingBuffer<u16, 5> = RingBuffer::new();
    let mut next_in = 0u16;
    let mut next_out = 0u16;
    for _ in 0..20 {
        while buf.write(next_in) {
            next_in += 1;
        }
        assert!(buf.is_full());
        assert_eq!(buf.read(), Some(next_out));
        next_out += 1;
        assert_eq!(buf.read(), Some(next_out));
        next_out += 1;
    }
}

#[test]
fn snapshot_copies_without_consuming() {
    let mut buf: RingBuffer<u8, 8> = RingBuffer::new();
    for value in [1u8, 2, 3, 4, 5] {
        assert!(buf.write(value));
    }
    assert_eq!(buf.read(), Some(1));

    let mut dest = [0xEEu8; 3];
    assert_eq!(buf.snapshot(&mut dest), 3);
    assert_eq!(dest, [2, 3, 4]);
    assert_eq!(buf.len(), 4);

    let mut wide = [0xEEu8; 6];
    assert_eq!(buf.snapshot(&mut wide), 4);
    assert_eq!(wide, [2, 3, 4, 5, 0xEE, 0xEE]);
    assert_eq!(buf.len(), 4);
    assert_eq!(buf.peek(), Some(&2));

    let mut none: [u8; 0] = [];
    assert_eq!(buf.snapshot(&mut none), 0);
}

#[test]
fn snapshot_of_empty_queue_copies_nothing() {
    let buf: RingBuffer<u8, 8> = RingBuffer::new();
    let mut dest = [9u8; 4];
    assert_eq!(buf.snapshot(&mut dest), 0);
    assert_eq!(dest, [9, 9, 9, 9]);
}

#[test]
fn snapshot_follows_the_wrap() {
    let mut buf: RingBuffer<u8, 4> = RingBuffer::new();
    for value in [1u8, 2, 3] {
        assert!(buf.write(value));
    }
    assert_eq!(buf.read(), Some(1));
    assert_eq!(buf.read(), Some(2));
    assert!(buf.write(4));
    assert!(buf.write(5));
    let mut dest = [0u8; 3];
    assert_eq!(buf.snapshot(&mut dest), 3);
    assert_eq!(dest, [3, 4, 5]);
}

#[test]
fn iterating_twice_gives_the_same_items() {
    let mut buf: RingBuffer<u8, 8> = RingBuffer::new();
    for value in [10u8, 20, 30] {
        assert!(buf.write(value));
    }
    let mut first = Vec::new();
    let mut iter = buf.iter();
    while let Some(item) = iter.next() {
        first.push(*item);
    }
    let mut second = Vec::new();
    let mut iter = buf.iter();
    while let Some(item) = iter.next() {
        second.push(*item);
    }
    assert_eq!(first, vec![10, 20, 30]);
    assert_eq!(first, second);
    assert_eq!(buf.len(), 3);
}

#[test]
fn queue_of_one_slot_holds_nothing() {
    let mut buf: RingBuffer<u8, 1> = RingBuffer::new();
    assert!(buf.is_empty());
    assert!(buf.is_full());
    assert_eq!(buf.write(1), false);
    assert_eq!(buf.read(), None);
    assert_eq!(buf.len(), 0);
}

#[test]
fn default_queue_is_empty() {
    let buf: RingBuffer<u8, 4> = RingBuffer::default();
    assert!(buf.is_empty());
    assert_eq!(buf.len(), 0);
}

#[test]
fn clone_holds_the_same_items() {
    let mut buf: RingBuffer<String, 4> = RingBuffer::new();
    assert!(buf.write("a".to_string()));
    assert!(buf.write("b".to_string()));
    assert_eq!(buf.read(), Some("a".to_string()));
    assert!(buf.write("c".to_string()));
    assert!(buf.write("d".to_string()));
    let mut copy = buf.clone();
    assert_eq!(copy.len(), 3);
    assert_eq!(copy.read(), Some("b".to_string()));
    assert_eq!(copy.read(), Some("c".to_string()));
    assert_eq!(copy.read(), Some("d".to_string()));
    assert_eq!(copy.read(), None);
    assert_eq!(buf.len(), 3);
}

#[test]
fn queues_are_equal_by_their_items() {
    let mut left: RingBuffer<u8, 4> = RingBuffer::new();
    let mut right: RingBuffer<u8, 4> = RingBuffer::new();
    assert!(left == right);
    assert!(left.write(1));
    assert!(left != right);
    assert!(right.write(0));
    assert_eq!(right.read(), Some(0));
    assert!(right.write(1));
    assert!(left == right);
    assert!(left.write(2));
    assert!(right.write(3));
    assert!(left != right);
}

#[test]
fn queues_are_ordered_like_sequences() {
    let mut left: RingBuffer<u8, 4> = RingBuffer::new();
    let mut right: RingBuffer<u8, 4> = RingBuffer::new();
    assert_eq!(left.partial_cmp(&right), Some(Ordering::Equal));
    assert!(left.write(1));
    assert_eq!(left.partial_cmp(&right), Some(Ordering::Greater));
    assert_eq!(right.partial_cmp(&left), Some(Ordering::Less));
    assert!(right.write(1));
    assert!(right.write(0));
    assert_eq!(left.partial_cmp(&right), Some(Ordering::Less));
    assert!(left.write(2));
    assert_eq!(left.partial_cmp(&right), Some(Ordering::Greater));
    assert!(left > right);
}
