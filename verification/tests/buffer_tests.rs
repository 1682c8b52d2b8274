//! Tests of the bounded character buffer.

use ctxopt_core::RingBuffer;

#[test]
fn test_ring_buffer_push() {
    let mut buf = RingBuffer::new(10);
    buf.push("hello");
    assert_eq!(buf.content(), "hello");
    assert_eq!(buf.len(), 5);
}

#[test]
fn test_ring_buffer_overflow() {
    let mut buf = RingBuffer::new(5);
    buf.push("hello world");
    assert_eq!(buf.content(), "world");
    assert_eq!(buf.len(), 5);
}

#[test]
fn test_ring_buffer_last_n() {
    let mut buf = RingBuffer::new(100);
    buf.push("hello world");
    assert_eq!(buf.last_n(5), "world");
    assert_eq!(buf.last_n(100), "hello world");
}

#[test]
fn test_ring_buffer_clear() {
    let mut buf = RingBuffer::new(100);
    buf.push("hello");
    assert!(!buf.is_empty());
    buf.clear();
    assert!(buf.is_empty());
    assert_eq!(buf.len(), 0);
}

#[test]
fn test_ring_buffer_unicode() {
    let mut buf = RingBuffer::new(10);
    buf.push("héllo");
    assert_eq!(buf.len(), 5);
    assert_eq!(buf.content(), "héllo");
}

#[test]
fn test_ring_buffer_emoji() {
    let mut buf = RingBuffer::new(5);
    buf.push("a❯b");
    assert_eq!(buf.len(), 3);
    assert_eq!(buf.content(), "a❯b");
}

#[test]
fn test_ring_buffer_incremental_push() {
    let mut buf = RingBuffer::new(10);
    buf.push("hello");
    buf.push(" ");
    buf.push("world");
    // "hello " (6) + "world" (5) is 11 characters against a capacity of 10,
    // so the first character is evicted.
    assert_eq!(buf.content(), "ello world");
    assert_eq!(buf.len(), 10);
}

#[test]
fn test_ring_buffer_capacity() {
    let buf = RingBuffer::new(42);
    assert_eq!(buf.capacity(), 42);
    assert_eq!(buf.len(), 0);
}

#[test]
fn test_ring_buffer_zero_capacity_stays_empty() {
    let mut buf = RingBuffer::new(0);
    buf.push("abc");
    assert!(buf.is_empty());
    assert_eq!(buf.content(), "");
}
