use hugo4os::keyboard::{InitOnce, ScancodeStream, StreamPoll};
use hugo4os::queue::TaskQueue;

#[test]
fn wake_registered_consumer_then_poll_yields_byte() {
    let mut once = InitOnce::new();
    let mut stream = ScancodeStream::new(&mut once);
    let mut ready = TaskQueue::new(10);
    let consumer: u64 = 7;
    // consumer finds nothing and suspends, registering itself
    assert_eq!(stream.poll_next(consumer), StreamPoll::Pending);
    // one byte arrives from the interrupt handler
    assert!(stream.add_scancode(&mut ready, 0x1E));
    // exactly that consumer was woken, exactly once
    assert_eq!(ready.pop(), Some(consumer));
    assert_eq!(ready.pop(), None);
    // and its next poll yields exactly the pushed byte
    assert_eq!(stream.poll_next(consumer), StreamPoll::Ready(0x1E));
    assert_eq!(stream.poll_next(consumer), StreamPoll::Pending);
}

#[test]
fn wake_consumes_the_registration() {
    let mut once = InitOnce::new();
    let mut stream = ScancodeStream::new(&mut once);
    let mut ready = TaskQueue::new(10);
    assert_eq!(stream.poll_next(3), StreamPoll::Pending);
    assert!(stream.add_scancode(&mut ready, 0x01));
    assert_eq!(ready.pop(), Some(3));
    // the waker was taken by the wake: a second byte wakes nobody
    assert!(stream.add_scancode(&mut ready, 0x02));
    assert_eq!(ready.pop(), None);
}

#[test]
fn last_registration_wins() {
    let mut once = InitOnce::new();
    let mut stream = ScancodeStream::new(&mut once);
    let mut ready = TaskQueue::new(10);
    assert_eq!(stream.poll_next(3), StreamPoll::Pending);
    assert_eq!(stream.poll_next(9), StreamPoll::Pending);
    assert!(stream.add_scancode(&mut ready, 0x55));
    assert_eq!(ready.pop(), Some(9));
    assert_eq!(ready.pop(), None);
}

#[test]
fn overflow_drops_exactly_the_excess_bytes_in_order() {
    let mut once = InitOnce::new();
    let mut stream = ScancodeStream::new(&mut once);
    let mut ready = TaskQueue::new(10);
    // capacity is 100: the 101st byte must be dropped
    for i in 0..100u32 {
        assert!(stream.add_scancode(&mut ready, i as u8), "byte {} rejected", i);
    }
    assert!(!stream.add_scancode(&mut ready, 0xEE));
    assert_eq!(stream.buffered(), 100);
    // the retained bytes are the first hundred, in original push order
    for i in 0..100u32 {
        assert_eq!(stream.poll_next(1), StreamPoll::Ready(i as u8));
    }
    assert_eq!(stream.poll_next(1), StreamPoll::Pending);
}

#[test]
fn producer_never_wakes_without_registration() {
    let mut once = InitOnce::new();
    let mut stream = ScancodeStream::new(&mut once);
    let mut ready = TaskQueue::new(10);
    assert!(stream.add_scancode(&mut ready, 0x10));
    assert_eq!(ready.pop(), None);
    assert_eq!(stream.buffered(), 1);
}
