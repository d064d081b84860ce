//! Ring buffer and event bus behaviour.

use gpui_core::bus::{EventBus, EventBusError, INITIAL_BUFFER_CAPACITY, MAX_BUFFER_CAPACITY};
use gpui_core::ring::LockFreeRingBuffer;

#[derive(Clone, Debug, PartialEq, Eq)]
struct KeyInput {
    key: String,
    is_held: bool,
}

fn key_input(key: &str) -> KeyInput {
    KeyInput { key: key.to_string(), is_held: false }
}

#[test]
fn test_ring_buffer_push_pop() {
    let mut buffer = LockFreeRingBuffer::new(4);

    assert!(buffer.try_push(1));
    assert!(buffer.try_push(2));
    assert!(buffer.try_push(3));

    assert_eq!(buffer.try_pop(), Some(1));
    assert_eq!(buffer.try_pop(), Some(2));

    assert!(buffer.try_push(4));
    assert!(buffer.try_push(5));

    assert_eq!(buffer.try_pop(), Some(3));
    assert_eq!(buffer.try_pop(), Some(4));
    assert_eq!(buffer.try_pop(), Some(5));
    assert_eq!(buffer.try_pop(), None);
}

#[test]
fn test_ring_buffer_full() {
    let mut buffer = LockFreeRingBuffer::new(4);

    assert!(buffer.try_push(1));
    assert!(buffer.try_push(2));
    assert!(buffer.try_push(3));
    assert!(buffer.try_push(4));
    assert!(!buffer.try_push(5));

    assert_eq!(buffer.try_pop(), Some(1));
    assert!(buffer.try_push(5));
}

#[test]
fn ring_saturation_final_pop_order() {
    let mut buffer = LockFreeRingBuffer::new(4);

    assert!(buffer.try_push(1));
    assert!(buffer.try_push(2));
    assert!(buffer.try_push(3));
    assert!(buffer.try_push(4));
    assert!(!buffer.try_push(5));

    assert_eq!(buffer.try_pop(), Some(1));
    assert!(buffer.try_push(5));

    assert_eq!(buffer.try_pop(), Some(2));
    assert_eq!(buffer.try_pop(), Some(3));
    assert_eq!(buffer.try_pop(), Some(4));
    assert_eq!(buffer.try_pop(), Some(5));
    assert_eq!(buffer.try_pop(), None);
    assert!(buffer.is_empty());
    assert_eq!(buffer.len(), 0);
}

#[test]
fn test_event_bus_basic() {
    let mut bus = EventBus::new();

    let input = key_input("a");

    bus.push(input.clone()).unwrap();
    bus.push(input.clone()).unwrap();

    let events = bus.try_pop_batch(10);
    assert_eq!(events.len(), 2);
    assert_eq!(events[0].sequence_number, 0);
    assert_eq!(events[1].sequence_number, 1);
}

#[test]
fn test_event_bus_expansion() {
    let mut bus = EventBus::new();

    let input = key_input("a");

    for _ in 0..INITIAL_BUFFER_CAPACITY + 100 {
        bus.push(input.clone()).unwrap();
    }

    assert_eq!(bus.len(), INITIAL_BUFFER_CAPACITY + 100);
    assert!(bus.stats().buffer_expansions > 0);
    assert_eq!(bus.stats().max_buffer_size, 2 * INITIAL_BUFFER_CAPACITY);
    assert_eq!(bus.stats().push_failures, 0);

    let mut count = 0;
    while !bus.is_empty() {
        let events = bus.try_pop_batch(100);
        count += events.len();
        if events.is_empty() {
            break;
        }
    }

    assert_eq!(count, INITIAL_BUFFER_CAPACITY + 100);
}

#[test]
fn bus_expansion_sequence_numbers_contiguous() {
    let mut bus = EventBus::new();

    for value in 0..(INITIAL_BUFFER_CAPACITY + 100) as u64 {
        bus.push(value).unwrap();
    }

    assert_eq!(bus.len(), INITIAL_BUFFER_CAPACITY + 100);
    assert!(bus.stats().buffer_expansions >= 1);

    let mut expected: u64 = 0;
    loop {
        let events = bus.try_pop_batch(100);
        if events.is_empty() {
            break;
        }
        for event in events {
            assert_eq!(event.sequence_number, expected);
            assert_eq!(event.input, expected);
            expected += 1;
        }
    }
    assert_eq!(expected, (INITIAL_BUFFER_CAPACITY + 100) as u64);
    assert_eq!(bus.stats().total_events_pushed, expected);
    assert_eq!(bus.stats().total_events_popped, expected);
}

#[test]
fn bus_stats_track_pushes_and_pops() {
    let mut bus = EventBus::new();
    for value in 0..10u64 {
        bus.push(value).unwrap();
    }
    let batch = bus.try_pop_batch(4);
    assert_eq!(batch.len(), 4);
    assert_eq!(batch[0].input, 0);
    assert_eq!(batch[3].input, 3);
    assert_eq!(bus.len(), 6);
    assert_eq!(bus.stats().total_events_pushed, 10);
    assert_eq!(bus.stats().total_events_popped, 4);
    assert_eq!(bus.stats().buffer_expansions, 0);
    assert_eq!(bus.stats().max_buffer_size, 0);
    assert!(!bus.is_empty());
}

#[test]
fn bus_overload_is_reported_at_the_hard_maximum() {
    let mut bus = EventBus::new();
    for value in 0..MAX_BUFFER_CAPACITY as u64 {
        bus.push(value).unwrap();
    }
    assert_eq!(bus.len(), MAX_BUFFER_CAPACITY);
    assert_eq!(bus.push(0), Err(EventBusError::Overload));
    assert_eq!(bus.len(), MAX_BUFFER_CAPACITY);
    assert_eq!(bus.stats().total_events_pushed, MAX_BUFFER_CAPACITY as u64);
}
