//! Per-window queues and the routing registry.

use gpui_core::processor::{InputProcessorState, ProcessorAction};
use gpui_core::system::{
    initialize_event_bus, post_input_event, shutdown_event_bus, EventBusStats, EventSystem,
};
use gpui_core::window_queue::WindowEventQueue;

#[derive(Clone, Debug, PartialEq, Eq)]
struct KeyInput {
    key: String,
    is_held: bool,
}

fn key_input(key: &str) -> KeyInput {
    KeyInput { key: key.to_string(), is_held: false }
}

#[test]
fn test_queue_isolation() {
    let mut queue1 = WindowEventQueue::new();
    let queue2: WindowEventQueue<KeyInput> = WindowEventQueue::new();

    queue1.post(key_input("a"));

    assert_eq!(queue2.pending_count(), 0);
    assert_eq!(queue1.pending_count(), 1);
}

#[test]
fn test_batch_draining() {
    let mut queue = WindowEventQueue::new();

    for _ in 0..100 {
        queue.post(key_input("a"));
    }

    let batch1 = queue.drain_events(10);
    assert_eq!(batch1.len(), 10);
    assert_eq!(queue.pending_count(), 90);

    let batch2 = queue.drain_events(10);
    assert_eq!(batch2.len(), 10);
    assert_eq!(queue.pending_count(), 80);
}

#[test]
fn three_batch_drains_leave_seventy_pending() {
    let mut queue = WindowEventQueue::new();
    for index in 0..100u64 {
        queue.post(index);
    }
    let batch1 = queue.drain_events(10);
    let batch2 = queue.drain_events(10);
    let batch3 = queue.drain_events(10);
    assert_eq!(batch1.len(), 10);
    assert_eq!(batch2.len(), 10);
    assert_eq!(batch3.len(), 10);
    assert_eq!(queue.pending_count(), 70);
    assert_eq!(batch1[0].input, 0);
    assert_eq!(batch2[0].input, 10);
    assert_eq!(batch3[9].input, 29);
    assert!(!queue.is_empty());
}

#[test]
fn registry_window_isolation() {
    let mut system: EventSystem<KeyInput> = EventSystem::new();
    system.register_window(1);
    system.register_window(2);

    system.post_input_event_for_window(1, key_input("a"));

    assert_eq!(system.window_pending_count(1), 1);
    assert_eq!(system.window_pending_count(2), 0);

    let drained = system.drain_window_events(1, 10);
    assert_eq!(drained.len(), 1);
    assert_eq!(drained[0].input, key_input("a"));
    assert_eq!(drained[0].sequence_number, 0);
    assert_eq!(system.window_pending_count(1), 0);
    assert_eq!(system.window_pending_count(2), 0);
}

#[test]
fn registry_drops_events_for_unknown_windows() {
    let mut system: EventSystem<u64> = EventSystem::new();
    system.register_window(7);
    system.post_input_event_for_window(9, 42);
    assert_eq!(system.window_pending_count(7), 0);
    assert_eq!(system.window_pending_count(9), 0);
    assert_eq!(system.drain_window_events(9, 10).len(), 0);
}

#[test]
fn registry_unregister_discards_pending() {
    let mut system: EventSystem<u64> = EventSystem::new();
    system.register_window(1);
    system.register_window(2);
    system.post_input_event_for_window(1, 5);
    system.post_input_event_for_window(2, 6);
    system.unregister_window(1);
    assert_eq!(system.window_pending_count(1), 0);
    assert_eq!(system.window_pending_count(2), 1);
    system.register_window(2);
    assert_eq!(system.window_pending_count(2), 0);
}

#[test]
fn broadcast_reaches_every_window() {
    let mut system: EventSystem<u64> = EventSystem::new();
    system.register_window(1);
    system.register_window(2);
    system.register_window(3);
    system.broadcast_global_event(77);
    assert_eq!(system.window_pending_count(1), 1);
    assert_eq!(system.window_pending_count(2), 1);
    assert_eq!(system.window_pending_count(3), 1);
    let drained = system.drain_window_events(2, 10);
    assert_eq!(drained.len(), 1);
    assert_eq!(drained[0].input, 77);
}

#[test]
fn initialize_and_shutdown_are_idempotent() {
    let mut system: EventSystem<u64> = EventSystem::new();
    initialize_event_bus(&mut system);
    initialize_event_bus(&mut system);
    system.register_window(4);
    post_input_event(&mut system, 11).unwrap();
    post_input_event(&mut system, 12).unwrap();

    let stats = EventBusStats::current(&system);
    assert_eq!(stats.total_pushed, 2);
    assert_eq!(stats.total_popped, 0);
    assert_eq!(stats.pending_events, 2);
    assert_eq!(stats.buffer_expansions, 0);
    assert_eq!(stats.push_failures, 0);

    shutdown_event_bus(&mut system);
    assert_eq!(system.window_pending_count(4), 0);
    let stats = EventBusStats::current(&system);
    assert_eq!(stats.pending_events, 2);
    shutdown_event_bus(&mut system);
}

#[test]
fn global_events_drain_through_the_context() {
    let mut system: EventSystem<u64> = EventSystem::new();
    initialize_event_bus(&mut system);
    for value in 0..10u64 {
        post_input_event(&mut system, value).unwrap();
    }
    let batch = system.try_pop_batch(4);
    assert_eq!(batch.len(), 4);
    assert_eq!(batch[0].input, 0);
    assert_eq!(batch[0].sequence_number, 0);
    assert_eq!(batch[3].input, 3);
    let rest = system.try_pop_batch(100);
    assert_eq!(rest.len(), 6);
    assert_eq!(rest[5].input, 9);
    assert_eq!(rest[5].sequence_number, 9);
    let stats = EventBusStats::current(&system);
    assert_eq!(stats.total_popped, 10);
    assert_eq!(stats.pending_events, 0);
}

#[test]
fn processor_backoff_decisions() {
    let mut processor = InputProcessorState::new();
    assert!(processor.start());
    assert!(!processor.start());

    assert_eq!(processor.on_batch(5), ProcessorAction::Dispatch);
    for _ in 0..10 {
        assert_eq!(processor.on_batch(0), ProcessorAction::Spin);
    }
    assert_eq!(processor.on_batch(0), ProcessorAction::Sleep);
    assert_eq!(processor.on_batch(0), ProcessorAction::Sleep);
    assert_eq!(processor.on_batch(3), ProcessorAction::Dispatch);
    assert_eq!(processor.on_batch(0), ProcessorAction::Spin);

    assert!(processor.stop());
    assert!(!processor.stop());
}

#[test]
fn processor_lifecycle_drains_one_thousand_events() {
    let mut bus = gpui_core::bus::EventBus::new();
    let mut processor = InputProcessorState::new();
    assert!(processor.start());

    for value in 0..1000u64 {
        bus.push(value).unwrap();
    }

    let mut dispatched: u64 = 0;
    while bus.stats().total_events_popped < 1000 {
        let batch = bus.try_pop_batch(gpui_core::processor::PROCESSOR_BATCH_SIZE);
        let action = processor.on_batch(batch.len());
        if batch.is_empty() {
            assert!(action == ProcessorAction::Spin || action == ProcessorAction::Sleep);
        } else {
            assert_eq!(action, ProcessorAction::Dispatch);
            for event in batch {
                assert_eq!(event.input, dispatched);
                dispatched += 1;
            }
        }
    }

    assert_eq!(bus.stats().total_events_popped, 1000);
    assert_eq!(dispatched, 1000);
    assert!(processor.stop());
    assert_eq!(bus.try_pop_batch(64).len(), 0);
}
