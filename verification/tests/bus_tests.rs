use ar_broker::bus::FanoutBus;
use ar_broker::protocol::ARScene;

fn scene(id: u32) -> ARScene {
    ARScene {
        timestamp: 1000 + id as u64,
        frame_id: id,
    }
}

#[test]
fn publish_with_zero_subscribers_succeeds() {
    let mut bus: FanoutBus<ARScene> = FanoutBus::new(8);
    bus.publish(scene(0));
    bus.publish(scene(1));
    assert_eq!(bus.seq_now(), 2);
    assert!(!bus.is_closed());
}

#[test]
fn keeping_pace_subscriber_sees_every_entry_in_order() {
    let mut bus: FanoutBus<ARScene> = FanoutBus::new(8);
    let mut cursor = bus.subscribe();
    for id in 0..5u32 {
        bus.publish(scene(id));
    }
    for id in 0..5u32 {
        let (frame, skipped) = bus.try_next(&mut cursor).expect("entry available");
        assert_eq!(frame.frame_id, id);
        assert_eq!(skipped, 0);
    }
    assert!(bus.try_next(&mut cursor).is_none());
}

#[test]
fn subscriber_starts_at_tail_and_sees_no_history() {
    let mut bus: FanoutBus<ARScene> = FanoutBus::new(8);
    bus.publish(scene(0));
    bus.publish(scene(1));
    let mut cursor = bus.subscribe();
    assert!(bus.try_next(&mut cursor).is_none());
    bus.publish(scene(2));
    let (frame, skipped) = bus.try_next(&mut cursor).expect("entry available");
    assert_eq!(frame.frame_id, 2);
    assert_eq!(skipped, 0);
}

#[test]
fn paused_subscriber_is_fast_forwarded_with_lag_report() {
    let mut bus: FanoutBus<ARScene> = FanoutBus::new(3);
    let mut cursor = bus.subscribe();
    for id in 0..5u32 {
        bus.publish(scene(id));
    }
    // Entries 0 and 1 were evicted: the next read lands on the oldest
    // retained entry and reports the gap, with no error and no wait.
    let (frame, skipped) = bus.try_next(&mut cursor).expect("entry available");
    assert_eq!(frame.frame_id, 2);
    assert_eq!(skipped, 2);
    let (frame, skipped) = bus.try_next(&mut cursor).expect("entry available");
    assert_eq!(frame.frame_id, 3);
    assert_eq!(skipped, 0);
}

#[test]
fn slow_subscriber_never_blocks_publisher() {
    let mut bus: FanoutBus<ARScene> = FanoutBus::new(2);
    let mut lazy = bus.subscribe();
    let mut eager = bus.subscribe();
    for id in 0..100u32 {
        bus.publish(scene(id));
        let (frame, _) = bus.try_next(&mut eager).expect("entry available");
        assert_eq!(frame.frame_id, id);
    }
    assert_eq!(bus.seq_now(), 100);
    let (frame, skipped) = bus.try_next(&mut lazy).expect("entry available");
    assert_eq!(frame.frame_id, 98);
    assert_eq!(skipped, 98);
}

#[test]
fn closed_bus_still_serves_retained_entries() {
    let mut bus: FanoutBus<ARScene> = FanoutBus::new(4);
    let mut cursor = bus.subscribe();
    bus.publish(scene(0));
    bus.close();
    assert!(bus.is_closed());
    let (frame, skipped) = bus.try_next(&mut cursor).expect("entry available");
    assert_eq!(frame.frame_id, 0);
    assert_eq!(skipped, 0);
    assert!(bus.try_next(&mut cursor).is_none());
}

#[test]
fn wrapped_frame_ids_pass_through_the_bus() {
    let mut bus: FanoutBus<ARScene> = FanoutBus::new(4);
    let mut cursor = bus.subscribe();
    bus.publish(scene(u32::MAX));
    bus.publish(scene(u32::MAX.wrapping_add(1)));
    let (frame, _) = bus.try_next(&mut cursor).expect("entry available");
    assert_eq!(frame.frame_id, u32::MAX);
    let (frame, _) = bus.try_next(&mut cursor).expect("entry available");
    assert_eq!(frame.frame_id, 0);
}
