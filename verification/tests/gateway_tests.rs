use ar_broker::bus::FanoutBus;
use ar_broker::gateway::{broadcast_frame, health, next_scene, scene_of_frame, FrameSimulator};
use ar_broker::protocol::{ARFrame, ARScene};

#[test]
fn health_reports_ok() {
    assert_eq!(health(), "MERLIN GraphQL Gateway OK");
}

#[test]
fn scenes_keep_timestamp_and_id_of_their_frame() {
    let mut frame = ARFrame::new_dummy(314159);
    frame.frame_id = 27;
    assert_eq!(
        scene_of_frame(&frame),
        ARScene {
            timestamp: 314159,
            frame_id: 27
        }
    );
}

#[test]
fn broadcast_without_subscribers_is_silent_success() {
    let mut bus: FanoutBus<ARScene> = FanoutBus::new(100);
    let frame = ARFrame::new_dummy(1);
    broadcast_frame(&mut bus, &frame);
    assert_eq!(bus.seq_now(), 1);
}

#[test]
fn subscription_stream_pulls_scenes_in_order() {
    let mut bus: FanoutBus<ARScene> = FanoutBus::new(100);
    let mut cursor = bus.subscribe();
    let mut frame = ARFrame::new_dummy(10);
    broadcast_frame(&mut bus, &frame);
    frame.timestamp = 20;
    frame.frame_id = 1;
    broadcast_frame(&mut bus, &frame);

    let (first, lag) = next_scene(&bus, &mut cursor).expect("scene ready");
    assert_eq!((first.timestamp, first.frame_id, lag), (10, 0, 0));
    let (second, lag) = next_scene(&bus, &mut cursor).expect("scene ready");
    assert_eq!((second.timestamp, second.frame_id, lag), (20, 1, 0));
    assert!(next_scene(&bus, &mut cursor).is_none(), "caught up: wait");
}

#[test]
fn simulator_ticks_advance_and_wrap() {
    let mut bus: FanoutBus<ARScene> = FanoutBus::new(8);
    let mut cursor = bus.subscribe();
    let mut sim = FrameSimulator::new();
    sim.tick(&mut bus, 100);
    sim.tick(&mut bus, 200);
    let (a, _) = next_scene(&bus, &mut cursor).expect("scene");
    let (b, _) = next_scene(&bus, &mut cursor).expect("scene");
    assert_eq!((a.frame_id, b.frame_id), (0, 1));

    let mut wrapping = FrameSimulator {
        frame_id: u32::MAX,
    };
    wrapping.tick(&mut bus, 300);
    assert_eq!(wrapping.frame_id, 0);
    wrapping.tick(&mut bus, 400);
    assert_eq!(wrapping.frame_id, 1);
}
