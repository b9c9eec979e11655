use ar_broker::protocol::{
    ARFrame, BoundingBox, DetectedObject, Milli, Vector3, PROTOCOL_VERSION,
};

#[test]
fn dummy_frame_is_a_bare_heartbeat() {
    let f = ARFrame::new_dummy(42);
    assert_eq!(f.timestamp, 42);
    assert_eq!(f.frame_id, 0);
    assert_eq!(f.protocol_version, PROTOCOL_VERSION);
    assert_eq!(f.protocol_version, 0x0100);
    assert!(f.objects.is_empty());
    assert!(f.hands.is_none());
    assert!(f.audio_context.is_none());
    assert!(f.device_states.is_none());
}

#[test]
fn estimated_size_counts_header_objects_and_sub_payloads() {
    let mut f = ARFrame::new_dummy(1);
    assert_eq!(f.estimate_size(), 16);
    f.objects.push(DetectedObject {
        class: String::from("chair"),
        confidence: Milli::new(800),
        bbox: BoundingBox {
            x: Milli::zero(),
            y: Milli::zero(),
            width: Milli::new(1000),
            height: Milli::new(1000),
        },
        position_3d: None,
        tracking_id: None,
    });
    assert_eq!(f.estimate_size(), 16 + 40);
}

#[test]
fn vector_constructors() {
    let v = Vector3::new(Milli::new(1), Milli::new(-2), Milli::new(3));
    assert_eq!(v.x.thousandths, 1);
    assert_eq!(v.y.thousandths, -2);
    assert_eq!(v.z.thousandths, 3);
    let z = Vector3::zero();
    assert_eq!(
        (z.x.thousandths, z.y.thousandths, z.z.thousandths),
        (0, 0, 0)
    );
    assert_eq!(Milli::zero(), Milli::new(0));
}
