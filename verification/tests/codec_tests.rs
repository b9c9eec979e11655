use ar_broker::codec::{
    decode_client_message, decode_server_message, encode_client_message, encode_server_message,
};
use ar_broker::protocol::{
    ARFrame, AudioContext, AudioSource, AudioSourceType, BoundingBox, ClientCapabilities,
    ClientMessage, DetectedObject, DeviceState, GestureType, HandPose, HandTrackingData,
    InteractionType, Milli, QualityPreset, ServerMessage, StreamType, TrackingSource, Vector3,
    HAND_LANDMARKS, PROTOCOL_VERSION,
};

fn v3(x: i64, y: i64, z: i64) -> Vector3 {
    Vector3::new(Milli::new(x), Milli::new(y), Milli::new(z))
}

fn rich_frame() -> ARFrame {
    let pose = HandPose {
        landmarks: (0..HAND_LANDMARKS as i64).map(|i| v3(i, -i, 500)).collect(),
        confidences: (0..HAND_LANDMARKS as i64).map(|i| Milli::new(900 + i)).collect(),
        gesture: Some(GestureType::Pinch),
    };
    ARFrame {
        timestamp: 123456789,
        frame_id: 42,
        protocol_version: PROTOCOL_VERSION,
        objects: vec![
            DetectedObject {
                class: String::from("mug"),
                confidence: Milli::new(950),
                bbox: BoundingBox {
                    x: Milli::new(100),
                    y: Milli::new(200),
                    width: Milli::new(50),
                    height: Milli::new(75),
                },
                position_3d: Some(v3(1000, -2000, 3500)),
                tracking_id: Some(7),
            },
            DetectedObject {
                class: String::from("keyboard"),
                confidence: Milli::new(620),
                bbox: BoundingBox {
                    x: Milli::new(0),
                    y: Milli::new(0),
                    width: Milli::new(1000),
                    height: Milli::new(1000),
                },
                position_3d: None,
                tracking_id: None,
            },
        ],
        hands: Some(HandTrackingData {
            left_hand: Some(pose),
            right_hand: None,
            confidence: Milli::new(880),
            source: TrackingSource::Fused,
        }),
        audio_context: Some(AudioContext {
            sources: vec![AudioSource {
                id: String::from("speaker-1"),
                position: v3(0, 1000, 0),
                source_type: AudioSourceType::Speech,
                volume: Milli::new(750),
            }],
            listener_position: v3(0, 0, 0),
            level_db: Milli::new(-20500),
        }),
        device_states: Some(vec![DeviceState {
            id: String::from("lamp-1"),
            device_type: String::from("light"),
            state: String::from("on"),
            position: v3(-500, 2000, 100),
            attributes: vec![(String::from("brightness"), String::from("70"))],
        }]),
    }
}

#[test]
fn dummy_frame_envelope_has_the_expected_text() {
    let frame = ARFrame::new_dummy(5);
    let text = encode_server_message(&ServerMessage::Frame(frame));
    assert_eq!(
        text,
        "{\"Frame\":{\"timestamp\":5,\"frame_id\":0,\"protocol_version\":256,\
         \"objects\":[],\"hands\":null,\"audio_context\":null,\"device_states\":null}}"
    );
}

#[test]
fn bare_and_enveloped_frames_decode_identically() {
    let frame = rich_frame();
    let enveloped = encode_server_message(&ServerMessage::Frame(frame.clone()));
    // The bare form is the envelope's payload without the wrapper.
    let bare = enveloped
        .strip_prefix("{\"Frame\":")
        .and_then(|s| s.strip_suffix("}"))
        .expect("envelope shape");
    let from_envelope = decode_server_message(&enveloped).expect("envelope decodes");
    let from_bare = decode_server_message(bare).expect("bare frame decodes");
    assert_eq!(from_envelope, ServerMessage::Frame(frame.clone()));
    assert_eq!(from_bare, from_envelope);
}

#[test]
fn frame_with_all_optional_fields_missing_decodes_to_absent() {
    let text = "{\"timestamp\":77,\"frame_id\":3}";
    let msg = decode_server_message(text).expect("minimal frame decodes");
    match msg {
        ServerMessage::Frame(f) => {
            assert_eq!(f.timestamp, 77);
            assert_eq!(f.frame_id, 3);
            assert_eq!(f.protocol_version, PROTOCOL_VERSION);
            assert!(f.objects.is_empty());
            assert!(f.hands.is_none());
            assert!(f.audio_context.is_none());
            assert!(f.device_states.is_none());
        }
        other => panic!("expected a frame, got {:?}", other),
    }
}

#[test]
fn rich_frame_survives_a_round_trip() {
    let frame = rich_frame();
    let text = encode_server_message(&ServerMessage::Frame(frame.clone()));
    let back = decode_server_message(&text).expect("decodes");
    assert_eq!(back, ServerMessage::Frame(frame));
}

#[test]
fn fractional_values_are_written_as_decimals() {
    let frame = rich_frame();
    let text = encode_server_message(&ServerMessage::Frame(frame));
    assert!(text.contains("\"confidence\":0.95"));
    assert!(text.contains("\"level_db\":-20.5"));
    assert!(text.contains("\"volume\":0.75"));
}

#[test]
fn integer_numbers_are_accepted_for_fractional_fields() {
    let text = "{\"timestamp\":1,\"frame_id\":1,\"objects\":[{\"class\":\"cup\",\
                \"confidence\":1,\"bbox\":{\"x\":0.5,\"y\":0.5,\"width\":0.25,\"height\":0.1}}]}";
    let msg = decode_server_message(text).expect("decodes");
    match msg {
        ServerMessage::Frame(f) => {
            assert_eq!(f.objects.len(), 1);
            assert_eq!(f.objects[0].confidence, Milli::new(1000));
            assert_eq!(f.objects[0].bbox.x, Milli::new(500));
            assert_eq!(f.objects[0].bbox.height, Milli::new(100));
        }
        other => panic!("expected a frame, got {:?}", other),
    }
}

#[test]
fn connected_error_and_pong_envelopes_round_trip() {
    let connected = ServerMessage::Connected {
        server_version: String::from("1.0.0"),
        session_id: String::from("abc-123"),
    };
    let error = ServerMessage::Error {
        code: 42,
        message: String::from("bad frame"),
    };
    let pong = ServerMessage::Pong {
        client_timestamp: 10,
        server_timestamp: 20,
    };
    for msg in [connected, error, pong] {
        let text = encode_server_message(&msg);
        assert_eq!(decode_server_message(&text).expect("decodes"), msg);
    }
}

#[test]
fn error_without_code_reads_back_with_code_zero() {
    let msg = decode_server_message("{\"Error\":{\"message\":\"oops\"}}").expect("decodes");
    assert_eq!(
        msg,
        ServerMessage::Error {
            code: 0,
            message: String::from("oops"),
        }
    );
}

#[test]
fn client_messages_round_trip() {
    let msgs = vec![
        ClientMessage::Connect {
            client_id: String::from("quest-1"),
            protocol_version: PROTOCOL_VERSION,
            capabilities: ClientCapabilities {
                device_name: String::from("Quest 3"),
                supports_hand_tracking: true,
                supports_spatial_audio: false,
                max_fps: 72,
            },
        },
        ClientMessage::Subscribe {
            streams: vec![StreamType::ObjectDetection, StreamType::HandTracking],
        },
        ClientMessage::ConfigureStream {
            target_fps: 10,
            quality: QualityPreset::Low,
        },
        ClientMessage::InteractionEvent {
            event_type: InteractionType::VoiceCommand {
                command: String::from("lights on"),
            },
            target: Some(String::from("lamp-1")),
        },
        ClientMessage::InteractionEvent {
            event_type: InteractionType::Tap,
            target: None,
        },
        ClientMessage::Ping { timestamp: 987 },
    ];
    for msg in msgs {
        let text = encode_client_message(&msg);
        assert_eq!(decode_client_message(&text).expect("decodes"), msg);
    }
}

#[test]
fn string_escapes_round_trip() {
    let msg = ServerMessage::Error {
        code: 1,
        message: String::from("line\nbreak \"quoted\" back\\slash\ttab"),
    };
    let text = encode_server_message(&msg);
    assert_eq!(decode_server_message(&text).expect("decodes"), msg);
}

#[test]
fn malformed_texts_are_rejected_not_crashed() {
    let cases = [
        "",
        "not json",
        "{\"Frame\":",
        "{\"timestamp\":\"high noon\",\"frame_id\":1}",
        "{\"frame_id\":1}",
        "{\"timestamp\":1}",
        "{\"Unknown\":{}}",
        "{\"timestamp\":99999999999999999999999999,\"frame_id\":1}",
        "{\"timestamp\":1,\"frame_id\":1,\"hands\":{\"confidence\":0.5,\"source\":\"Fused\"}} ",
    ];
    for text in cases {
        assert!(
            decode_server_message(text).is_none(),
            "expected rejection of {:?}",
            text
        );
    }
}

#[test]
fn pose_with_wrong_landmark_count_is_rejected() {
    let frame = ARFrame {
        hands: Some(HandTrackingData {
            left_hand: Some(HandPose {
                landmarks: vec![v3(0, 0, 0); 20],
                confidences: vec![Milli::new(1000); 20],
                gesture: None,
            }),
            right_hand: None,
            confidence: Milli::new(1000),
            source: TrackingSource::Quest3Native,
        }),
        ..ARFrame::new_dummy(1)
    };
    let text = encode_server_message(&ServerMessage::Frame(frame));
    assert!(decode_server_message(&text).is_none());
}

#[test]
fn unknown_fields_are_ignored() {
    let text = "{\"timestamp\":5,\"frame_id\":6,\"battery\":\"low\",\"extra\":[1,2,3]}";
    let msg = decode_server_message(text).expect("decodes");
    match msg {
        ServerMessage::Frame(f) => {
            assert_eq!(f.timestamp, 5);
            assert_eq!(f.frame_id, 6);
        }
        other => panic!("expected a frame, got {:?}", other),
    }
}
