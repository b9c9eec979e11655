use ar_broker::codec::decode_server_message;
use ar_broker::protocol::{Milli, QualityPreset, ServerMessage, StreamConfig};
use ar_broker::server::{
    conn_step, frame_interval_us, make_welcome, ARBridgeServer, ClientRegistry, ConnAction,
    ConnEvent, ConnPhase, ConnectedClient, FrameStreamer, InboundDisposition,
};

#[test]
fn default_stream_config_is_thirty_fps_medium() {
    let cfg = StreamConfig::default();
    assert_eq!(cfg.target_fps, 30);
    assert_eq!(cfg.quality, QualityPreset::Medium);
    assert!(!cfg.enable_compression);
}

#[test]
fn new_server_has_default_config_and_no_clients() {
    let server = ARBridgeServer::new(String::from("0.0.0.0:8765"));
    assert_eq!(server.bind_addr, "0.0.0.0:8765");
    assert_eq!(server.config, StreamConfig::default());
    assert_eq!(server.clients.count(), 0);
}

#[test]
fn welcome_announces_version_and_a_fresh_session_id() {
    let welcome = make_welcome();
    match &welcome {
        ServerMessage::Connected {
            server_version,
            session_id,
        } => {
            assert_eq!(server_version, "1.0.0");
            assert_eq!(session_id.chars().count(), 36);
        }
        other => panic!("expected a connection acknowledgement, got {:?}", other),
    }
    // Two handshakes never share a session id.
    let second = make_welcome();
    match (&welcome, &second) {
        (
            ServerMessage::Connected { session_id: a, .. },
            ServerMessage::Connected { session_id: b, .. },
        ) => assert_ne!(a, b),
        _ => unreachable!(),
    }
}

#[test]
fn inbound_texts_are_dispatched_by_kind() {
    let handshake = "{\"Connect\":{\"client_id\":\"q1\",\"protocol_version\":256,\
        \"capabilities\":{\"device_name\":\"Quest 3\",\"supports_hand_tracking\":true,\
        \"supports_spatial_audio\":true,\"max_fps\":90}}}";
    match ARBridgeServer::handle_client_text(handshake) {
        InboundDisposition::NoteHandshake {
            client_id,
            capabilities,
        } => {
            assert_eq!(client_id, "q1");
            assert_eq!(capabilities.max_fps, 90);
        }
        other => panic!("expected a handshake note, got {:?}", other),
    }

    let reconfigure = "{\"ConfigureStream\":{\"target_fps\":10,\"quality\":\"Low\"}}";
    assert_eq!(
        ARBridgeServer::handle_client_text(reconfigure),
        InboundDisposition::NoteReconfigure {
            target_fps: 10,
            quality: QualityPreset::Low
        }
    );

    let ping = "{\"Ping\":{\"timestamp\":4242}}";
    assert_eq!(
        ARBridgeServer::handle_client_text(ping),
        InboundDisposition::KeepAlive { timestamp: 4242 }
    );

    let subscribe = "{\"Subscribe\":{\"streams\":[\"SpatialAudio\"]}}";
    assert_eq!(
        ARBridgeServer::handle_client_text(subscribe),
        InboundDisposition::Ignore
    );

    assert_eq!(
        ARBridgeServer::handle_client_text("%%% garbage %%%"),
        InboundDisposition::DropMalformed
    );
}

fn client(id: &str) -> ConnectedClient {
    ConnectedClient {
        client_id: String::from(id),
        capabilities: None,
        last_ping: 0,
    }
}

#[test]
fn connection_count_returns_to_zero_after_teardown() {
    let mut registry = ClientRegistry::new();
    registry.add(client("a"));
    registry.add(client("b"));
    assert_eq!(registry.count(), 2);

    // The client that disconnects during its first tick is torn down:
    // receive loop sees the close, the send loop is cancelled, and the
    // registry entry goes.
    let (phase, action) = conn_step(ConnPhase::Active, ConnEvent::PeerClosed);
    assert_eq!(phase, ConnPhase::Closed);
    assert_eq!(action, ConnAction::TeardownBoth);
    assert!(registry.remove("a"));
    assert_eq!(registry.count(), 1);

    let (phase, action) = conn_step(ConnPhase::Active, ConnEvent::SendFailed);
    assert_eq!(phase, ConnPhase::Closed);
    assert_eq!(action, ConnAction::TeardownBoth);
    assert!(registry.remove("b"));
    assert_eq!(registry.count(), 0);

    assert!(!registry.remove("a"), "a departed client is gone");
}

#[test]
fn lifecycle_promotes_on_welcome_and_ignores_stray_events() {
    assert_eq!(
        conn_step(ConnPhase::Accepted, ConnEvent::WelcomeSent),
        (ConnPhase::Active, ConnAction::StartLoops)
    );
    assert_eq!(
        conn_step(ConnPhase::Closed, ConnEvent::PeerClosed),
        (ConnPhase::Closed, ConnAction::KeepGoing)
    );
    assert_eq!(
        conn_step(ConnPhase::Accepted, ConnEvent::SendFailed),
        (ConnPhase::Accepted, ConnAction::KeepGoing)
    );
}

#[test]
fn per_client_cadence_is_independent_of_other_clients() {
    // Over a one-second window each client ticks at its own rate.
    let window_us: u64 = 1_000_000;
    let slow = window_us / frame_interval_us(10);
    let fast = window_us / frame_interval_us(30);
    assert_eq!(slow, 10);
    assert_eq!(fast, 30);
    assert_eq!(frame_interval_us(10), 100_000);
    assert_eq!(frame_interval_us(30), 33_333);
}

#[test]
fn streamed_frames_carry_running_ids_and_decode() {
    let mut streamer = FrameStreamer::new();
    let first = streamer.next_frame_text(1000);
    let second = streamer.next_frame_text(2000);
    match decode_server_message(&first).expect("first tick decodes") {
        ServerMessage::Frame(f) => {
            assert_eq!(f.frame_id, 0);
            assert_eq!(f.timestamp, 1000);
        }
        other => panic!("expected a frame, got {:?}", other),
    }
    match decode_server_message(&second).expect("second tick decodes") {
        ServerMessage::Frame(f) => assert_eq!(f.frame_id, 1),
        other => panic!("expected a frame, got {:?}", other),
    }
}

#[test]
fn frame_id_wraparound_is_not_an_error() {
    let mut streamer = FrameStreamer { frame_id: u32::MAX };
    let at_max = streamer.next_frame_text(5000);
    assert_eq!(streamer.frame_id, 0, "the id wraps to zero");
    let after_wrap = streamer.next_frame_text(5001);
    match decode_server_message(&at_max).expect("frame at the largest id decodes") {
        ServerMessage::Frame(f) => assert_eq!(f.frame_id, u32::MAX),
        other => panic!("expected a frame, got {:?}", other),
    }
    match decode_server_message(&after_wrap).expect("wrapped frame decodes") {
        ServerMessage::Frame(f) => assert_eq!(f.frame_id, 0),
        other => panic!("expected a frame, got {:?}", other),
    }
}

#[test]
fn meter_bar_and_labels() {
    let meter = ar_broker::meter::AudioMeter::new();
    assert_eq!(meter.bar_length, 40);
    assert_eq!(meter.frame_count, 0);
    let bar = meter.create_bar(3);
    assert_eq!(bar.chars().count(), 40);
    assert_eq!(bar, format!("{}{}", "\u{2588}".repeat(3), " ".repeat(37)));
    let empty = meter.create_bar(0);
    assert_eq!(empty, " ".repeat(40));
    assert_eq!(meter.get_signal_strength(Milli::new(-10000)), "LOUDDDDD");
    assert_eq!(meter.get_signal_strength(Milli::new(-30000)), "GOOD");
    assert_eq!(meter.get_signal_strength(Milli::new(-40000)), "LOW");
    assert_eq!(meter.get_signal_strength(Milli::new(-60000)), "SILENCE");
}
