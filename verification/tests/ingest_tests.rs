use ar_broker::bus::FanoutBus;
use ar_broker::codec::encode_server_message;
use ar_broker::ingest::{
    IngestAction, IngestEvent, IngestPhase, JetsonARClient, RETRY_DELAY_MS,
};
use ar_broker::protocol::{ARFrame, ServerMessage};

fn new_client() -> (JetsonARClient, FanoutBus<ARFrame>) {
    (
        JetsonARClient::new(String::from("ws://jetson.local:8765")),
        FanoutBus::new(100),
    )
}

#[test]
fn producer_that_acks_then_closes_triggers_delayed_reconnect_without_publishing() {
    let (mut client, mut bus) = new_client();
    assert_eq!(client.phase, IngestPhase::Disconnected);

    assert_eq!(
        client.on_event(&mut bus, IngestEvent::Start),
        IngestAction::Dial
    );
    assert_eq!(client.phase, IngestPhase::Connecting);

    assert_eq!(
        client.on_event(&mut bus, IngestEvent::ConnectOk),
        IngestAction::Idle
    );
    assert_eq!(client.phase, IngestPhase::Streaming);

    let ack = encode_server_message(&ServerMessage::Connected {
        server_version: String::from("1.0.0"),
        session_id: String::from("s-1"),
    });
    assert_eq!(
        client.on_event(&mut bus, IngestEvent::Inbound { text: ack }),
        IngestAction::NoteConnected
    );

    assert_eq!(
        client.on_event(&mut bus, IngestEvent::TransportClosed),
        IngestAction::Wait {
            delay_ms: RETRY_DELAY_MS
        }
    );
    assert_eq!(client.phase, IngestPhase::Disconnected);
    assert_eq!(bus.seq_now(), 0, "no frame may have been published");

    // The delayed attempt starts the cycle again.
    assert_eq!(
        client.on_event(&mut bus, IngestEvent::Start),
        IngestAction::Dial
    );
    assert_eq!(client.phase, IngestPhase::Connecting);
}

#[test]
fn decoded_frames_are_republished_on_the_bus() {
    let (mut client, mut bus) = new_client();
    let mut cursor = bus.subscribe();
    client.on_event(&mut bus, IngestEvent::Start);
    client.on_event(&mut bus, IngestEvent::ConnectOk);

    let enveloped = encode_server_message(&ServerMessage::Frame(ARFrame::new_dummy(11)));
    assert_eq!(
        client.on_event(&mut bus, IngestEvent::Inbound { text: enveloped }),
        IngestAction::Published
    );
    // A bare frame from an older producer is republished just the same.
    let bare = String::from("{\"timestamp\":12,\"frame_id\":1}");
    assert_eq!(
        client.on_event(&mut bus, IngestEvent::Inbound { text: bare }),
        IngestAction::Published
    );
    assert_eq!(bus.seq_now(), 2);
    let (first, _) = bus.try_next(&mut cursor).expect("frame on bus");
    assert_eq!(first.timestamp, 11);
    let (second, _) = bus.try_next(&mut cursor).expect("frame on bus");
    assert_eq!(second.timestamp, 12);
}

#[test]
fn failed_attempt_retries_after_fixed_delay() {
    let (mut client, mut bus) = new_client();
    client.on_event(&mut bus, IngestEvent::Start);
    assert_eq!(
        client.on_event(&mut bus, IngestEvent::ConnectFailed),
        IngestAction::Wait {
            delay_ms: RETRY_DELAY_MS
        }
    );
    assert_eq!(client.phase, IngestPhase::Disconnected);
}

#[test]
fn undecodable_and_non_frame_messages_are_dropped_quietly() {
    let (mut client, mut bus) = new_client();
    client.on_event(&mut bus, IngestEvent::Start);
    client.on_event(&mut bus, IngestEvent::ConnectOk);

    assert_eq!(
        client.on_event(
            &mut bus,
            IngestEvent::Inbound {
                text: String::from("{{{ not a message")
            }
        ),
        IngestAction::Discard
    );
    let error_envelope = String::from("{\"Error\":{\"code\":7,\"message\":\"overload\"}}");
    assert_eq!(
        client.on_event(
            &mut bus,
            IngestEvent::Inbound {
                text: error_envelope
            }
        ),
        IngestAction::NoteError
    );
    assert_eq!(client.phase, IngestPhase::Streaming, "stream goes on");
    assert_eq!(bus.seq_now(), 0);
}
