use vstd::prelude::*;

use crate::bus::FanoutBus;
use crate::codec::{decode_server_message, spec_decode_server_text};
use crate::protocol::{ARFrame, ServerMessage, ServerMessageV};

verus! {

/// Milliseconds the client waits after a failed attempt or a lost
/// connection before dialing the producer again: a fixed interval, chosen
/// for fast recovery on a local link rather than growing back-off.
pub const RETRY_DELAY_MS: u64 = 5000;

/// Where the upstream connection stands.
#[derive(Clone, Copy, Debug, PartialEq, Eq, Structural)]
pub enum IngestPhase {
    Disconnected,
    Connecting,
    Streaming,
}

/// What the transport reports to the client.
#[derive(Clone, Debug, PartialEq)]
pub enum IngestEvent {
    /// Time to dial the producer.
    Start,
    /// The transport to the producer is up.
    ConnectOk,
    /// The attempt failed.
    ConnectFailed,
    /// One inbound text message.
    Inbound { text: String },
    /// The producer closed the link.
    TransportClosed,
    /// The link failed.
    TransportError,
}

/// Mathematical model of an `IngestEvent`.
pub enum IngestEventV {
    Start,
    ConnectOk,
    ConnectFailed,
    Inbound { text: Seq<char> },
    TransportClosed,
    TransportError,
}

impl View for IngestEvent {
    type V = IngestEventV;

    open spec fn view(&self) -> IngestEventV {
        match self {
            IngestEvent::Start => IngestEventV::Start,
            IngestEvent::ConnectOk => IngestEventV::ConnectOk,
            IngestEvent::ConnectFailed => IngestEventV::ConnectFailed,
            IngestEvent::Inbound { text } => IngestEventV::Inbound { text: text@ },
            IngestEvent::TransportClosed => IngestEventV::TransportClosed,
            IngestEvent::TransportError => IngestEventV::TransportError,
        }
    }
}

/// What the surrounding loop must do next.
#[derive(Clone, Copy, Debug, PartialEq, Eq, Structural)]
pub enum IngestAction {
    /// Open a transport connection to the producer.
    Dial,
    /// Wait this long, then raise `Start` again.
    Wait { delay_ms: u64 },
    /// A frame was decoded and published on the bus.
    Published,
    /// The producer's connection acknowledgement: logged, not republished.
    NoteConnected,
    /// An error envelope: logged, not republished.
    NoteError,
    /// A message that is dropped: undecodable, or of no use upstream.
    Discard,
    /// Nothing to do.
    Idle,
}

/// Mathematical model of an `IngestAction`.
pub enum IngestActionV {
    Dial,
    Wait { delay_ms: u64 },
    Published,
    NoteConnected,
    NoteError,
    Discard,
    Idle,
}

impl View for IngestAction {
    type V = IngestActionV;

    open spec fn view(&self) -> IngestActionV {
        match self {
            IngestAction::Dial => IngestActionV::Dial,
            IngestAction::Wait { delay_ms } => IngestActionV::Wait { delay_ms: *delay_ms },
            IngestAction::Published => IngestActionV::Published,
            IngestAction::NoteConnected => IngestActionV::NoteConnected,
            IngestAction::NoteError => IngestActionV::NoteError,
            IngestAction::Discard => IngestActionV::Discard,
            IngestAction::Idle => IngestActionV::Idle,
        }
    }
}

/// The whole behaviour of the client, one event at a time: the next phase
/// and the action owed to the surrounding loop.
///
/// While streaming, each inbound text is read as a tagged envelope with a
/// fall-back to a bare frame; only a frame is republished. A failed attempt
/// or a lost link returns to `Disconnected` with a fixed retry delay: losing
/// the producer never ends the loop. An event that does not belong to the
/// current phase changes nothing.
pub open spec fn spec_transition(phase: IngestPhase, ev: IngestEventV) -> (IngestPhase,
    IngestActionV,
) {
    match (phase, ev) {
        (IngestPhase::Disconnected, IngestEventV::Start) => (
            IngestPhase::Connecting,
            IngestActionV::Dial,
        ),
        (IngestPhase::Connecting, IngestEventV::ConnectOk) => (
            IngestPhase::Streaming,
            IngestActionV::Idle,
        ),
        (IngestPhase::Connecting, IngestEventV::ConnectFailed) => (
            IngestPhase::Disconnected,
            IngestActionV::Wait { delay_ms: RETRY_DELAY_MS },
        ),
        (IngestPhase::Streaming, IngestEventV::Inbound { text }) => (
            IngestPhase::Streaming,
            match spec_decode_server_text(text) {
                Some(ServerMessageV::Frame(f)) => IngestActionV::Published,
                Some(ServerMessageV::Connected { server_version, session_id }) =>
                    IngestActionV::NoteConnected,
                Some(ServerMessageV::Error { code, message }) => IngestActionV::NoteError,
                Some(ServerMessageV::Pong { client_timestamp, server_timestamp }) =>
                    IngestActionV::Discard,
                None => IngestActionV::Discard,
            },
        ),
        (IngestPhase::Streaming, IngestEventV::TransportClosed) => (
            IngestPhase::Disconnected,
            IngestActionV::Wait { delay_ms: RETRY_DELAY_MS },
        ),
        (IngestPhase::Streaming, IngestEventV::TransportError) => (
            IngestPhase::Disconnected,
            IngestActionV::Wait { delay_ms: RETRY_DELAY_MS },
        ),
        _ => (phase, IngestActionV::Idle),
    }
}

/// Resilient client for the upstream producer link: decodes inbound
/// envelopes, republishes frames onto the fan-out bus, and turns every
/// failure into a delayed reconnection.
pub struct JetsonARClient {
    /// Address of the upstream producer.
    pub jetson_url: String,
    /// Where the connection stands.
    pub phase: IngestPhase,
}

impl JetsonARClient {
    /// A client for the given producer address, initially disconnected.
    pub fn new(jetson_url: String) -> (r: Self)
        ensures
            r.phase == IngestPhase::Disconnected,
            r.jetson_url@ == jetson_url@,
    {
        JetsonARClient { jetson_url, phase: IngestPhase::Disconnected }
    }

    /// Feed one event through the machine. A decoded frame is published on
    /// the bus before this returns; nothing else ever touches the bus.
    pub fn on_event(&mut self, bus: &mut FanoutBus<ARFrame>, ev: IngestEvent) -> (a: IngestAction)
        requires
            old(bus).wf(),
            old(bus).hist().len() < u64::MAX,
        ensures
            final(bus).wf(),
            final(bus).cap() == old(bus).cap(),
            final(self).jetson_url == old(self).jetson_url,
            (final(self).phase, a@) == spec_transition(old(self).phase, ev@),
            match (old(self).phase, ev@) {
                (IngestPhase::Streaming, IngestEventV::Inbound { text }) => match
                    spec_decode_server_text(text) {
                    Some(ServerMessageV::Frame(fv)) => {
                        &&& final(bus).hist().len() == old(bus).hist().len() + 1
                        &&& final(bus).hist().last()@ == fv
                        &&& final(bus).hist().take(old(bus).hist().len() as int) == old(
                            bus,
                        ).hist()
                    },
                    _ => final(bus).hist() == old(bus).hist(),
                },
                _ => final(bus).hist() == old(bus).hist(),
            },
    {
        match ev {
            IngestEvent::Start => {
                if self.phase == IngestPhase::Disconnected {
                    self.phase = IngestPhase::Connecting;
                    IngestAction::Dial
                } else {
                    IngestAction::Idle
                }
            },
            IngestEvent::ConnectOk => {
                if self.phase == IngestPhase::Connecting {
                    self.phase = IngestPhase::Streaming;
                    IngestAction::Idle
                } else {
                    IngestAction::Idle
                }
            },
            IngestEvent::ConnectFailed => {
                if self.phase == IngestPhase::Connecting {
                    self.phase = IngestPhase::Disconnected;
                    IngestAction::Wait { delay_ms: RETRY_DELAY_MS }
                } else {
                    IngestAction::Idle
                }
            },
            IngestEvent::Inbound { text } => {
                if self.phase == IngestPhase::Streaming {
                    match decode_server_message(text.as_str()) {
                        Some(ServerMessage::Frame(f)) => {
                            let ghost h0 = bus.hist();
                            bus.publish(f);
                            proof {
                                assert(bus.hist().take(h0.len() as int) =~= h0);
                            }
                            IngestAction::Published
                        },
                        Some(ServerMessage::Connected { server_version, session_id }) => {
                            IngestAction::NoteConnected
                        },
                        Some(ServerMessage::Error { code, message }) => IngestAction::NoteError,
                        Some(ServerMessage::Pong { client_timestamp, server_timestamp }) => {
                            IngestAction::Discard
                        },
                        None => IngestAction::Discard,
                    }
                } else {
                    IngestAction::Idle
                }
            },
            IngestEvent::TransportClosed => {
                if self.phase == IngestPhase::Streaming {
                    self.phase = IngestPhase::Disconnected;
                    IngestAction::Wait { delay_ms: RETRY_DELAY_MS }
                } else {
                    IngestAction::Idle
                }
            },
            IngestEvent::TransportError => {
                if self.phase == IngestPhase::Streaming {
                    self.phase = IngestPhase::Disconnected;
                    IngestAction::Wait { delay_ms: RETRY_DELAY_MS }
                } else {
                    IngestAction::Idle
                }
            },
        }
    }
}

/// A connection acknowledgement is logged, never republished: while
/// streaming, an inbound acknowledgement leaves the phase unchanged and owes
/// no publication.
pub proof fn lemma_ack_not_published(t: Seq<char>)
    requires
        spec_decode_server_text(t) matches Some(m) && m is Connected,
    ensures
        spec_transition(IngestPhase::Streaming, IngestEventV::Inbound { text: t })
            == (IngestPhase::Streaming, IngestActionV::NoteConnected),
{
}

/// Every failure path returns to `Disconnected` with the fixed retry delay:
/// a failed attempt, a closed link and a broken link all owe a
/// `Wait(RETRY_DELAY_MS)` and another attempt, never an exit.
pub proof fn lemma_failure_always_retries(phase: IngestPhase, ev: IngestEventV)
    requires
        (phase == IngestPhase::Connecting && ev == IngestEventV::ConnectFailed) || (phase
            == IngestPhase::Streaming && (ev == IngestEventV::TransportClosed || ev
            == IngestEventV::TransportError)),
    ensures
        spec_transition(phase, ev) == (
            IngestPhase::Disconnected,
            IngestActionV::Wait { delay_ms: RETRY_DELAY_MS },
        ),
{
}

/// An undecodable message is discarded and the stream goes on: decode
/// failure never ends the connection.
pub proof fn lemma_decode_failure_tolerated(t: Seq<char>)
    requires
        spec_decode_server_text(t) is None,
    ensures
        spec_transition(IngestPhase::Streaming, IngestEventV::Inbound { text: t })
            == (IngestPhase::Streaming, IngestActionV::Discard),
{
}

} // verus!
