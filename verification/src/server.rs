use vstd::prelude::*;

use crate::codec::{
    encode_server_message, sj_frame, sj_server_msg, spec_decode_client_text, str_eq,
};
use crate::json::spec_json_text;
use crate::protocol::{
    ARFrame, ARFrameV, ClientCapabilities, ClientMessage, ClientMessageV, DetectedObjectV,
    QualityPreset, ServerMessage, ServerMessageV, StreamConfig, PROTOCOL_VERSION,
};

verus! {

/// The version string the broker announces in its handshake.
pub fn server_version_string() -> (r: &'static str)
    ensures
        r@ =~= "1.0.0"@,
{
    "1.0.0"
}

/// Relies on `uuid::Uuid::new_v4` and its `Display` impl: a fresh random
/// version-4 UUID, rendered in the hyphenated form, which is always 36
/// characters. The value depends on fresh randomness, so nothing more is
/// promised of it.
#[verifier::external_body]
fn fresh_session_id() -> (r: String)
    ensures
        r@.len() == 36,
{
    uuid::Uuid::new_v4().to_string()
}

/// One downstream viewer the broker currently serves.
pub struct ConnectedClient {
    /// Session id handed out in the handshake.
    pub client_id: String,
    /// Capabilities announced by the client, once it has sent them.
    pub capabilities: Option<ClientCapabilities>,
    /// Client clock of the last keep-alive, microseconds.
    pub last_ping: u64,
}

/// First position holding `id`, or -1.
pub open spec fn spec_find(s: Seq<ConnectedClient>, id: Seq<char>) -> int
    decreases s.len(),
{
    if s.len() == 0 {
        -1
    } else if s[0].client_id@ == id {
        0
    } else {
        let r = spec_find(s.drop_first(), id);
        if r < 0 {
            -1
        } else {
            r + 1
        }
    }
}

/// `spec_find` names the first position bearing `id`, and -1 exactly when no
/// position does.
pub proof fn lemma_find_char(s: Seq<ConnectedClient>, id: Seq<char>)
    ensures
        spec_find(s, id) == -1 <==> (forall|k: int|
            0 <= k < s.len() ==> s[k].client_id@ != id),
        spec_find(s, id) >= 0 ==> 0 <= spec_find(s, id) < s.len() && s[spec_find(
            s,
            id,
        )].client_id@ == id && (forall|k: int|
            0 <= k < spec_find(s, id) ==> s[k].client_id@ != id),
    decreases s.len(),
{
    if s.len() > 0 {
        lemma_find_char(s.drop_first(), id);
        if s[0].client_id@ != id {
            let r = spec_find(s.drop_first(), id);
            assert(forall|k: int|
                1 <= k < s.len() ==> s[k] == s.drop_first()[k - 1]);
        }
    }
}

/// The owned registry of connected viewers: the one piece of state shared
/// by the accept loop and the per-connection tasks, handed around
/// explicitly and mutated only through these methods.
pub struct ClientRegistry {
    clients: Vec<ConnectedClient>,
}

impl ClientRegistry {
    pub closed spec fn view_clients(&self) -> Seq<ConnectedClient> {
        self.clients@
    }

    /// An empty registry: no viewer connected.
    pub fn new() -> (r: Self)
        ensures
            r.view_clients() == Seq::<ConnectedClient>::empty(),
    {
        ClientRegistry { clients: Vec::new() }
    }

    /// How many viewers are connected.
    pub fn count(&self) -> (r: usize)
        ensures
            r == self.view_clients().len(),
    {
        self.clients.len()
    }

    /// Record a newly accepted connection.
    pub fn add(&mut self, c: ConnectedClient)
        requires
            old(self).view_clients().len() < usize::MAX,
        ensures
            final(self).view_clients() == old(self).view_clients().push(c),
    {
        self.clients.push(c);
    }

    /// Drop the connection bearing `id`: the first entry with that id
    /// leaves, and nothing else moves. Reports whether one was found.
    pub fn remove(&mut self, id: &str) -> (found: bool)
        ensures
            found == (spec_find(old(self).view_clients(), id@) >= 0),
            found ==> final(self).view_clients() == old(self).view_clients().remove(
                spec_find(old(self).view_clients(), id@),
            ),
            !found ==> final(self).view_clients() == old(self).view_clients(),
    {
        let mut i: usize = 0;
        while i < self.clients.len()
            invariant
                0 <= i <= self.clients@.len(),
                self.clients@ == old(self).view_clients(),
                forall|k: int| 0 <= k < i ==> self.clients@[k].client_id@ != id@,
            decreases self.clients@.len() - i,
        {
            if str_eq(self.clients[i].client_id.as_str(), id) {
                proof {
                    let s = old(self).view_clients();
                    lemma_find_char(s, id@);
                    let j = spec_find(s, id@);
                    assert(s[i as int].client_id@ == id@);
                    assert(j >= 0);
                    if j < i as int {
                        assert(s[j].client_id@ == id@);
                        assert(false);
                    }
                    if j > i as int {
                        assert(s[i as int].client_id@ != id@);
                        assert(false);
                    }
                }
                self.clients.remove(i);
                return true;
            }
            i = i + 1;
        }
        proof {
            lemma_find_char(old(self).view_clients(), id@);
        }
        false
    }
}

/// The connection acknowledgement sent once per accepted connection, before
/// any frame: the broker's version and a fresh 36-character session id.
pub fn make_welcome() -> (m: ServerMessage)
    ensures
        m@ matches ServerMessageV::Connected { server_version, session_id }
            && server_version =~= "1.0.0"@ && session_id.len() == 36,
{
    let server_version = String::from_str(server_version_string());
    let session_id = fresh_session_id();
    ServerMessage::Connected { server_version, session_id }
}

// ---------------------------------------------------------------------------
// Inbound client messages.
// ---------------------------------------------------------------------------

/// What the broker does with one inbound client message. Capabilities and
/// reconfiguration requests are noted, not yet enforced against the running
/// send loop; keep-alives are accepted silently; everything else is
/// accepted and ignored, and an undecodable text is dropped by itself,
/// never ending the connection.
#[derive(Clone, Debug, PartialEq)]
pub enum InboundDisposition {
    /// A handshake: note the client and its capabilities.
    NoteHandshake { client_id: String, capabilities: ClientCapabilities },
    /// A rate or quality request: noted as intent.
    NoteReconfigure { target_fps: u32, quality: QualityPreset },
    /// A keep-alive ping carrying the client's clock.
    KeepAlive { timestamp: u64 },
    /// A well-formed message of another kind: accepted and ignored.
    Ignore,
    /// An undecodable text: this one message is dropped.
    DropMalformed,
}

/// Mathematical model of an `InboundDisposition`.
pub enum InboundDispositionV {
    NoteHandshake { client_id: Seq<char>, capabilities: crate::protocol::ClientCapabilitiesV },
    NoteReconfigure { target_fps: u32, quality: QualityPreset },
    KeepAlive { timestamp: u64 },
    Ignore,
    DropMalformed,
}

impl View for InboundDisposition {
    type V = InboundDispositionV;

    open spec fn view(&self) -> InboundDispositionV {
        match self {
            InboundDisposition::NoteHandshake { client_id, capabilities } => {
                InboundDispositionV::NoteHandshake {
                    client_id: client_id@,
                    capabilities: capabilities@,
                }
            },
            InboundDisposition::NoteReconfigure { target_fps, quality } => {
                InboundDispositionV::NoteReconfigure {
                    target_fps: *target_fps,
                    quality: *quality,
                }
            },
            InboundDisposition::KeepAlive { timestamp } => InboundDispositionV::KeepAlive {
                timestamp: *timestamp,
            },
            InboundDisposition::Ignore => InboundDispositionV::Ignore,
            InboundDisposition::DropMalformed => InboundDispositionV::DropMalformed,
        }
    }
}

/// The disposition owed to one decoded client message.
pub open spec fn spec_dispatch(m: ClientMessageV) -> InboundDispositionV {
    match m {
        ClientMessageV::Connect { client_id, protocol_version, capabilities } => {
            InboundDispositionV::NoteHandshake { client_id, capabilities }
        },
        ClientMessageV::ConfigureStream { target_fps, quality } => {
            InboundDispositionV::NoteReconfigure { target_fps, quality }
        },
        ClientMessageV::Ping { timestamp } => InboundDispositionV::KeepAlive { timestamp },
        _ => InboundDispositionV::Ignore,
    }
}

/// The disposition owed to one inbound text.
pub open spec fn spec_dispatch_text(t: Seq<char>) -> InboundDispositionV {
    match spec_decode_client_text(t) {
        Some(m) => spec_dispatch(m),
        None => InboundDispositionV::DropMalformed,
    }
}

// ---------------------------------------------------------------------------
// The per-client send loop, and its cadence.
// ---------------------------------------------------------------------------

/// Microseconds between two deliveries at `target_fps`.
pub fn frame_interval_us(target_fps: u32) -> (r: u64)
    requires
        target_fps >= 1,
    ensures
        r == 1_000_000int / target_fps as int,
{
    1_000_000u64 / target_fps as u64
}

/// How many deliveries a send loop makes in a window: one per full interval.
pub open spec fn spec_deliveries(window_us: int, fps: int) -> int {
    window_us / (1_000_000int / fps)
}

/// Over a one-second window, a send loop at any whole rate up to a thousand
/// frames per second delivers exactly its configured number of frames — a
/// function of its own configuration alone, whatever any other connection
/// does.
pub proof fn lemma_cadence_exact(fps: int)
    requires
        1 <= fps <= 1000,
    ensures
        spec_deliveries(1_000_000, fps) == fps,
{
    let q = 1_000_000int / fps;
    assert(q * fps <= 1_000_000 && 1_000_000 - fps < q * fps && fps <= q) by (nonlinear_arith)
        requires
            1 <= fps <= 1000 && q == 1_000_000int / fps,
    ;
    assert(1_000_000int / q == fps) by (nonlinear_arith)
        requires
            q * fps <= 1_000_000 && 1_000_000 - fps < q * fps && 1 <= fps <= q,
    ;
}

/// Two simultaneously connected viewers each see their own cadence: the
/// counts depend on nothing but each connection's own configured rate.
pub proof fn lemma_independent_cadence(fps_a: int, fps_b: int)
    requires
        1 <= fps_a <= 1000,
        1 <= fps_b <= 1000,
    ensures
        spec_deliveries(1_000_000, fps_a) == fps_a,
        spec_deliveries(1_000_000, fps_b) == fps_b,
{
    lemma_cadence_exact(fps_a);
    lemma_cadence_exact(fps_b);
}

/// State of one connection's send loop: the next frame id to stamp.
pub struct FrameStreamer {
    pub frame_id: u32,
}

/// The frame a streamer stamps at `now_us` with id `fid`: a heartbeat
/// frame carrying only the clock and the id.
pub open spec fn spec_streamed_frame(now_us: u64, fid: u32) -> ARFrameV {
    ARFrameV {
        timestamp: now_us,
        frame_id: fid,
        protocol_version: PROTOCOL_VERSION,
        objects: Seq::<DetectedObjectV>::empty(),
        hands: None,
        audio_context: None,
        device_states: None,
    }
}

impl FrameStreamer {
    /// A fresh send loop, starting at frame zero.
    pub fn new() -> (r: Self)
        ensures
            r.frame_id == 0,
    {
        FrameStreamer { frame_id: 0 }
    }

    /// One tick of the send loop: the wire text of the next frame, stamped
    /// with the current clock, and the id advanced with wraparound — the id
    /// after `u32::MAX` is zero, never an error.
    pub fn next_frame_text(&mut self, now_us: u64) -> (text: String)
        ensures
            text@ == spec_json_text(
                sj_server_msg(ServerMessageV::Frame(spec_streamed_frame(now_us, old(self).frame_id))),
            ),
            final(self).frame_id == (old(self).frame_id + 1) % 0x1_0000_0000int,
    {
        let mut frame = ARFrame::new_dummy(now_us);
        frame.frame_id = self.frame_id;
        proof {
            assert(frame@ =~= spec_streamed_frame(now_us, old(self).frame_id));
        }
        let msg = ServerMessage::Frame(frame);
        let text = encode_server_message(&msg);
        self.frame_id = self.frame_id.wrapping_add(1);
        text
    }
}

/// What the send loop writes reads back whole: the exact wire text of any
/// streamed frame decodes to exactly that frame, with no assumption on the
/// clock or the id.
pub proof fn lemma_streamed_frame_wire_rt(now_us: u64, fid: u32)
    ensures
        crate::codec::spec_decode_server_text(
            spec_json_text(sj_server_msg(ServerMessageV::Frame(spec_streamed_frame(now_us, fid)))),
        ) == Some(ServerMessageV::Frame(spec_streamed_frame(now_us, fid))),
{
    let fv = spec_streamed_frame(now_us, fid);
    let m = ServerMessageV::Frame(fv);
    assert(crate::codec::frame_ok(fv));
    crate::codec::lemma_wire_server_round_trip(m);
}

/// Frame ids wrap: after the largest id the next one is zero, the tick
/// before and the tick after both produce decodable frames, and a consumer
/// reads the wrapped frame back like any other.
pub proof fn lemma_wraparound(now_us: u64)
    ensures
        (u32::MAX + 1) % 0x1_0000_0000int == 0,
        crate::codec::sd_frame(sj_frame(spec_streamed_frame(now_us, u32::MAX))) == Some(
            spec_streamed_frame(now_us, u32::MAX),
        ),
        crate::codec::sd_frame(sj_frame(spec_streamed_frame(now_us, 0))) == Some(
            spec_streamed_frame(now_us, 0),
        ),
{
    crate::codec::lemma_frame_rt(spec_streamed_frame(now_us, u32::MAX));
    crate::codec::lemma_frame_rt(spec_streamed_frame(now_us, 0));
}

// ---------------------------------------------------------------------------
// Connection lifecycle.
// ---------------------------------------------------------------------------

/// Where one downstream connection stands.
#[derive(Clone, Copy, Debug, PartialEq, Eq, Structural)]
pub enum ConnPhase {
    /// Transport accepted; the welcome is not out yet.
    Accepted,
    /// Welcome sent; the send and receive loops run.
    Active,
    /// Torn down; both loops must be gone.
    Closed,
}

/// What the transport reports about one connection.
#[derive(Clone, Copy, Debug, PartialEq, Eq, Structural)]
pub enum ConnEvent {
    /// The connection acknowledgement went out.
    WelcomeSent,
    /// The peer closed the link.
    PeerClosed,
    /// The link failed while reading.
    TransportFailed,
    /// A delivery failed: the peer is gone.
    SendFailed,
}

/// What the surrounding tasks owe after one connection event.
#[derive(Clone, Copy, Debug, PartialEq, Eq, Structural)]
pub enum ConnAction {
    /// Start the paired send and receive loops.
    StartLoops,
    /// Cancel the paired send loop and drop the registry entry: no loop of
    /// this connection may run past teardown.
    TeardownBoth,
    /// Nothing to do.
    KeepGoing,
}

/// Lifecycle of one connection: promoted to active by the welcome, and
/// closed — with both loops owed cancellation — by any failure, whichever
/// loop saw it first. An event that does not belong to the phase changes
/// nothing.
pub open spec fn spec_conn_step(phase: ConnPhase, ev: ConnEvent) -> (ConnPhase, ConnAction) {
    match (phase, ev) {
        (ConnPhase::Accepted, ConnEvent::WelcomeSent) => (ConnPhase::Active, ConnAction::StartLoops),
        (ConnPhase::Active, ConnEvent::PeerClosed) => (ConnPhase::Closed, ConnAction::TeardownBoth),
        (ConnPhase::Active, ConnEvent::TransportFailed) => (
            ConnPhase::Closed,
            ConnAction::TeardownBoth,
        ),
        (ConnPhase::Active, ConnEvent::SendFailed) => (ConnPhase::Closed, ConnAction::TeardownBoth),
        _ => (phase, ConnAction::KeepGoing),
    }
}

/// Drive one connection event through the lifecycle.
pub fn conn_step(phase: ConnPhase, ev: ConnEvent) -> (r: (ConnPhase, ConnAction))
    ensures
        r == spec_conn_step(phase, ev),
{
    match (phase, ev) {
        (ConnPhase::Accepted, ConnEvent::WelcomeSent) => (ConnPhase::Active, ConnAction::StartLoops),
        (ConnPhase::Active, ConnEvent::PeerClosed) => (ConnPhase::Closed, ConnAction::TeardownBoth),
        (ConnPhase::Active, ConnEvent::TransportFailed) => (
            ConnPhase::Closed,
            ConnAction::TeardownBoth,
        ),
        (ConnPhase::Active, ConnEvent::SendFailed) => (ConnPhase::Closed, ConnAction::TeardownBoth),
        _ => (phase, ConnAction::KeepGoing),
    }
}

/// A disconnect during streaming tears the whole connection down: from
/// `Active`, every failure event closes the connection and owes the
/// cancellation of both loops, so no task outlives its transport.
pub proof fn lemma_disconnect_terminates_both(ev: ConnEvent)
    requires
        ev == ConnEvent::PeerClosed || ev == ConnEvent::TransportFailed || ev
            == ConnEvent::SendFailed,
    ensures
        spec_conn_step(ConnPhase::Active, ev) == (ConnPhase::Closed, ConnAction::TeardownBoth),
{
}

/// Registering a viewer and then removing it leaves the registry as it was:
/// in particular, one connection's arrival and departure return the count
/// to what other connections alone account for.
pub proof fn lemma_departure_restores_count(s: Seq<ConnectedClient>, c: ConnectedClient)
    requires
        forall|k: int| 0 <= k < s.len() ==> s[k].client_id@ != c.client_id@,
    ensures
        spec_find(s.push(c), c.client_id@) == s.len(),
        s.push(c).remove(s.len() as int) =~= s,
    decreases s.len(),
{
    lemma_find_char(s.push(c), c.client_id@);
    let i = spec_find(s.push(c), c.client_id@);
    assert(s.push(c)[s.len() as int] == c);
    if i < s.len() {
        assert(s.push(c)[i].client_id@ == c.client_id@);
        assert(s[i] == s.push(c)[i]);
        assert(false);
    }
}

// ---------------------------------------------------------------------------
// The broker itself.
// ---------------------------------------------------------------------------

/// The downstream broadcast server: the bind address it serves on, the
/// streaming configuration, and the owned registry of connected viewers.
pub struct ARBridgeServer {
    /// Address the transport listener binds.
    pub bind_addr: String,
    /// Streaming configuration applied to new connections.
    pub config: StreamConfig,
    /// The connected viewers.
    pub clients: ClientRegistry,
}

impl ARBridgeServer {
    /// A server for the given bind address, with the default streaming
    /// configuration and no connected viewer.
    pub fn new(bind_addr: String) -> (r: Self)
        ensures
            r.bind_addr@ == bind_addr@,
            r.config == (StreamConfig {
                target_fps: 30,
                quality: QualityPreset::Medium,
                enable_compression: false,
            }),
            r.clients.view_clients() == Seq::<ConnectedClient>::empty(),
    {
        ARBridgeServer {
            bind_addr,
            config: StreamConfig::default(),
            clients: ClientRegistry::new(),
        }
    }

    /// Dispatch one decoded client message.
    pub fn handle_client_message(msg: ClientMessage) -> (r: InboundDisposition)
        ensures
            r@ == spec_dispatch(msg@),
    {
        match msg {
            ClientMessage::Connect { client_id, protocol_version, capabilities } => {
                InboundDisposition::NoteHandshake { client_id, capabilities }
            },
            ClientMessage::ConfigureStream { target_fps, quality } => {
                InboundDisposition::NoteReconfigure { target_fps, quality }
            },
            ClientMessage::Ping { timestamp } => InboundDisposition::KeepAlive { timestamp },
            _ => InboundDisposition::Ignore,
        }
    }

    /// Decode and dispatch one inbound text from a viewer. An undecodable
    /// text costs only that message.
    pub fn handle_client_text(text: &str) -> (r: InboundDisposition)
        ensures
            r@ == spec_dispatch_text(text@),
    {
        match crate::codec::decode_client_message(text) {
            Some(m) => Self::handle_client_message(m),
            None => InboundDisposition::DropMalformed,
        }
    }
}

} // verus!
