use vstd::prelude::*;

verus! {

/// Number of landmarks in one tracked hand.
pub const HAND_LANDMARKS: usize = 21;

/// Protocol version spoken by this broker.
pub const PROTOCOL_VERSION: u16 = 0x0100;

/// View of an `Option` of a viewable type.
pub open spec fn opt_view<T: View>(o: Option<T>) -> Option<T::V> {
    match o {
        Some(x) => Some(x@),
        None => None,
    }
}

/// A fractional quantity held as a plain integer: the value scaled by 1000.
/// On the wire it is written as a decimal number with up to three fractional
/// digits ("0.95" for 950 thousandths).
#[derive(Clone, Copy, Debug, PartialEq, Eq, Structural)]
pub struct Milli {
    pub thousandths: i64,
}

impl Milli {
    /// The quantity `thousandths / 1000`.
    pub fn new(thousandths: i64) -> (r: Self)
        ensures
            r.thousandths == thousandths,
    {
        Milli { thousandths }
    }

    /// The quantity zero.
    pub fn zero() -> (r: Self)
        ensures
            r.thousandths == 0,
    {
        Milli { thousandths: 0 }
    }
}

/// A point or direction in space, in thousandths of the sensor unit.
#[derive(Clone, Copy, Debug, PartialEq, Eq, Structural)]
pub struct Vector3 {
    pub x: Milli,
    pub y: Milli,
    pub z: Milli,
}

impl Vector3 {
    pub fn new(x: Milli, y: Milli, z: Milli) -> (r: Self)
        ensures
            r == (Vector3 { x, y, z }),
    {
        Vector3 { x, y, z }
    }

    pub fn zero() -> (r: Self)
        ensures
            r == (Vector3 { x: Milli { thousandths: 0 }, y: Milli { thousandths: 0 }, z: Milli { thousandths: 0 } }),
    {
        Vector3 { x: Milli { thousandths: 0 }, y: Milli { thousandths: 0 }, z: Milli { thousandths: 0 } }
    }
}

/// Normalized 2-D bounding box, in thousandths of the image extent.
#[derive(Clone, Copy, Debug, PartialEq, Eq, Structural)]
pub struct BoundingBox {
    pub x: Milli,
    pub y: Milli,
    pub width: Milli,
    pub height: Milli,
}

/// Discrete gesture classification of one hand.
#[derive(Clone, Copy, Debug, PartialEq, Eq, Structural)]
pub enum GestureType {
    OpenPalm,
    ClosedFist,
    Pointing,
    ThumbsUp,
    ThumbsDown,
    Peace,
    Pinch,
}

/// Which pipeline produced a hand-tracking sample.
#[derive(Clone, Copy, Debug, PartialEq, Eq, Structural)]
pub enum TrackingSource {
    JetsonMediaPipe,
    Quest3Native,
    Fused,
}

/// Kind of a spatial audio source.
#[derive(Clone, Copy, Debug, PartialEq, Eq, Structural)]
pub enum AudioSourceType {
    Speech,
    Music,
    Alert,
    Environmental,
}

/// One object found by the vision pipeline.
#[derive(Clone, Debug, PartialEq)]
pub struct DetectedObject {
    pub class: String,
    pub confidence: Milli,
    pub bbox: BoundingBox,
    pub position_3d: Option<Vector3>,
    pub tracking_id: Option<u32>,
}

/// Mathematical model of a `DetectedObject`.
pub struct DetectedObjectV {
    pub class: Seq<char>,
    pub confidence: Milli,
    pub bbox: BoundingBox,
    pub position_3d: Option<Vector3>,
    pub tracking_id: Option<u32>,
}

impl View for DetectedObject {
    type V = DetectedObjectV;

    open spec fn view(&self) -> DetectedObjectV {
        DetectedObjectV {
            class: self.class@,
            confidence: self.confidence,
            bbox: self.bbox,
            position_3d: self.position_3d,
            tracking_id: self.tracking_id,
        }
    }
}

/// Pose of one hand: a fixed number of landmarks with one confidence each.
#[derive(Clone, Debug, PartialEq)]
pub struct HandPose {
    pub landmarks: Vec<Vector3>,
    pub confidences: Vec<Milli>,
    pub gesture: Option<GestureType>,
}

/// Mathematical model of a `HandPose`.
pub struct HandPoseV {
    pub landmarks: Seq<Vector3>,
    pub confidences: Seq<Milli>,
    pub gesture: Option<GestureType>,
}

impl HandPoseV {
    /// A pose always carries exactly `HAND_LANDMARKS` landmarks and as many
    /// per-landmark confidences.
    pub open spec fn wf(self) -> bool {
        &&& self.landmarks.len() == HAND_LANDMARKS
        &&& self.confidences.len() == HAND_LANDMARKS
    }
}

impl View for HandPose {
    type V = HandPoseV;

    open spec fn view(&self) -> HandPoseV {
        HandPoseV { landmarks: self.landmarks@, confidences: self.confidences@, gesture: self.gesture }
    }
}

/// Hand-tracking sub-payload of a frame.
#[derive(Clone, Debug, PartialEq)]
pub struct HandTrackingData {
    pub left_hand: Option<HandPose>,
    pub right_hand: Option<HandPose>,
    pub confidence: Milli,
    pub source: TrackingSource,
}

/// Mathematical model of `HandTrackingData`.
pub struct HandTrackingDataV {
    pub left_hand: Option<HandPoseV>,
    pub right_hand: Option<HandPoseV>,
    pub confidence: Milli,
    pub source: TrackingSource,
}

impl HandTrackingDataV {
    pub open spec fn wf(self) -> bool {
        &&& (self.left_hand matches Some(p) ==> p.wf())
        &&& (self.right_hand matches Some(p) ==> p.wf())
    }
}

impl View for HandTrackingData {
    type V = HandTrackingDataV;

    open spec fn view(&self) -> HandTrackingDataV {
        HandTrackingDataV {
            left_hand: opt_view(self.left_hand),
            right_hand: opt_view(self.right_hand),
            confidence: self.confidence,
            source: self.source,
        }
    }
}

/// One spatial audio source.
#[derive(Clone, Debug, PartialEq)]
pub struct AudioSource {
    pub id: String,
    pub position: Vector3,
    pub source_type: AudioSourceType,
    pub volume: Milli,
}

/// Mathematical model of an `AudioSource`.
pub struct AudioSourceV {
    pub id: Seq<char>,
    pub position: Vector3,
    pub source_type: AudioSourceType,
    pub volume: Milli,
}

impl View for AudioSource {
    type V = AudioSourceV;

    open spec fn view(&self) -> AudioSourceV {
        AudioSourceV {
            id: self.id@,
            position: self.position,
            source_type: self.source_type,
            volume: self.volume,
        }
    }
}

/// Spatial-audio sub-payload of a frame.
#[derive(Clone, Debug, PartialEq)]
pub struct AudioContext {
    pub sources: Vec<AudioSource>,
    pub listener_position: Vector3,
    pub level_db: Milli,
}

/// Mathematical model of an `AudioContext`.
pub struct AudioContextV {
    pub sources: Seq<AudioSourceV>,
    pub listener_position: Vector3,
    pub level_db: Milli,
}

impl View for AudioContext {
    type V = AudioContextV;

    open spec fn view(&self) -> AudioContextV {
        AudioContextV {
            sources: self.sources@.map_values(|s: AudioSource| s@),
            listener_position: self.listener_position,
            level_db: self.level_db,
        }
    }
}

/// State of one smart device, with free-form key/value attributes.
#[derive(Clone, Debug, PartialEq)]
pub struct DeviceState {
    pub id: String,
    pub device_type: String,
    pub state: String,
    pub position: Vector3,
    pub attributes: Vec<(String, String)>,
}

/// Mathematical model of a `DeviceState`.
pub struct DeviceStateV {
    pub id: Seq<char>,
    pub device_type: Seq<char>,
    pub state: Seq<char>,
    pub position: Vector3,
    pub attributes: Seq<(Seq<char>, Seq<char>)>,
}

impl View for DeviceState {
    type V = DeviceStateV;

    open spec fn view(&self) -> DeviceStateV {
        DeviceStateV {
            id: self.id@,
            device_type: self.device_type@,
            state: self.state@,
            position: self.position,
            attributes: self.attributes@.map_values(|p: (String, String)| (p.0@, p.1@)),
        }
    }
}

/// One time-stamped sample of the sensed world. A frame with none of the
/// optional sub-payloads is valid (a heartbeat).
#[derive(Clone, Debug, PartialEq)]
pub struct ARFrame {
    /// Monotonic microsecond timestamp of the sample.
    pub timestamp: u64,
    /// Sequential id, wrapping on overflow; used to detect loss, never to
    /// reorder.
    pub frame_id: u32,
    /// Version tag of the protocol the producer speaks.
    pub protocol_version: u16,
    /// Objects found by the vision pipeline; empty when none.
    pub objects: Vec<DetectedObject>,
    pub hands: Option<HandTrackingData>,
    pub audio_context: Option<AudioContext>,
    pub device_states: Option<Vec<DeviceState>>,
}

/// Mathematical model of an `ARFrame`.
pub struct ARFrameV {
    pub timestamp: u64,
    pub frame_id: u32,
    pub protocol_version: u16,
    pub objects: Seq<DetectedObjectV>,
    pub hands: Option<HandTrackingDataV>,
    pub audio_context: Option<AudioContextV>,
    pub device_states: Option<Seq<DeviceStateV>>,
}

impl ARFrameV {
    pub open spec fn wf(self) -> bool {
        self.hands matches Some(h) ==> h.wf()
    }
}

impl View for ARFrame {
    type V = ARFrameV;

    open spec fn view(&self) -> ARFrameV {
        ARFrameV {
            timestamp: self.timestamp,
            frame_id: self.frame_id,
            protocol_version: self.protocol_version,
            objects: self.objects@.map_values(|o: DetectedObject| o@),
            hands: opt_view(self.hands),
            audio_context: opt_view(self.audio_context),
            device_states: match self.device_states {
                Some(v) => Some(v@.map_values(|d: DeviceState| d@)),
                None => None,
            },
        }
    }
}

impl ARFrame {
    /// Minimal frame: a heartbeat carrying only a timestamp.
    pub fn new_dummy(timestamp: u64) -> (r: Self)
        ensures
            r@.timestamp == timestamp,
            r@.frame_id == 0,
            r@.protocol_version == PROTOCOL_VERSION,
            r@.objects == Seq::<DetectedObjectV>::empty(),
            r@.hands is None,
            r@.audio_context is None,
            r@.device_states is None,
            r@.wf(),
    {
        let r = ARFrame {
            timestamp,
            frame_id: 0,
            protocol_version: PROTOCOL_VERSION,
            objects: Vec::new(),
            hands: None,
            audio_context: None,
            device_states: None,
        };
        proof {
            assert(r@.objects =~= Seq::<DetectedObjectV>::empty());
        }
        r
    }

    /// Rough size of the frame in bytes: a fixed header, a fixed share per
    /// detected object, and fixed shares for the hand and audio sub-payloads
    /// when present.
    pub fn estimate_size(&self) -> (r: usize)
        requires
            16 + self@.objects.len() * 40 + 264 <= usize::MAX,
        ensures
            r == 16 + self@.objects.len() * 40 + (if self@.hands is Some {
                200int
            } else {
                0int
            }) + (if self@.audio_context is Some {
                64int
            } else {
                0int
            }),
    {
        let mut size: usize = 16 + self.objects.len() * 40;
        if self.hands.is_some() {
            size = size + 200;
        }
        if self.audio_context.is_some() {
            size = size + 64;
        }
        size
    }
}

/// Capability set a downstream client announces in its handshake.
#[derive(Clone, Debug, PartialEq)]
pub struct ClientCapabilities {
    pub device_name: String,
    pub supports_hand_tracking: bool,
    pub supports_spatial_audio: bool,
    pub max_fps: u32,
}

/// Mathematical model of `ClientCapabilities`.
pub struct ClientCapabilitiesV {
    pub device_name: Seq<char>,
    pub supports_hand_tracking: bool,
    pub supports_spatial_audio: bool,
    pub max_fps: u32,
}

impl View for ClientCapabilities {
    type V = ClientCapabilitiesV;

    open spec fn view(&self) -> ClientCapabilitiesV {
        ClientCapabilitiesV {
            device_name: self.device_name@,
            supports_hand_tracking: self.supports_hand_tracking,
            supports_spatial_audio: self.supports_spatial_audio,
            max_fps: self.max_fps,
        }
    }
}

/// Named stream kinds a client may subscribe to.
#[derive(Clone, Copy, Debug, PartialEq, Eq, Structural)]
pub enum StreamType {
    ObjectDetection,
    HandTracking,
    SpatialAudio,
    SmartHome,
}

/// Stream quality presets a client may request.
#[derive(Clone, Copy, Debug, PartialEq, Eq, Structural)]
pub enum QualityPreset {
    Low,
    Medium,
    High,
    Adaptive,
}

/// Kind of an interaction event reported by a client.
#[derive(Clone, Debug, PartialEq)]
pub enum InteractionType {
    Tap,
    Pinch,
    Grab,
    VoiceCommand { command: String },
}

/// Mathematical model of an `InteractionType`.
pub enum InteractionTypeV {
    Tap,
    Pinch,
    Grab,
    VoiceCommand { command: Seq<char> },
}

impl View for InteractionType {
    type V = InteractionTypeV;

    open spec fn view(&self) -> InteractionTypeV {
        match self {
            InteractionType::Tap => InteractionTypeV::Tap,
            InteractionType::Pinch => InteractionTypeV::Pinch,
            InteractionType::Grab => InteractionTypeV::Grab,
            InteractionType::VoiceCommand { command } => InteractionTypeV::VoiceCommand {
                command: command@,
            },
        }
    }
}

/// Envelope sent by a downstream client to the broker.
#[derive(Clone, Debug, PartialEq)]
pub enum ClientMessage {
    /// Initial handshake.
    Connect { client_id: String, protocol_version: u16, capabilities: ClientCapabilities },
    /// Request for specific data streams.
    Subscribe { streams: Vec<StreamType> },
    /// Request to change stream rate or quality.
    ConfigureStream { target_fps: u32, quality: QualityPreset },
    /// Hand-tracking sample for sensor fusion.
    HandTrackingUpdate { hands: HandTrackingData },
    /// A tap, pinch, grab or voice command.
    InteractionEvent { event_type: InteractionType, target: Option<String> },
    /// Keep-alive carrying the client's clock.
    Ping { timestamp: u64 },
}

/// Mathematical model of a `ClientMessage`.
pub enum ClientMessageV {
    Connect { client_id: Seq<char>, protocol_version: u16, capabilities: ClientCapabilitiesV },
    Subscribe { streams: Seq<StreamType> },
    ConfigureStream { target_fps: u32, quality: QualityPreset },
    HandTrackingUpdate { hands: HandTrackingDataV },
    InteractionEvent { event_type: InteractionTypeV, target: Option<Seq<char>> },
    Ping { timestamp: u64 },
}

impl ClientMessageV {
    pub open spec fn wf(self) -> bool {
        match self {
            ClientMessageV::HandTrackingUpdate { hands } => hands.wf(),
            _ => true,
        }
    }
}

impl View for ClientMessage {
    type V = ClientMessageV;

    open spec fn view(&self) -> ClientMessageV {
        match self {
            ClientMessage::Connect { client_id, protocol_version, capabilities } => {
                ClientMessageV::Connect {
                    client_id: client_id@,
                    protocol_version: *protocol_version,
                    capabilities: capabilities@,
                }
            },
            ClientMessage::Subscribe { streams } => ClientMessageV::Subscribe {
                streams: streams@,
            },
            ClientMessage::ConfigureStream { target_fps, quality } => {
                ClientMessageV::ConfigureStream {
                    target_fps: *target_fps,
                    quality: *quality,
                }
            },
            ClientMessage::HandTrackingUpdate { hands } => ClientMessageV::HandTrackingUpdate {
                hands: hands@,
            },
            ClientMessage::InteractionEvent { event_type, target } => {
                ClientMessageV::InteractionEvent {
                    event_type: event_type@,
                    target: match target {
                        Some(t) => Some(t@),
                        None => None,
                    },
                }
            },
            ClientMessage::Ping { timestamp } => ClientMessageV::Ping { timestamp: *timestamp },
        }
    }
}

/// Envelope sent by the broker to a downstream client, or received from the
/// upstream producer.
#[derive(Clone, Debug, PartialEq)]
pub enum ServerMessage {
    /// Connection acknowledgement, sent exactly once per accepted
    /// connection, before any frame.
    Connected { server_version: String, session_id: String },
    /// One frame of sensor data.
    Frame(ARFrame),
    /// An error report.
    Error { code: u16, message: String },
    /// Reply to a keep-alive ping.
    Pong { client_timestamp: u64, server_timestamp: u64 },
}

/// Mathematical model of a `ServerMessage`.
pub enum ServerMessageV {
    Connected { server_version: Seq<char>, session_id: Seq<char> },
    Frame(ARFrameV),
    Error { code: u16, message: Seq<char> },
    Pong { client_timestamp: u64, server_timestamp: u64 },
}

impl ServerMessageV {
    pub open spec fn wf(self) -> bool {
        match self {
            ServerMessageV::Frame(f) => f.wf(),
            _ => true,
        }
    }
}

impl View for ServerMessage {
    type V = ServerMessageV;

    open spec fn view(&self) -> ServerMessageV {
        match self {
            ServerMessage::Connected { server_version, session_id } => ServerMessageV::Connected {
                server_version: server_version@,
                session_id: session_id@,
            },
            ServerMessage::Frame(f) => ServerMessageV::Frame(f@),
            ServerMessage::Error { code, message } => ServerMessageV::Error {
                code: *code,
                message: message@,
            },
            ServerMessage::Pong { client_timestamp, server_timestamp } => ServerMessageV::Pong {
                client_timestamp: *client_timestamp,
                server_timestamp: *server_timestamp,
            },
        }
    }
}

/// Per-connection streaming configuration.
#[derive(Clone, Copy, Debug, PartialEq, Eq, Structural)]
pub struct StreamConfig {
    pub target_fps: u32,
    pub quality: QualityPreset,
    pub enable_compression: bool,
}

impl Default for StreamConfig {
    /// Thirty frames per second at medium quality, uncompressed.
    fn default() -> (r: Self)
        ensures
            r == (StreamConfig { target_fps: 30, quality: QualityPreset::Medium, enable_compression: false }),
    {
        StreamConfig { target_fps: 30, quality: QualityPreset::Medium, enable_compression: false }
    }
}

/// Per-frame delivery metrics.
#[derive(Clone, Copy, Debug, PartialEq, Eq, Structural)]
pub struct FrameMetrics {
    pub processing_time_us: u64,
    pub send_time_us: u64,
    pub frame_size: usize,
    pub dropped_frames: u32,
    /// Measured rate, in thousandths of a frame per second.
    pub actual_fps: Milli,
}

/// Reduced scene handed to subscription-gateway consumers.
#[derive(Clone, Copy, Debug, PartialEq, Eq, Structural)]
pub struct ARScene {
    pub timestamp: u64,
    pub frame_id: u32,
}

} // verus!
