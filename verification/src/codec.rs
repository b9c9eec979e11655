use vstd::prelude::*;
use vstd::string::StrSliceExecFns;
use vstd::string::StringExecFns;

use crate::json::{
    jfields_view, json_view, jsons_view, jv_bounded, jv_get, lemma_jfields_view,
    lemma_jsons_view, sp_json, spec_json_text, Json, JsonV,
};
use crate::json::{json_from_str, json_to_string};
use crate::protocol::{
    ARFrame, ARFrameV, AudioContext, AudioContextV, AudioSource, AudioSourceType, AudioSourceV,
    BoundingBox, ClientCapabilities, ClientCapabilitiesV, ClientMessage, ClientMessageV,
    DetectedObject, DetectedObjectV, DeviceState, DeviceStateV, GestureType, HandPose, HandPoseV,
    HandTrackingData, HandTrackingDataV, InteractionType, InteractionTypeV, Milli, QualityPreset,
    ServerMessage, ServerMessageV, StreamType, TrackingSource, Vector3, HAND_LANDMARKS,
    PROTOCOL_VERSION,
};

verus! {

// ---------------------------------------------------------------------------
// Small executable helpers over strings and objects.
// ---------------------------------------------------------------------------

/// Whether two string slices hold the same characters.
pub fn str_eq(a: &str, b: &str) -> (r: bool)
    ensures
        r == (a@ == b@),
{
    let la = a.unicode_len();
    let lb = b.unicode_len();
    if la != lb {
        return false;
    }
    let mut i: usize = 0;
    while i < la
        invariant
            la == a@.len(),
            la == b@.len(),
            0 <= i <= la,
            forall|k: int| 0 <= k < i ==> a@[k] == b@[k],
        decreases la - i,
    {
        if a.get_char(i) != b.get_char(i) {
            return false;
        }
        i = i + 1;
    }
    proof {
        assert(a@ =~= b@);
    }
    true
}

/// First value bound to `key` among an object's fields.
pub fn obj_get<'a>(fields: &'a Vec<(String, Json)>, key: &str) -> (r: Option<&'a Json>)
    ensures
        match jv_get(jfields_view(fields@), key@) {
            None => r is None,
            Some(jv) => r matches Some(j) && j@ == jv,
        },
{
    proof {
        assert(jfields_view(fields@).skip(0) =~= jfields_view(fields@));
    }
    obj_get_from(fields, key, 0)
}

/// First value bound to `key` among the fields from `k` on.
fn obj_get_from<'a>(fields: &'a Vec<(String, Json)>, key: &str, k: usize) -> (r: Option<
    &'a Json,
>)
    requires
        k <= fields@.len(),
    ensures
        match jv_get(jfields_view(fields@).skip(k as int), key@) {
            None => r is None,
            Some(jv) => r matches Some(j) && j@ == jv,
        },
    decreases fields@.len() - k,
{
    proof {
        lemma_jfields_view(fields@);
    }
    let ghost fs = jfields_view(fields@).skip(k as int);
    if k == fields.len() {
        None
    } else {
        proof {
            assert(fs[0] == (fields@[k as int].0@, json_view(fields@[k as int].1)));
            assert(fs.drop_first() =~= jfields_view(fields@).skip(k as int + 1));
        }
        if str_eq(fields[k].0.as_str(), key) {
            Some(&fields[k].1)
        } else {
            obj_get_from(fields, key, k + 1)
        }
    }
}

// ---------------------------------------------------------------------------
// Leaf readers: what one JSON value means as a protocol scalar.
// ---------------------------------------------------------------------------

/// A non-negative integer fitting `u64`.
pub open spec fn sd_u64(j: JsonV) -> Option<u64> {
    match j {
        JsonV::Int(n) => if n <= u64::MAX {
            Some(n as u64)
        } else {
            None
        },
        _ => None,
    }
}

pub open spec fn sd_u32(j: JsonV) -> Option<u32> {
    match j {
        JsonV::Int(n) => if n <= u32::MAX {
            Some(n as u32)
        } else {
            None
        },
        _ => None,
    }
}

pub open spec fn sd_u16(j: JsonV) -> Option<u16> {
    match j {
        JsonV::Int(n) => if n <= u16::MAX {
            Some(n as u16)
        } else {
            None
        },
        _ => None,
    }
}

/// A fractional quantity: a decimal number, or an integer scaled up.
pub open spec fn sd_milli(j: JsonV) -> Option<Milli> {
    match j {
        JsonV::Dec(t) => if i64::MIN <= t <= i64::MAX {
            Some(Milli { thousandths: t as i64 })
        } else {
            None
        },
        JsonV::Int(n) => if n * 1000 <= i64::MAX {
            Some(Milli { thousandths: (n * 1000) as i64 })
        } else {
            None
        },
        _ => None,
    }
}

pub open spec fn sd_text(j: JsonV) -> Option<Seq<char>> {
    match j {
        JsonV::Str(s) => Some(s),
        _ => None,
    }
}

pub open spec fn sd_bool(j: JsonV) -> Option<bool> {
    match j {
        JsonV::Bool(b) => Some(b),
        _ => None,
    }
}

fn ed_u64(j: &Json) -> (r: Option<u64>)
    ensures
        r == sd_u64(j@),
{
    match j {
        Json::Int(n) => Some(*n),
        _ => None,
    }
}

fn ed_u32(j: &Json) -> (r: Option<u32>)
    ensures
        r == sd_u32(j@),
{
    match j {
        Json::Int(n) => if *n <= u32::MAX as u64 {
            Some(*n as u32)
        } else {
            None
        },
        _ => None,
    }
}

fn ed_u16(j: &Json) -> (r: Option<u16>)
    ensures
        r == sd_u16(j@),
{
    match j {
        Json::Int(n) => if *n <= u16::MAX as u64 {
            Some(*n as u16)
        } else {
            None
        },
        _ => None,
    }
}

fn ed_milli(j: &Json) -> (r: Option<Milli>)
    ensures
        r == sd_milli(j@),
{
    match j {
        Json::Dec(t) => Some(Milli { thousandths: *t }),
        Json::Int(n) => if *n <= (i64::MAX / 1000) as u64 {
            Some(Milli { thousandths: (*n * 1000) as i64 })
        } else {
            None
        },
        _ => None,
    }
}

fn ed_string(j: &Json) -> (r: Option<String>)
    ensures
        match sd_text(j@) {
            None => r is None,
            Some(s) => r matches Some(rs) && rs@ == s,
        },
{
    match j {
        Json::Str(s) => Some(s.clone()),
        _ => None,
    }
}

fn ed_bool(j: &Json) -> (r: Option<bool>)
    ensures
        r == sd_bool(j@),
{
    match j {
        Json::Bool(b) => Some(*b),
        _ => None,
    }
}

// ---------------------------------------------------------------------------
// Vectors and boxes.
// ---------------------------------------------------------------------------

/// The canonical object for a fractional quantity is written directly; these
/// spec functions give the canonical JSON of each protocol type.
pub open spec fn sj_milli(m: Milli) -> JsonV {
    JsonV::Dec(m.thousandths as int)
}

pub open spec fn sj_vec3(v: Vector3) -> JsonV {
    JsonV::Obj(
        seq![("x"@, sj_milli(v.x)), ("y"@, sj_milli(v.y)), ("z"@, sj_milli(v.z))],
    )
}

pub open spec fn sd_vec3(j: JsonV) -> Option<Vector3> {
    match j {
        JsonV::Obj(fs) => {
            let x = match jv_get(fs, "x"@) {
                Some(v) => sd_milli(v),
                None => None,
            };
            let y = match jv_get(fs, "y"@) {
                Some(v) => sd_milli(v),
                None => None,
            };
            let z = match jv_get(fs, "z"@) {
                Some(v) => sd_milli(v),
                None => None,
            };
            match (x, y, z) {
                (Some(x), Some(y), Some(z)) => Some(Vector3 { x, y, z }),
                _ => None,
            }
        },
        _ => None,
    }
}

fn ej_milli(m: &Milli) -> (r: Json)
    ensures
        r@ == sj_milli(*m),
{
    Json::Dec(m.thousandths)
}

fn ej_vec3(v: &Vector3) -> (r: Json)
    ensures
        r@ == sj_vec3(*v),
{
    let mut fields: Vec<(String, Json)> = Vec::new();
    fields.push((String::from_str("x"), ej_milli(&v.x)));
    fields.push((String::from_str("y"), ej_milli(&v.y)));
    fields.push((String::from_str("z"), ej_milli(&v.z)));
    let ghost fv = fields@;
    let r = Json::Obj(fields);
    proof {
        lemma_jfields_view(fv);
        assert(jfields_view(fv) =~= sj_vec3(*v)->Obj_0);
    }
    r
}

fn ed_vec3(j: &Json) -> (r: Option<Vector3>)
    ensures
        r == sd_vec3(j@),
{
    match j {
        Json::Obj(fs) => {
            let x = match obj_get(fs, "x") {
                Some(v) => ed_milli(v),
                None => None,
            };
            let y = match obj_get(fs, "y") {
                Some(v) => ed_milli(v),
                None => None,
            };
            let z = match obj_get(fs, "z") {
                Some(v) => ed_milli(v),
                None => None,
            };
            match (x, y, z) {
                (Some(x), Some(y), Some(z)) => Some(Vector3 { x, y, z }),
                _ => None,
            }
        },
        _ => None,
    }
}

pub open spec fn sj_bbox(b: BoundingBox) -> JsonV {
    JsonV::Obj(
        seq![
            ("x"@, sj_milli(b.x)),
            ("y"@, sj_milli(b.y)),
            ("width"@, sj_milli(b.width)),
            ("height"@, sj_milli(b.height)),
        ],
    )
}

pub open spec fn sd_bbox(j: JsonV) -> Option<BoundingBox> {
    match j {
        JsonV::Obj(fs) => {
            let x = match jv_get(fs, "x"@) {
                Some(v) => sd_milli(v),
                None => None,
            };
            let y = match jv_get(fs, "y"@) {
                Some(v) => sd_milli(v),
                None => None,
            };
            let w = match jv_get(fs, "width"@) {
                Some(v) => sd_milli(v),
                None => None,
            };
            let h = match jv_get(fs, "height"@) {
                Some(v) => sd_milli(v),
                None => None,
            };
            match (x, y, w, h) {
                (Some(x), Some(y), Some(width), Some(height)) => Some(
                    BoundingBox { x, y, width, height },
                ),
                _ => None,
            }
        },
        _ => None,
    }
}

fn ej_bbox(b: &BoundingBox) -> (r: Json)
    ensures
        r@ == sj_bbox(*b),
{
    let mut fields: Vec<(String, Json)> = Vec::new();
    fields.push((String::from_str("x"), ej_milli(&b.x)));
    fields.push((String::from_str("y"), ej_milli(&b.y)));
    fields.push((String::from_str("width"), ej_milli(&b.width)));
    fields.push((String::from_str("height"), ej_milli(&b.height)));
    let ghost fv = fields@;
    let r = Json::Obj(fields);
    proof {
        lemma_jfields_view(fv);
        assert(jfields_view(fv) =~= sj_bbox(*b)->Obj_0);
    }
    r
}

fn ed_bbox(j: &Json) -> (r: Option<BoundingBox>)
    ensures
        r == sd_bbox(j@),
{
    match j {
        Json::Obj(fs) => {
            let x = match obj_get(fs, "x") {
                Some(v) => ed_milli(v),
                None => None,
            };
            let y = match obj_get(fs, "y") {
                Some(v) => ed_milli(v),
                None => None,
            };
            let w = match obj_get(fs, "width") {
                Some(v) => ed_milli(v),
                None => None,
            };
            let h = match obj_get(fs, "height") {
                Some(v) => ed_milli(v),
                None => None,
            };
            match (x, y, w, h) {
                (Some(x), Some(y), Some(width), Some(height)) => Some(
                    BoundingBox { x, y, width, height },
                ),
                _ => None,
            }
        },
        _ => None,
    }
}

// ---------------------------------------------------------------------------
// Field combinators: required and optional object fields.
// ---------------------------------------------------------------------------

/// A required field: absent means the whole value is malformed.
pub open spec fn sd_req<T>(
    fs: Seq<(Seq<char>, JsonV)>,
    key: Seq<char>,
    f: spec_fn(JsonV) -> Option<T>,
) -> Option<T> {
    match jv_get(fs, key) {
        None => None,
        Some(v) => f(v),
    }
}

/// An optional field: absent or null means the field is absent; a present
/// field that does not read back is malformed.
pub open spec fn sd_opt<T>(
    fs: Seq<(Seq<char>, JsonV)>,
    key: Seq<char>,
    f: spec_fn(JsonV) -> Option<T>,
) -> Option<Option<T>> {
    match jv_get(fs, key) {
        None => Some(None),
        Some(v) => if v is Null {
            Some(None)
        } else {
            match f(v) {
                Some(x) => Some(Some(x)),
                None => None,
            }
        },
    }
}

// ---------------------------------------------------------------------------
// Named kinds, written as bare strings on the wire.
// ---------------------------------------------------------------------------

pub open spec fn sj_gesture(g: GestureType) -> JsonV {
    match g {
        GestureType::OpenPalm => JsonV::Str("OpenPalm"@),
        GestureType::ClosedFist => JsonV::Str("ClosedFist"@),
        GestureType::Pointing => JsonV::Str("Pointing"@),
        GestureType::ThumbsUp => JsonV::Str("ThumbsUp"@),
        GestureType::ThumbsDown => JsonV::Str("ThumbsDown"@),
        GestureType::Peace => JsonV::Str("Peace"@),
        GestureType::Pinch => JsonV::Str("Pinch"@),
    }
}

pub open spec fn sd_gesture(j: JsonV) -> Option<GestureType> {
    match j {
        JsonV::Str(s) => if s == "OpenPalm"@ {
            Some(GestureType::OpenPalm)
        } else if s == "ClosedFist"@ {
            Some(GestureType::ClosedFist)
        } else if s == "Pointing"@ {
            Some(GestureType::Pointing)
        } else if s == "ThumbsUp"@ {
            Some(GestureType::ThumbsUp)
        } else if s == "ThumbsDown"@ {
            Some(GestureType::ThumbsDown)
        } else if s == "Peace"@ {
            Some(GestureType::Peace)
        } else if s == "Pinch"@ {
            Some(GestureType::Pinch)
        } else {
            None
        },
        _ => None,
    }
}

fn ej_gesture(g: &GestureType) -> (r: Json)
    ensures
        r@ == sj_gesture(*g),
{
    match g {
        GestureType::OpenPalm => Json::Str(String::from_str("OpenPalm")),
        GestureType::ClosedFist => Json::Str(String::from_str("ClosedFist")),
        GestureType::Pointing => Json::Str(String::from_str("Pointing")),
        GestureType::ThumbsUp => Json::Str(String::from_str("ThumbsUp")),
        GestureType::ThumbsDown => Json::Str(String::from_str("ThumbsDown")),
        GestureType::Peace => Json::Str(String::from_str("Peace")),
        GestureType::Pinch => Json::Str(String::from_str("Pinch")),
    }
}

fn ed_gesture(j: &Json) -> (r: Option<GestureType>)
    ensures
        r == sd_gesture(j@),
{
    match j {
        Json::Str(s) => {
            let ss = s.as_str();
            if str_eq(ss, "OpenPalm") {
                Some(GestureType::OpenPalm)
            } else if str_eq(ss, "ClosedFist") {
                Some(GestureType::ClosedFist)
            } else if str_eq(ss, "Pointing") {
                Some(GestureType::Pointing)
            } else if str_eq(ss, "ThumbsUp") {
                Some(GestureType::ThumbsUp)
            } else if str_eq(ss, "ThumbsDown") {
                Some(GestureType::ThumbsDown)
            } else if str_eq(ss, "Peace") {
                Some(GestureType::Peace)
            } else if str_eq(ss, "Pinch") {
                Some(GestureType::Pinch)
            } else {
                None
            }
        },
        _ => None,
    }
}

pub open spec fn sj_source(s: TrackingSource) -> JsonV {
    match s {
        TrackingSource::JetsonMediaPipe => JsonV::Str("JetsonMediaPipe"@),
        TrackingSource::Quest3Native => JsonV::Str("Quest3Native"@),
        TrackingSource::Fused => JsonV::Str("Fused"@),
    }
}

pub open spec fn sd_source(j: JsonV) -> Option<TrackingSource> {
    match j {
        JsonV::Str(s) => if s == "JetsonMediaPipe"@ {
            Some(TrackingSource::JetsonMediaPipe)
        } else if s == "Quest3Native"@ {
            Some(TrackingSource::Quest3Native)
        } else if s == "Fused"@ {
            Some(TrackingSource::Fused)
        } else {
            None
        },
        _ => None,
    }
}

fn ej_source(s: &TrackingSource) -> (r: Json)
    ensures
        r@ == sj_source(*s),
{
    match s {
        TrackingSource::JetsonMediaPipe => Json::Str(String::from_str("JetsonMediaPipe")),
        TrackingSource::Quest3Native => Json::Str(String::from_str("Quest3Native")),
        TrackingSource::Fused => Json::Str(String::from_str("Fused")),
    }
}

fn ed_source(j: &Json) -> (r: Option<TrackingSource>)
    ensures
        r == sd_source(j@),
{
    match j {
        Json::Str(s) => {
            let ss = s.as_str();
            if str_eq(ss, "JetsonMediaPipe") {
                Some(TrackingSource::JetsonMediaPipe)
            } else if str_eq(ss, "Quest3Native") {
                Some(TrackingSource::Quest3Native)
            } else if str_eq(ss, "Fused") {
                Some(TrackingSource::Fused)
            } else {
                None
            }
        },
        _ => None,
    }
}

pub open spec fn sj_srctype(s: AudioSourceType) -> JsonV {
    match s {
        AudioSourceType::Speech => JsonV::Str("Speech"@),
        AudioSourceType::Music => JsonV::Str("Music"@),
        AudioSourceType::Alert => JsonV::Str("Alert"@),
        AudioSourceType::Environmental => JsonV::Str("Environmental"@),
    }
}

pub open spec fn sd_srctype(j: JsonV) -> Option<AudioSourceType> {
    match j {
        JsonV::Str(s) => if s == "Speech"@ {
            Some(AudioSourceType::Speech)
        } else if s == "Music"@ {
            Some(AudioSourceType::Music)
        } else if s == "Alert"@ {
            Some(AudioSourceType::Alert)
        } else if s == "Environmental"@ {
            Some(AudioSourceType::Environmental)
        } else {
            None
        },
        _ => None,
    }
}

fn ej_srctype(s: &AudioSourceType) -> (r: Json)
    ensures
        r@ == sj_srctype(*s),
{
    match s {
        AudioSourceType::Speech => Json::Str(String::from_str("Speech")),
        AudioSourceType::Music => Json::Str(String::from_str("Music")),
        AudioSourceType::Alert => Json::Str(String::from_str("Alert")),
        AudioSourceType::Environmental => Json::Str(String::from_str("Environmental")),
    }
}

fn ed_srctype(j: &Json) -> (r: Option<AudioSourceType>)
    ensures
        r == sd_srctype(j@),
{
    match j {
        Json::Str(s) => {
            let ss = s.as_str();
            if str_eq(ss, "Speech") {
                Some(AudioSourceType::Speech)
            } else if str_eq(ss, "Music") {
                Some(AudioSourceType::Music)
            } else if str_eq(ss, "Alert") {
                Some(AudioSourceType::Alert)
            } else if str_eq(ss, "Environmental") {
                Some(AudioSourceType::Environmental)
            } else {
                None
            }
        },
        _ => None,
    }
}

pub open spec fn sj_streamtype(s: StreamType) -> JsonV {
    match s {
        StreamType::ObjectDetection => JsonV::Str("ObjectDetection"@),
        StreamType::HandTracking => JsonV::Str("HandTracking"@),
        StreamType::SpatialAudio => JsonV::Str("SpatialAudio"@),
        StreamType::SmartHome => JsonV::Str("SmartHome"@),
    }
}

pub open spec fn sd_streamtype(j: JsonV) -> Option<StreamType> {
    match j {
        JsonV::Str(s) => if s == "ObjectDetection"@ {
            Some(StreamType::ObjectDetection)
        } else if s == "HandTracking"@ {
            Some(StreamType::HandTracking)
        } else if s == "SpatialAudio"@ {
            Some(StreamType::SpatialAudio)
        } else if s == "SmartHome"@ {
            Some(StreamType::SmartHome)
        } else {
            None
        },
        _ => None,
    }
}

fn ej_streamtype(s: &StreamType) -> (r: Json)
    ensures
        r@ == sj_streamtype(*s),
{
    match s {
        StreamType::ObjectDetection => Json::Str(String::from_str("ObjectDetection")),
        StreamType::HandTracking => Json::Str(String::from_str("HandTracking")),
        StreamType::SpatialAudio => Json::Str(String::from_str("SpatialAudio")),
        StreamType::SmartHome => Json::Str(String::from_str("SmartHome")),
    }
}

fn ed_streamtype(j: &Json) -> (r: Option<StreamType>)
    ensures
        r == sd_streamtype(j@),
{
    match j {
        Json::Str(s) => {
            let ss = s.as_str();
            if str_eq(ss, "ObjectDetection") {
                Some(StreamType::ObjectDetection)
            } else if str_eq(ss, "HandTracking") {
                Some(StreamType::HandTracking)
            } else if str_eq(ss, "SpatialAudio") {
                Some(StreamType::SpatialAudio)
            } else if str_eq(ss, "SmartHome") {
                Some(StreamType::SmartHome)
            } else {
                None
            }
        },
        _ => None,
    }
}

pub open spec fn sj_quality(q: QualityPreset) -> JsonV {
    match q {
        QualityPreset::Low => JsonV::Str("Low"@),
        QualityPreset::Medium => JsonV::Str("Medium"@),
        QualityPreset::High => JsonV::Str("High"@),
        QualityPreset::Adaptive => JsonV::Str("Adaptive"@),
    }
}

pub open spec fn sd_quality(j: JsonV) -> Option<QualityPreset> {
    match j {
        JsonV::Str(s) => if s == "Low"@ {
            Some(QualityPreset::Low)
        } else if s == "Medium"@ {
            Some(QualityPreset::Medium)
        } else if s == "High"@ {
            Some(QualityPreset::High)
        } else if s == "Adaptive"@ {
            Some(QualityPreset::Adaptive)
        } else {
            None
        },
        _ => None,
    }
}

fn ej_quality(q: &QualityPreset) -> (r: Json)
    ensures
        r@ == sj_quality(*q),
{
    match q {
        QualityPreset::Low => Json::Str(String::from_str("Low")),
        QualityPreset::Medium => Json::Str(String::from_str("Medium")),
        QualityPreset::High => Json::Str(String::from_str("High")),
        QualityPreset::Adaptive => Json::Str(String::from_str("Adaptive")),
    }
}

fn ed_quality(j: &Json) -> (r: Option<QualityPreset>)
    ensures
        r == sd_quality(j@),
{
    match j {
        Json::Str(s) => {
            let ss = s.as_str();
            if str_eq(ss, "Low") {
                Some(QualityPreset::Low)
            } else if str_eq(ss, "Medium") {
                Some(QualityPreset::Medium)
            } else if str_eq(ss, "High") {
                Some(QualityPreset::High)
            } else if str_eq(ss, "Adaptive") {
                Some(QualityPreset::Adaptive)
            } else {
                None
            }
        },
        _ => None,
    }
}

// ---------------------------------------------------------------------------
// Detected objects.
// ---------------------------------------------------------------------------

pub open spec fn sj_object(o: DetectedObjectV) -> JsonV {
    JsonV::Obj(
        seq![
            ("class"@, JsonV::Str(o.class)),
            ("confidence"@, sj_milli(o.confidence)),
            ("bbox"@, sj_bbox(o.bbox)),
            (
                "position_3d"@,
                match o.position_3d {
                    Some(p) => sj_vec3(p),
                    None => JsonV::Null,
                },
            ),
            (
                "tracking_id"@,
                match o.tracking_id {
                    Some(t) => JsonV::Int(t as nat),
                    None => JsonV::Null,
                },
            ),
        ],
    )
}

pub open spec fn sd_object(j: JsonV) -> Option<DetectedObjectV> {
    match j {
        JsonV::Obj(fs) => {
            let class = sd_req(fs, "class"@, |v: JsonV| sd_text(v));
            let confidence = sd_req(fs, "confidence"@, |v: JsonV| sd_milli(v));
            let bbox = sd_req(fs, "bbox"@, |v: JsonV| sd_bbox(v));
            let pos = sd_opt(fs, "position_3d"@, |v: JsonV| sd_vec3(v));
            let tid = sd_opt(fs, "tracking_id"@, |v: JsonV| sd_u32(v));
            match (class, confidence, bbox, pos, tid) {
                (
                    Some(class),
                    Some(confidence),
                    Some(bbox),
                    Some(position_3d),
                    Some(tracking_id),
                ) => Some(DetectedObjectV { class, confidence, bbox, position_3d, tracking_id }),
                _ => None,
            }
        },
        _ => None,
    }
}

fn ej_object(o: &DetectedObject) -> (r: Json)
    ensures
        r@ == sj_object(o@),
{
    let mut fields: Vec<(String, Json)> = Vec::new();
    fields.push((String::from_str("class"), Json::Str(o.class.clone())));
    fields.push((String::from_str("confidence"), ej_milli(&o.confidence)));
    fields.push((String::from_str("bbox"), ej_bbox(&o.bbox)));
    fields.push(
        (
            String::from_str("position_3d"),
            match &o.position_3d {
                Some(p) => ej_vec3(p),
                None => Json::Null,
            },
        ),
    );
    fields.push(
        (
            String::from_str("tracking_id"),
            match &o.tracking_id {
                Some(t) => Json::Int(*t as u64),
                None => Json::Null,
            },
        ),
    );
    let ghost fv = fields@;
    let r = Json::Obj(fields);
    proof {
        lemma_jfields_view(fv);
        assert(jfields_view(fv) =~= sj_object(o@)->Obj_0);
    }
    r
}

fn ed_object(j: &Json) -> (r: Option<DetectedObject>)
    ensures
        match sd_object(j@) {
            None => r is None,
            Some(ov) => r matches Some(o) && o@ == ov,
        },
{
    match j {
        Json::Obj(fs) => {
            let class: Option<String> = match obj_get(fs, "class") {
                Some(v) => ed_string(v),
                None => None,
            };
            let confidence: Option<Milli> = match obj_get(fs, "confidence") {
                Some(v) => ed_milli(v),
                None => None,
            };
            let bbox: Option<BoundingBox> = match obj_get(fs, "bbox") {
                Some(v) => ed_bbox(v),
                None => None,
            };
            let pos: Option<Option<Vector3>> = match obj_get(fs, "position_3d") {
                None => Some(None),
                Some(v) => match v {
                    Json::Null => Some(None),
                    _ => match ed_vec3(v) {
                        Some(p) => Some(Some(p)),
                        None => None,
                    },
                },
            };
            let tid: Option<Option<u32>> = match obj_get(fs, "tracking_id") {
                None => Some(None),
                Some(v) => match v {
                    Json::Null => Some(None),
                    _ => match ed_u32(v) {
                        Some(t) => Some(Some(t)),
                        None => None,
                    },
                },
            };
            match (class, confidence, bbox, pos, tid) {
                (
                    Some(class),
                    Some(confidence),
                    Some(bbox),
                    Some(position_3d),
                    Some(tracking_id),
                ) => Some(DetectedObject { class, confidence, bbox, position_3d, tracking_id }),
                _ => None,
            }
        },
        _ => None,
    }
}

/// Read a whole array of detected objects, from element `k` on.
pub open spec fn sd_objects(elems: Seq<JsonV>) -> Option<Seq<DetectedObjectV>>
    decreases elems.len(),
{
    if elems.len() == 0 {
        Some(Seq::empty())
    } else {
        match sd_object(elems[0]) {
            None => None,
            Some(o) => match sd_objects(elems.drop_first()) {
                None => None,
                Some(rest) => Some(seq![o] + rest),
            },
        }
    }
}

fn ed_objects(v: &Vec<Json>, k: usize) -> (r: Option<Vec<DetectedObject>>)
    requires
        k <= v@.len(),
    ensures
        match sd_objects(jsons_view(v@).skip(k as int)) {
            None => r is None,
            Some(os) => r matches Some(ov) && ov@.map_values(|o: DetectedObject| o@) == os,
        },
    decreases v@.len() - k,
{
    proof {
        lemma_jsons_view(v@);
    }
    let ghost elems = jsons_view(v@).skip(k as int);
    if k == v.len() {
        let empty: Vec<DetectedObject> = Vec::new();
        proof {
            assert(empty@.map_values(|o: DetectedObject| o@) =~= Seq::<DetectedObjectV>::empty());
        }
        Some(empty)
    } else {
        proof {
            assert(elems[0] == v@[k as int]@);
            assert(elems.drop_first() =~= jsons_view(v@).skip(k as int + 1));
        }
        match ed_object(&v[k]) {
            None => None,
            Some(o) => match ed_objects(v, k + 1) {
                None => None,
                Some(mut rest) => {
                    let ghost rest0 = rest@;
                    rest.insert(0, o);
                    proof {
                        let spec_r = sd_objects(elems)->Some_0;
                        assert(rest@.map_values(|x: DetectedObject| x@) =~= spec_r);
                    }
                    Some(rest)
                },
            },
        }
    }
}

/// Write a whole array of detected objects.
fn ej_objects(v: &Vec<DetectedObject>) -> (r: Vec<Json>)
    ensures
        jsons_view(r@) == v@.map_values(|o: DetectedObject| o@).map_values(
            |ov: DetectedObjectV| sj_object(ov),
        ),
{
    let mut out: Vec<Json> = Vec::new();
    let mut k: usize = 0;
    while k < v.len()
        invariant
            0 <= k <= v@.len(),
            out@.len() == k,
            forall|i: int| 0 <= i < k ==> out@[i]@ == sj_object(v@[i]@),
        decreases v@.len() - k,
    {
        out.push(ej_object(&v[k]));
        k = k + 1;
    }
    proof {
        lemma_jsons_view(out@);
        assert(jsons_view(out@) =~= v@.map_values(|o: DetectedObject| o@).map_values(
            |ov: DetectedObjectV| sj_object(ov),
        ));
    }
    out
}

// ---------------------------------------------------------------------------
// Hand tracking.
// ---------------------------------------------------------------------------

pub open spec fn sd_vec3s(elems: Seq<JsonV>) -> Option<Seq<Vector3>>
    decreases elems.len(),
{
    if elems.len() == 0 {
        Some(Seq::empty())
    } else {
        match sd_vec3(elems[0]) {
            None => None,
            Some(p) => match sd_vec3s(elems.drop_first()) {
                None => None,
                Some(rest) => Some(seq![p] + rest),
            },
        }
    }
}

fn ed_vec3s(v: &Vec<Json>, k: usize) -> (r: Option<Vec<Vector3>>)
    requires
        k <= v@.len(),
    ensures
        match sd_vec3s(jsons_view(v@).skip(k as int)) {
            None => r is None,
            Some(ps) => r matches Some(pv) && pv@ == ps,
        },
    decreases v@.len() - k,
{
    proof {
        lemma_jsons_view(v@);
    }
    let ghost elems = jsons_view(v@).skip(k as int);
    if k == v.len() {
        let empty: Vec<Vector3> = Vec::new();
        proof {
            assert(empty@ =~= Seq::<Vector3>::empty());
        }
        Some(empty)
    } else {
        proof {
            assert(elems[0] == v@[k as int]@);
            assert(elems.drop_first() =~= jsons_view(v@).skip(k as int + 1));
        }
        match ed_vec3(&v[k]) {
            None => None,
            Some(p) => match ed_vec3s(v, k + 1) {
                None => None,
                Some(mut rest) => {
                    rest.insert(0, p);
                    proof {
                        assert(rest@ =~= sd_vec3s(elems)->Some_0);
                    }
                    Some(rest)
                },
            },
        }
    }
}

fn ej_vec3s(v: &Vec<Vector3>) -> (r: Vec<Json>)
    ensures
        jsons_view(r@) == v@.map_values(|p: Vector3| sj_vec3(p)),
{
    let mut out: Vec<Json> = Vec::new();
    let mut k: usize = 0;
    while k < v.len()
        invariant
            0 <= k <= v@.len(),
            out@.len() == k,
            forall|i: int| 0 <= i < k ==> out@[i]@ == sj_vec3(v@[i]),
        decreases v@.len() - k,
    {
        out.push(ej_vec3(&v[k]));
        k = k + 1;
    }
    proof {
        lemma_jsons_view(out@);
        assert(jsons_view(out@) =~= v@.map_values(|p: Vector3| sj_vec3(p)));
    }
    out
}

pub open spec fn sd_millis(elems: Seq<JsonV>) -> Option<Seq<Milli>>
    decreases elems.len(),
{
    if elems.len() == 0 {
        Some(Seq::empty())
    } else {
        match sd_milli(elems[0]) {
            None => None,
            Some(m) => match sd_millis(elems.drop_first()) {
                None => None,
                Some(rest) => Some(seq![m] + rest),
            },
        }
    }
}

fn ed_millis(v: &Vec<Json>, k: usize) -> (r: Option<Vec<Milli>>)
    requires
        k <= v@.len(),
    ensures
        match sd_millis(jsons_view(v@).skip(k as int)) {
            None => r is None,
            Some(ms) => r matches Some(mv) && mv@ == ms,
        },
    decreases v@.len() - k,
{
    proof {
        lemma_jsons_view(v@);
    }
    let ghost elems = jsons_view(v@).skip(k as int);
    if k == v.len() {
        let empty: Vec<Milli> = Vec::new();
        proof {
            assert(empty@ =~= Seq::<Milli>::empty());
        }
        Some(empty)
    } else {
        proof {
            assert(elems[0] == v@[k as int]@);
            assert(elems.drop_first() =~= jsons_view(v@).skip(k as int + 1));
        }
        match ed_milli(&v[k]) {
            None => None,
            Some(m) => match ed_millis(v, k + 1) {
                None => None,
                Some(mut rest) => {
                    rest.insert(0, m);
                    proof {
                        assert(rest@ =~= sd_millis(elems)->Some_0);
                    }
                    Some(rest)
                },
            },
        }
    }
}

fn ej_millis(v: &Vec<Milli>) -> (r: Vec<Json>)
    ensures
        jsons_view(r@) == v@.map_values(|m: Milli| sj_milli(m)),
{
    let mut out: Vec<Json> = Vec::new();
    let mut k: usize = 0;
    while k < v.len()
        invariant
            0 <= k <= v@.len(),
            out@.len() == k,
            forall|i: int| 0 <= i < k ==> out@[i]@ == sj_milli(v@[i]),
        decreases v@.len() - k,
    {
        out.push(ej_milli(&v[k]));
        k = k + 1;
    }
    proof {
        lemma_jsons_view(out@);
        assert(jsons_view(out@) =~= v@.map_values(|m: Milli| sj_milli(m)));
    }
    out
}

pub open spec fn sj_pose(p: HandPoseV) -> JsonV {
    JsonV::Obj(
        seq![
            ("landmarks"@, JsonV::Arr(p.landmarks.map_values(|q: Vector3| sj_vec3(q)))),
            ("confidences"@, JsonV::Arr(p.confidences.map_values(|m: Milli| sj_milli(m)))),
            (
                "gesture"@,
                match p.gesture {
                    Some(g) => sj_gesture(g),
                    None => JsonV::Null,
                },
            ),
        ],
    )
}

/// A pose reads back only with exactly the expected number of landmarks and
/// as many confidences.
pub open spec fn sd_pose(j: JsonV) -> Option<HandPoseV> {
    match j {
        JsonV::Obj(fs) => {
            let landmarks = match jv_get(fs, "landmarks"@) {
                Some(JsonV::Arr(es)) => sd_vec3s(es),
                _ => None,
            };
            let confidences = match jv_get(fs, "confidences"@) {
                Some(JsonV::Arr(es)) => sd_millis(es),
                _ => None,
            };
            let gesture = sd_opt(fs, "gesture"@, |v: JsonV| sd_gesture(v));
            match (landmarks, confidences, gesture) {
                (Some(landmarks), Some(confidences), Some(gesture)) => if landmarks.len()
                    == HAND_LANDMARKS && confidences.len() == HAND_LANDMARKS {
                    Some(HandPoseV { landmarks, confidences, gesture })
                } else {
                    None
                },
                _ => None,
            }
        },
        _ => None,
    }
}

fn ej_pose(p: &HandPose) -> (r: Json)
    ensures
        r@ == sj_pose(p@),
{
    let mut fields: Vec<(String, Json)> = Vec::new();
    fields.push((String::from_str("landmarks"), Json::Arr(ej_vec3s(&p.landmarks))));
    fields.push((String::from_str("confidences"), Json::Arr(ej_millis(&p.confidences))));
    fields.push(
        (
            String::from_str("gesture"),
            match &p.gesture {
                Some(g) => ej_gesture(g),
                None => Json::Null,
            },
        ),
    );
    let ghost fv = fields@;
    let r = Json::Obj(fields);
    proof {
        lemma_jfields_view(fv);
        assert(jfields_view(fv) =~= sj_pose(p@)->Obj_0);
    }
    r
}

fn ed_pose(j: &Json) -> (r: Option<HandPose>)
    ensures
        match sd_pose(j@) {
            None => r is None,
            Some(pv) => r matches Some(p) && p@ == pv && pv.wf(),
        },
{
    match j {
        Json::Obj(fs) => {
            let landmarks: Option<Vec<Vector3>> = match obj_get(fs, "landmarks") {
                Some(v) => match v {
                    Json::Arr(es) => {
                        proof {
                            assert(jsons_view(es@).skip(0) =~= jsons_view(es@));
                        }
                        ed_vec3s(es, 0)
                    },
                    _ => None,
                },
                None => None,
            };
            let confidences: Option<Vec<Milli>> = match obj_get(fs, "confidences") {
                Some(v) => match v {
                    Json::Arr(es) => {
                        proof {
                            assert(jsons_view(es@).skip(0) =~= jsons_view(es@));
                        }
                        ed_millis(es, 0)
                    },
                    _ => None,
                },
                None => None,
            };
            let gesture: Option<Option<GestureType>> = match obj_get(fs, "gesture") {
                None => Some(None),
                Some(v) => match v {
                    Json::Null => Some(None),
                    _ => match ed_gesture(v) {
                        Some(g) => Some(Some(g)),
                        None => None,
                    },
                },
            };
            match (landmarks, confidences, gesture) {
                (Some(landmarks), Some(confidences), Some(gesture)) => {
                    if landmarks.len() == HAND_LANDMARKS && confidences.len() == HAND_LANDMARKS {
                        Some(HandPose { landmarks, confidences, gesture })
                    } else {
                        None
                    }
                },
                _ => None,
            }
        },
        _ => None,
    }
}

pub open spec fn sj_hands(h: HandTrackingDataV) -> JsonV {
    JsonV::Obj(
        seq![
            (
                "left_hand"@,
                match h.left_hand {
                    Some(p) => sj_pose(p),
                    None => JsonV::Null,
                },
            ),
            (
                "right_hand"@,
                match h.right_hand {
                    Some(p) => sj_pose(p),
                    None => JsonV::Null,
                },
            ),
            ("confidence"@, sj_milli(h.confidence)),
            ("source"@, sj_source(h.source)),
        ],
    )
}

pub open spec fn sd_hands(j: JsonV) -> Option<HandTrackingDataV> {
    match j {
        JsonV::Obj(fs) => {
            let left = sd_opt(fs, "left_hand"@, |v: JsonV| sd_pose(v));
            let right = sd_opt(fs, "right_hand"@, |v: JsonV| sd_pose(v));
            let confidence = sd_req(fs, "confidence"@, |v: JsonV| sd_milli(v));
            let source = sd_req(fs, "source"@, |v: JsonV| sd_source(v));
            match (left, right, confidence, source) {
                (Some(left_hand), Some(right_hand), Some(confidence), Some(source)) => Some(
                    HandTrackingDataV { left_hand, right_hand, confidence, source },
                ),
                _ => None,
            }
        },
        _ => None,
    }
}

fn ej_hands(h: &HandTrackingData) -> (r: Json)
    ensures
        r@ == sj_hands(h@),
{
    let mut fields: Vec<(String, Json)> = Vec::new();
    fields.push(
        (
            String::from_str("left_hand"),
            match &h.left_hand {
                Some(p) => ej_pose(p),
                None => Json::Null,
            },
        ),
    );
    fields.push(
        (
            String::from_str("right_hand"),
            match &h.right_hand {
                Some(p) => ej_pose(p),
                None => Json::Null,
            },
        ),
    );
    fields.push((String::from_str("confidence"), ej_milli(&h.confidence)));
    fields.push((String::from_str("source"), ej_source(&h.source)));
    let ghost fv = fields@;
    let r = Json::Obj(fields);
    proof {
        lemma_jfields_view(fv);
        assert(jfields_view(fv) =~= sj_hands(h@)->Obj_0);
    }
    r
}

fn ed_hands(j: &Json) -> (r: Option<HandTrackingData>)
    ensures
        match sd_hands(j@) {
            None => r is None,
            Some(hv) => r matches Some(h) && h@ == hv && hv.wf(),
        },
{
    match j {
        Json::Obj(fs) => {
            let left: Option<Option<HandPose>> = match obj_get(fs, "left_hand") {
                None => Some(None),
                Some(v) => match v {
                    Json::Null => Some(None),
                    _ => match ed_pose(v) {
                        Some(p) => Some(Some(p)),
                        None => None,
                    },
                },
            };
            let right: Option<Option<HandPose>> = match obj_get(fs, "right_hand") {
                None => Some(None),
                Some(v) => match v {
                    Json::Null => Some(None),
                    _ => match ed_pose(v) {
                        Some(p) => Some(Some(p)),
                        None => None,
                    },
                },
            };
            let confidence: Option<Milli> = match obj_get(fs, "confidence") {
                Some(v) => ed_milli(v),
                None => None,
            };
            let source: Option<TrackingSource> = match obj_get(fs, "source") {
                Some(v) => ed_source(v),
                None => None,
            };
            match (left, right, confidence, source) {
                (Some(left_hand), Some(right_hand), Some(confidence), Some(source)) => Some(
                    HandTrackingData { left_hand, right_hand, confidence, source },
                ),
                _ => None,
            }
        },
        _ => None,
    }
}

// ---------------------------------------------------------------------------
// Spatial audio context.
// ---------------------------------------------------------------------------

pub open spec fn sj_audio_src(s: AudioSourceV) -> JsonV {
    JsonV::Obj(
        seq![
            ("id"@, JsonV::Str(s.id)),
            ("position"@, sj_vec3(s.position)),
            ("source_type"@, sj_srctype(s.source_type)),
            ("volume"@, sj_milli(s.volume)),
        ],
    )
}

pub open spec fn sd_audio_src(j: JsonV) -> Option<AudioSourceV> {
    match j {
        JsonV::Obj(fs) => {
            let id = sd_req(fs, "id"@, |v: JsonV| sd_text(v));
            let position = sd_req(fs, "position"@, |v: JsonV| sd_vec3(v));
            let st = sd_req(fs, "source_type"@, |v: JsonV| sd_srctype(v));
            let volume = sd_req(fs, "volume"@, |v: JsonV| sd_milli(v));
            match (id, position, st, volume) {
                (Some(id), Some(position), Some(source_type), Some(volume)) => Some(
                    AudioSourceV { id, position, source_type, volume },
                ),
                _ => None,
            }
        },
        _ => None,
    }
}

fn ej_audio_src(s: &AudioSource) -> (r: Json)
    ensures
        r@ == sj_audio_src(s@),
{
    let mut fields: Vec<(String, Json)> = Vec::new();
    fields.push((String::from_str("id"), Json::Str(s.id.clone())));
    fields.push((String::from_str("position"), ej_vec3(&s.position)));
    fields.push((String::from_str("source_type"), ej_srctype(&s.source_type)));
    fields.push((String::from_str("volume"), ej_milli(&s.volume)));
    let ghost fv = fields@;
    let r = Json::Obj(fields);
    proof {
        lemma_jfields_view(fv);
        assert(jfields_view(fv) =~= sj_audio_src(s@)->Obj_0);
    }
    r
}

fn ed_audio_src(j: &Json) -> (r: Option<AudioSource>)
    ensures
        match sd_audio_src(j@) {
            None => r is None,
            Some(sv) => r matches Some(s) && s@ == sv,
        },
{
    match j {
        Json::Obj(fs) => {
            let id: Option<String> = match obj_get(fs, "id") {
                Some(v) => ed_string(v),
                None => None,
            };
            let position: Option<Vector3> = match obj_get(fs, "position") {
                Some(v) => ed_vec3(v),
                None => None,
            };
            let st: Option<AudioSourceType> = match obj_get(fs, "source_type") {
                Some(v) => ed_srctype(v),
                None => None,
            };
            let volume: Option<Milli> = match obj_get(fs, "volume") {
                Some(v) => ed_milli(v),
                None => None,
            };
            match (id, position, st, volume) {
                (Some(id), Some(position), Some(source_type), Some(volume)) => Some(
                    AudioSource { id, position, source_type, volume },
                ),
                _ => None,
            }
        },
        _ => None,
    }
}

pub open spec fn sd_audio_srcs(elems: Seq<JsonV>) -> Option<Seq<AudioSourceV>>
    decreases elems.len(),
{
    if elems.len() == 0 {
        Some(Seq::empty())
    } else {
        match sd_audio_src(elems[0]) {
            None => None,
            Some(s) => match sd_audio_srcs(elems.drop_first()) {
                None => None,
                Some(rest) => Some(seq![s] + rest),
            },
        }
    }
}

fn ed_audio_srcs(v: &Vec<Json>, k: usize) -> (r: Option<Vec<AudioSource>>)
    requires
        k <= v@.len(),
    ensures
        match sd_audio_srcs(jsons_view(v@).skip(k as int)) {
            None => r is None,
            Some(ss) => r matches Some(sv) && sv@.map_values(|s: AudioSource| s@) == ss,
        },
    decreases v@.len() - k,
{
    proof {
        lemma_jsons_view(v@);
    }
    let ghost elems = jsons_view(v@).skip(k as int);
    if k == v.len() {
        let empty: Vec<AudioSource> = Vec::new();
        proof {
            assert(empty@.map_values(|s: AudioSource| s@) =~= Seq::<AudioSourceV>::empty());
        }
        Some(empty)
    } else {
        proof {
            assert(elems[0] == v@[k as int]@);
            assert(elems.drop_first() =~= jsons_view(v@).skip(k as int + 1));
        }
        match ed_audio_src(&v[k]) {
            None => None,
            Some(s) => match ed_audio_srcs(v, k + 1) {
                None => None,
                Some(mut rest) => {
                    rest.insert(0, s);
                    proof {
                        assert(rest@.map_values(|x: AudioSource| x@) =~= sd_audio_srcs(
                            elems,
                        )->Some_0);
                    }
                    Some(rest)
                },
            },
        }
    }
}

fn ej_audio_srcs(v: &Vec<AudioSource>) -> (r: Vec<Json>)
    ensures
        jsons_view(r@) == v@.map_values(|s: AudioSource| s@).map_values(
            |sv: AudioSourceV| sj_audio_src(sv),
        ),
{
    let mut out: Vec<Json> = Vec::new();
    let mut k: usize = 0;
    while k < v.len()
        invariant
            0 <= k <= v@.len(),
            out@.len() == k,
            forall|i: int| 0 <= i < k ==> out@[i]@ == sj_audio_src(v@[i]@),
        decreases v@.len() - k,
    {
        out.push(ej_audio_src(&v[k]));
        k = k + 1;
    }
    proof {
        lemma_jsons_view(out@);
        assert(jsons_view(out@) =~= v@.map_values(|s: AudioSource| s@).map_values(
            |sv: AudioSourceV| sj_audio_src(sv),
        ));
    }
    out
}

pub open spec fn sj_audio_ctx(a: AudioContextV) -> JsonV {
    JsonV::Obj(
        seq![
            ("sources"@, JsonV::Arr(a.sources.map_values(|s: AudioSourceV| sj_audio_src(s)))),
            ("listener_position"@, sj_vec3(a.listener_position)),
            ("level_db"@, sj_milli(a.level_db)),
        ],
    )
}

pub open spec fn sd_audio_ctx(j: JsonV) -> Option<AudioContextV> {
    match j {
        JsonV::Obj(fs) => {
            let sources = match jv_get(fs, "sources"@) {
                Some(JsonV::Arr(es)) => sd_audio_srcs(es),
                _ => None,
            };
            let lp = sd_req(fs, "listener_position"@, |v: JsonV| sd_vec3(v));
            let level = sd_req(fs, "level_db"@, |v: JsonV| sd_milli(v));
            match (sources, lp, level) {
                (Some(sources), Some(listener_position), Some(level_db)) => Some(
                    AudioContextV { sources, listener_position, level_db },
                ),
                _ => None,
            }
        },
        _ => None,
    }
}

fn ej_audio_ctx(a: &AudioContext) -> (r: Json)
    ensures
        r@ == sj_audio_ctx(a@),
{
    let mut fields: Vec<(String, Json)> = Vec::new();
    fields.push((String::from_str("sources"), Json::Arr(ej_audio_srcs(&a.sources))));
    fields.push((String::from_str("listener_position"), ej_vec3(&a.listener_position)));
    fields.push((String::from_str("level_db"), ej_milli(&a.level_db)));
    let ghost fv = fields@;
    let r = Json::Obj(fields);
    proof {
        lemma_jfields_view(fv);
        assert(jfields_view(fv) =~= sj_audio_ctx(a@)->Obj_0);
    }
    r
}

fn ed_audio_ctx(j: &Json) -> (r: Option<AudioContext>)
    ensures
        match sd_audio_ctx(j@) {
            None => r is None,
            Some(av) => r matches Some(a) && a@ == av,
        },
{
    match j {
        Json::Obj(fs) => {
            let sources: Option<Vec<AudioSource>> = match obj_get(fs, "sources") {
                Some(v) => match v {
                    Json::Arr(es) => {
                        proof {
                            assert(jsons_view(es@).skip(0) =~= jsons_view(es@));
                        }
                        ed_audio_srcs(es, 0)
                    },
                    _ => None,
                },
                None => None,
            };
            let lp: Option<Vector3> = match obj_get(fs, "listener_position") {
                Some(v) => ed_vec3(v),
                None => None,
            };
            let level: Option<Milli> = match obj_get(fs, "level_db") {
                Some(v) => ed_milli(v),
                None => None,
            };
            match (sources, lp, level) {
                (Some(sources), Some(listener_position), Some(level_db)) => Some(
                    AudioContext { sources, listener_position, level_db },
                ),
                _ => None,
            }
        },
        _ => None,
    }
}

// ---------------------------------------------------------------------------
// Smart-device states.
// ---------------------------------------------------------------------------

/// Free-form attributes: an object whose values are all text.
pub open spec fn sd_attrs(fs: Seq<(Seq<char>, JsonV)>) -> Option<Seq<(Seq<char>, Seq<char>)>>
    decreases fs.len(),
{
    if fs.len() == 0 {
        Some(Seq::empty())
    } else {
        match fs[0].1 {
            JsonV::Str(s) => match sd_attrs(fs.drop_first()) {
                None => None,
                Some(rest) => Some(seq![(fs[0].0, s)] + rest),
            },
            _ => None,
        }
    }
}

fn ed_attrs(v: &Vec<(String, Json)>, k: usize) -> (r: Option<Vec<(String, String)>>)
    requires
        k <= v@.len(),
    ensures
        match sd_attrs(jfields_view(v@).skip(k as int)) {
            None => r is None,
            Some(ats) => r matches Some(av) && av@.map_values(
                |p: (String, String)| (p.0@, p.1@),
            ) == ats,
        },
    decreases v@.len() - k,
{
    proof {
        lemma_jfields_view(v@);
    }
    let ghost fs = jfields_view(v@).skip(k as int);
    if k == v.len() {
        let empty: Vec<(String, String)> = Vec::new();
        proof {
            assert(empty@.map_values(|p: (String, String)| (p.0@, p.1@)) =~= Seq::<
                (Seq<char>, Seq<char>),
            >::empty());
        }
        Some(empty)
    } else {
        proof {
            assert(fs[0] == (v@[k as int].0@, json_view(v@[k as int].1)));
            assert(fs.drop_first() =~= jfields_view(v@).skip(k as int + 1));
        }
        match &v[k].1 {
            Json::Str(s) => {
                match ed_attrs(v, k + 1) {
                    None => None,
                    Some(mut rest) => {
                        rest.insert(0, (v[k].0.clone(), s.clone()));
                        proof {
                            assert(rest@.map_values(|p: (String, String)| (p.0@, p.1@))
                                =~= sd_attrs(fs)->Some_0);
                        }
                        Some(rest)
                    },
                }
            },
            _ => None,
        }
    }
}

fn ej_attrs(v: &Vec<(String, String)>) -> (r: Vec<(String, Json)>)
    ensures
        jfields_view(r@) == v@.map_values(
            |p: (String, String)| (p.0@, JsonV::Str(p.1@)),
        ),
{
    let mut out: Vec<(String, Json)> = Vec::new();
    let mut k: usize = 0;
    while k < v.len()
        invariant
            0 <= k <= v@.len(),
            out@.len() == k,
            forall|i: int|
                0 <= i < k ==> out@[i].0@ == v@[i].0@ && out@[i].1@ == JsonV::Str(v@[i].1@),
        decreases v@.len() - k,
    {
        out.push((v[k].0.clone(), Json::Str(v[k].1.clone())));
        k = k + 1;
    }
    proof {
        lemma_jfields_view(out@);
        assert(jfields_view(out@) =~= v@.map_values(
            |p: (String, String)| (p.0@, JsonV::Str(p.1@)),
        ));
    }
    out
}

pub open spec fn sj_device(d: DeviceStateV) -> JsonV {
    JsonV::Obj(
        seq![
            ("id"@, JsonV::Str(d.id)),
            ("device_type"@, JsonV::Str(d.device_type)),
            ("state"@, JsonV::Str(d.state)),
            ("position"@, sj_vec3(d.position)),
            (
                "attributes"@,
                JsonV::Obj(
                    d.attributes.map_values(
                        |p: (Seq<char>, Seq<char>)| (p.0, JsonV::Str(p.1)),
                    ),
                ),
            ),
        ],
    )
}

pub open spec fn sd_device(j: JsonV) -> Option<DeviceStateV> {
    match j {
        JsonV::Obj(fs) => {
            let id = sd_req(fs, "id"@, |v: JsonV| sd_text(v));
            let dt = sd_req(fs, "device_type"@, |v: JsonV| sd_text(v));
            let st = sd_req(fs, "state"@, |v: JsonV| sd_text(v));
            let position = sd_req(fs, "position"@, |v: JsonV| sd_vec3(v));
            let attributes = match jv_get(fs, "attributes"@) {
                Some(JsonV::Obj(afs)) => sd_attrs(afs),
                _ => None,
            };
            match (id, dt, st, position, attributes) {
                (Some(id), Some(device_type), Some(state), Some(position), Some(attributes)) =>
                    Some(DeviceStateV { id, device_type, state, position, attributes }),
                _ => None,
            }
        },
        _ => None,
    }
}

fn ej_device(d: &DeviceState) -> (r: Json)
    ensures
        r@ == sj_device(d@),
{
    let mut fields: Vec<(String, Json)> = Vec::new();
    fields.push((String::from_str("id"), Json::Str(d.id.clone())));
    fields.push((String::from_str("device_type"), Json::Str(d.device_type.clone())));
    fields.push((String::from_str("state"), Json::Str(d.state.clone())));
    fields.push((String::from_str("position"), ej_vec3(&d.position)));
    fields.push((String::from_str("attributes"), Json::Obj(ej_attrs(&d.attributes))));
    let ghost fv = fields@;
    let r = Json::Obj(fields);
    proof {
        lemma_jfields_view(fv);
        assert(d.attributes@.map_values(|p: (String, String)| (p.0@, JsonV::Str(p.1@)))
            =~= d@.attributes.map_values(|p: (Seq<char>, Seq<char>)| (p.0, JsonV::Str(p.1))));
        assert(jfields_view(fv) =~= sj_device(d@)->Obj_0);
    }
    r
}

fn ed_device(j: &Json) -> (r: Option<DeviceState>)
    ensures
        match sd_device(j@) {
            None => r is None,
            Some(dv) => r matches Some(d) && d@ == dv,
        },
{
    match j {
        Json::Obj(fs) => {
            let id: Option<String> = match obj_get(fs, "id") {
                Some(v) => ed_string(v),
                None => None,
            };
            let dt: Option<String> = match obj_get(fs, "device_type") {
                Some(v) => ed_string(v),
                None => None,
            };
            let st: Option<String> = match obj_get(fs, "state") {
                Some(v) => ed_string(v),
                None => None,
            };
            let position: Option<Vector3> = match obj_get(fs, "position") {
                Some(v) => ed_vec3(v),
                None => None,
            };
            let attributes: Option<Vec<(String, String)>> = match obj_get(fs, "attributes") {
                Some(v) => match v {
                    Json::Obj(afs) => {
                        proof {
                            assert(jfields_view(afs@).skip(0) =~= jfields_view(afs@));
                        }
                        ed_attrs(afs, 0)
                    },
                    _ => None,
                },
                None => None,
            };
            match (id, dt, st, position, attributes) {
                (Some(id), Some(device_type), Some(state), Some(position), Some(attributes)) =>
                    Some(DeviceState { id, device_type, state, position, attributes }),
                _ => None,
            }
        },
        _ => None,
    }
}

pub open spec fn sd_devices(elems: Seq<JsonV>) -> Option<Seq<DeviceStateV>>
    decreases elems.len(),
{
    if elems.len() == 0 {
        Some(Seq::empty())
    } else {
        match sd_device(elems[0]) {
            None => None,
            Some(d) => match sd_devices(elems.drop_first()) {
                None => None,
                Some(rest) => Some(seq![d] + rest),
            },
        }
    }
}

fn ed_devices(v: &Vec<Json>, k: usize) -> (r: Option<Vec<DeviceState>>)
    requires
        k <= v@.len(),
    ensures
        match sd_devices(jsons_view(v@).skip(k as int)) {
            None => r is None,
            Some(ds) => r matches Some(dv) && dv@.map_values(|d: DeviceState| d@) == ds,
        },
    decreases v@.len() - k,
{
    proof {
        lemma_jsons_view(v@);
    }
    let ghost elems = jsons_view(v@).skip(k as int);
    if k == v.len() {
        let empty: Vec<DeviceState> = Vec::new();
        proof {
            assert(empty@.map_values(|d: DeviceState| d@) =~= Seq::<DeviceStateV>::empty());
        }
        Some(empty)
    } else {
        proof {
            assert(elems[0] == v@[k as int]@);
            assert(elems.drop_first() =~= jsons_view(v@).skip(k as int + 1));
        }
        match ed_device(&v[k]) {
            None => None,
            Some(d) => match ed_devices(v, k + 1) {
                None => None,
                Some(mut rest) => {
                    rest.insert(0, d);
                    proof {
                        assert(rest@.map_values(|x: DeviceState| x@) =~= sd_devices(
                            elems,
                        )->Some_0);
                    }
                    Some(rest)
                },
            },
        }
    }
}

fn ej_devices(v: &Vec<DeviceState>) -> (r: Vec<Json>)
    ensures
        jsons_view(r@) == v@.map_values(|d: DeviceState| d@).map_values(
            |dv: DeviceStateV| sj_device(dv),
        ),
{
    let mut out: Vec<Json> = Vec::new();
    let mut k: usize = 0;
    while k < v.len()
        invariant
            0 <= k <= v@.len(),
            out@.len() == k,
            forall|i: int| 0 <= i < k ==> out@[i]@ == sj_device(v@[i]@),
        decreases v@.len() - k,
    {
        out.push(ej_device(&v[k]));
        k = k + 1;
    }
    proof {
        lemma_jsons_view(out@);
        assert(jsons_view(out@) =~= v@.map_values(|d: DeviceState| d@).map_values(
            |dv: DeviceStateV| sj_device(dv),
        ));
    }
    out
}

// ---------------------------------------------------------------------------
// Whole frames.
// ---------------------------------------------------------------------------

pub open spec fn sj_frame(f: ARFrameV) -> JsonV {
    JsonV::Obj(
        seq![
            ("timestamp"@, JsonV::Int(f.timestamp as nat)),
            ("frame_id"@, JsonV::Int(f.frame_id as nat)),
            ("protocol_version"@, JsonV::Int(f.protocol_version as nat)),
            ("objects"@, JsonV::Arr(f.objects.map_values(|o: DetectedObjectV| sj_object(o)))),
            (
                "hands"@,
                match f.hands {
                    Some(h) => sj_hands(h),
                    None => JsonV::Null,
                },
            ),
            (
                "audio_context"@,
                match f.audio_context {
                    Some(a) => sj_audio_ctx(a),
                    None => JsonV::Null,
                },
            ),
            (
                "device_states"@,
                match f.device_states {
                    Some(ds) => JsonV::Arr(ds.map_values(|d: DeviceStateV| sj_device(d))),
                    None => JsonV::Null,
                },
            ),
        ],
    )
}

/// What a JSON value means as a frame. The timestamp and the frame id are
/// required; a missing version tag is read as the version this broker
/// speaks; every sub-payload is optional and defaults to absent, so that a
/// plain heartbeat and messages from producers with fewer fields read back.
pub open spec fn sd_frame(j: JsonV) -> Option<ARFrameV> {
    match j {
        JsonV::Obj(fs) => {
            let timestamp = sd_req(fs, "timestamp"@, |v: JsonV| sd_u64(v));
            let frame_id = sd_req(fs, "frame_id"@, |v: JsonV| sd_u32(v));
            let pv = sd_opt(fs, "protocol_version"@, |v: JsonV| sd_u16(v));
            let objects = match jv_get(fs, "objects"@) {
                None => Some(Seq::<DetectedObjectV>::empty()),
                Some(JsonV::Null) => Some(Seq::<DetectedObjectV>::empty()),
                Some(JsonV::Arr(es)) => sd_objects(es),
                Some(_) => None,
            };
            let hands = sd_opt(fs, "hands"@, |v: JsonV| sd_hands(v));
            let audio = sd_opt(fs, "audio_context"@, |v: JsonV| sd_audio_ctx(v));
            let devices = match jv_get(fs, "device_states"@) {
                None => Some(None),
                Some(JsonV::Null) => Some(None),
                Some(JsonV::Arr(es)) => match sd_devices(es) {
                    Some(ds) => Some(Some(ds)),
                    None => None,
                },
                Some(_) => None,
            };
            match (timestamp, frame_id, pv, objects, hands, audio, devices) {
                (
                    Some(timestamp),
                    Some(frame_id),
                    Some(pv),
                    Some(objects),
                    Some(hands),
                    Some(audio_context),
                    Some(device_states),
                ) => Some(
                    ARFrameV {
                        timestamp,
                        frame_id,
                        protocol_version: match pv {
                            Some(v) => v,
                            None => PROTOCOL_VERSION,
                        },
                        objects,
                        hands,
                        audio_context,
                        device_states,
                    },
                ),
                _ => None,
            }
        },
        _ => None,
    }
}

/// The canonical JSON object for a frame.
pub fn ej_frame(f: &ARFrame) -> (r: Json)
    ensures
        r@ == sj_frame(f@),
{
    let mut fields: Vec<(String, Json)> = Vec::new();
    fields.push((String::from_str("timestamp"), Json::Int(f.timestamp)));
    fields.push((String::from_str("frame_id"), Json::Int(f.frame_id as u64)));
    fields.push((String::from_str("protocol_version"), Json::Int(f.protocol_version as u64)));
    fields.push((String::from_str("objects"), Json::Arr(ej_objects(&f.objects))));
    fields.push(
        (
            String::from_str("hands"),
            match &f.hands {
                Some(h) => ej_hands(h),
                None => Json::Null,
            },
        ),
    );
    fields.push(
        (
            String::from_str("audio_context"),
            match &f.audio_context {
                Some(a) => ej_audio_ctx(a),
                None => Json::Null,
            },
        ),
    );
    fields.push(
        (
            String::from_str("device_states"),
            match &f.device_states {
                Some(ds) => Json::Arr(ej_devices(ds)),
                None => Json::Null,
            },
        ),
    );
    let ghost fv = fields@;
    let r = Json::Obj(fields);
    proof {
        lemma_jfields_view(fv);
        assert(f.objects@.map_values(|o: DetectedObject| o@).map_values(
            |ov: DetectedObjectV| sj_object(ov),
        ) =~= f@.objects.map_values(|o: DetectedObjectV| sj_object(o)));
        if f.device_states is Some {
            let ds = f.device_states->Some_0;
            assert(ds@.map_values(|d: DeviceState| d@).map_values(
                |dv: DeviceStateV| sj_device(dv),
            ) =~= f@.device_states->Some_0.map_values(|d: DeviceStateV| sj_device(d)));
        }
        assert(jfields_view(fv) =~= sj_frame(f@)->Obj_0);
    }
    r
}

/// Read one frame out of a JSON value.
pub fn ed_frame(j: &Json) -> (r: Option<ARFrame>)
    ensures
        match sd_frame(j@) {
            None => r is None,
            Some(fv) => r matches Some(f) && f@ == fv && fv.wf(),
        },
{
    match j {
        Json::Obj(fs) => {
            let timestamp: Option<u64> = match obj_get(fs, "timestamp") {
                Some(v) => ed_u64(v),
                None => None,
            };
            let frame_id: Option<u32> = match obj_get(fs, "frame_id") {
                Some(v) => ed_u32(v),
                None => None,
            };
            let pv: Option<Option<u16>> = match obj_get(fs, "protocol_version") {
                None => Some(None),
                Some(v) => match v {
                    Json::Null => Some(None),
                    _ => match ed_u16(v) {
                        Some(x) => Some(Some(x)),
                        None => None,
                    },
                },
            };
            let objects: Option<Vec<DetectedObject>> = match obj_get(fs, "objects") {
                None => Some(Vec::new()),
                Some(v) => match v {
                    Json::Null => Some(Vec::new()),
                    Json::Arr(es) => {
                        proof {
                            assert(jsons_view(es@).skip(0) =~= jsons_view(es@));
                        }
                        ed_objects(es, 0)
                    },
                    _ => None,
                },
            };
            let hands: Option<Option<HandTrackingData>> = match obj_get(fs, "hands") {
                None => Some(None),
                Some(v) => match v {
                    Json::Null => Some(None),
                    _ => match ed_hands(v) {
                        Some(h) => Some(Some(h)),
                        None => None,
                    },
                },
            };
            let audio: Option<Option<AudioContext>> = match obj_get(fs, "audio_context") {
                None => Some(None),
                Some(v) => match v {
                    Json::Null => Some(None),
                    _ => match ed_audio_ctx(v) {
                        Some(a) => Some(Some(a)),
                        None => None,
                    },
                },
            };
            let devices: Option<Option<Vec<DeviceState>>> = match obj_get(fs, "device_states") {
                None => Some(None),
                Some(v) => match v {
                    Json::Null => Some(None),
                    Json::Arr(es) => {
                        proof {
                            assert(jsons_view(es@).skip(0) =~= jsons_view(es@));
                        }
                        match ed_devices(es, 0) {
                            Some(ds) => Some(Some(ds)),
                            None => None,
                        }
                    },
                    _ => None,
                },
            };
            match (timestamp, frame_id, pv, objects, hands, audio, devices) {
                (
                    Some(timestamp),
                    Some(frame_id),
                    Some(pv),
                    Some(objects),
                    Some(hands),
                    Some(audio_context),
                    Some(device_states),
                ) => {
                    let protocol_version: u16 = match pv {
                        Some(v) => v,
                        None => PROTOCOL_VERSION,
                    };
                    let r = ARFrame {
                        timestamp,
                        frame_id,
                        protocol_version,
                        objects,
                        hands,
                        audio_context,
                        device_states,
                    };
                    proof {
                        let fv = sd_frame(j@)->Some_0;
                        assert(r@.objects =~= fv.objects);
                        if r@.device_states is Some {
                            assert(r@.device_states->Some_0 =~= fv.device_states->Some_0);
                        }
                        assert(r@ == fv);
                    }
                    Some(r)
                },
                _ => None,
            }
        },
        _ => None,
    }
}

// ---------------------------------------------------------------------------
// Client capabilities and interactions.
// ---------------------------------------------------------------------------

pub open spec fn sj_caps(c: ClientCapabilitiesV) -> JsonV {
    JsonV::Obj(
        seq![
            ("device_name"@, JsonV::Str(c.device_name)),
            ("supports_hand_tracking"@, JsonV::Bool(c.supports_hand_tracking)),
            ("supports_spatial_audio"@, JsonV::Bool(c.supports_spatial_audio)),
            ("max_fps"@, JsonV::Int(c.max_fps as nat)),
        ],
    )
}

pub open spec fn sd_caps(j: JsonV) -> Option<ClientCapabilitiesV> {
    match j {
        JsonV::Obj(fs) => {
            let name = sd_req(fs, "device_name"@, |v: JsonV| sd_text(v));
            let hand = sd_req(fs, "supports_hand_tracking"@, |v: JsonV| sd_bool(v));
            let audio = sd_req(fs, "supports_spatial_audio"@, |v: JsonV| sd_bool(v));
            let fps = sd_req(fs, "max_fps"@, |v: JsonV| sd_u32(v));
            match (name, hand, audio, fps) {
                (
                    Some(device_name),
                    Some(supports_hand_tracking),
                    Some(supports_spatial_audio),
                    Some(max_fps),
                ) => Some(
                    ClientCapabilitiesV {
                        device_name,
                        supports_hand_tracking,
                        supports_spatial_audio,
                        max_fps,
                    },
                ),
                _ => None,
            }
        },
        _ => None,
    }
}

fn ej_caps(c: &ClientCapabilities) -> (r: Json)
    ensures
        r@ == sj_caps(c@),
{
    let mut fields: Vec<(String, Json)> = Vec::new();
    fields.push((String::from_str("device_name"), Json::Str(c.device_name.clone())));
    fields.push(
        (String::from_str("supports_hand_tracking"), Json::Bool(c.supports_hand_tracking)),
    );
    fields.push(
        (String::from_str("supports_spatial_audio"), Json::Bool(c.supports_spatial_audio)),
    );
    fields.push((String::from_str("max_fps"), Json::Int(c.max_fps as u64)));
    let ghost fv = fields@;
    let r = Json::Obj(fields);
    proof {
        lemma_jfields_view(fv);
        assert(jfields_view(fv) =~= sj_caps(c@)->Obj_0);
    }
    r
}

fn ed_caps(j: &Json) -> (r: Option<ClientCapabilities>)
    ensures
        match sd_caps(j@) {
            None => r is None,
            Some(cv) => r matches Some(c) && c@ == cv,
        },
{
    match j {
        Json::Obj(fs) => {
            let name: Option<String> = match obj_get(fs, "device_name") {
                Some(v) => ed_string(v),
                None => None,
            };
            let hand: Option<bool> = match obj_get(fs, "supports_hand_tracking") {
                Some(v) => ed_bool(v),
                None => None,
            };
            let audio: Option<bool> = match obj_get(fs, "supports_spatial_audio") {
                Some(v) => ed_bool(v),
                None => None,
            };
            let fps: Option<u32> = match obj_get(fs, "max_fps") {
                Some(v) => ed_u32(v),
                None => None,
            };
            match (name, hand, audio, fps) {
                (
                    Some(device_name),
                    Some(supports_hand_tracking),
                    Some(supports_spatial_audio),
                    Some(max_fps),
                ) => Some(
                    ClientCapabilities {
                        device_name,
                        supports_hand_tracking,
                        supports_spatial_audio,
                        max_fps,
                    },
                ),
                _ => None,
            }
        },
        _ => None,
    }
}

pub open spec fn sj_interaction(t: InteractionTypeV) -> JsonV {
    match t {
        InteractionTypeV::Tap => JsonV::Str("Tap"@),
        InteractionTypeV::Pinch => JsonV::Str("Pinch"@),
        InteractionTypeV::Grab => JsonV::Str("Grab"@),
        InteractionTypeV::VoiceCommand { command } => JsonV::Obj(
            seq![
                (
                    "VoiceCommand"@,
                    JsonV::Obj(seq![("command"@, JsonV::Str(command))]),
                ),
            ],
        ),
    }
}

pub open spec fn sd_interaction(j: JsonV) -> Option<InteractionTypeV> {
    match j {
        JsonV::Str(s) => if s == "Tap"@ {
            Some(InteractionTypeV::Tap)
        } else if s == "Pinch"@ {
            Some(InteractionTypeV::Pinch)
        } else if s == "Grab"@ {
            Some(InteractionTypeV::Grab)
        } else {
            None
        },
        JsonV::Obj(fs) => if fs.len() == 1 && fs[0].0 == "VoiceCommand"@ {
            match fs[0].1 {
                JsonV::Obj(inner) => match sd_req(inner, "command"@, |v: JsonV| sd_text(v)) {
                    Some(command) => Some(InteractionTypeV::VoiceCommand { command }),
                    None => None,
                },
                _ => None,
            }
        } else {
            None
        },
        _ => None,
    }
}

fn ej_interaction(t: &InteractionType) -> (r: Json)
    ensures
        r@ == sj_interaction(t@),
{
    match t {
        InteractionType::Tap => Json::Str(String::from_str("Tap")),
        InteractionType::Pinch => Json::Str(String::from_str("Pinch")),
        InteractionType::Grab => Json::Str(String::from_str("Grab")),
        InteractionType::VoiceCommand { command } => {
            let mut inner: Vec<(String, Json)> = Vec::new();
            inner.push((String::from_str("command"), Json::Str(command.clone())));
            let ghost iv = inner@;
            let mut fields: Vec<(String, Json)> = Vec::new();
            fields.push((String::from_str("VoiceCommand"), Json::Obj(inner)));
            let ghost fv = fields@;
            let r = Json::Obj(fields);
            proof {
                lemma_jfields_view(iv);
                lemma_jfields_view(fv);
                assert(jfields_view(iv) =~= sj_interaction(t@)->Obj_0[0].1->Obj_0);
                assert(jfields_view(fv) =~= sj_interaction(t@)->Obj_0);
            }
            r
        },
    }
}

fn ed_interaction(j: &Json) -> (r: Option<InteractionType>)
    ensures
        match sd_interaction(j@) {
            None => r is None,
            Some(tv) => r matches Some(t) && t@ == tv,
        },
{
    match j {
        Json::Str(s) => {
            let ss = s.as_str();
            if str_eq(ss, "Tap") {
                Some(InteractionType::Tap)
            } else if str_eq(ss, "Pinch") {
                Some(InteractionType::Pinch)
            } else if str_eq(ss, "Grab") {
                Some(InteractionType::Grab)
            } else {
                None
            }
        },
        Json::Obj(fs) => {
            proof {
                lemma_jfields_view(fs@);
            }
            if fs.len() == 1 && str_eq(fs[0].0.as_str(), "VoiceCommand") {
                match &fs[0].1 {
                    Json::Obj(inner) => {
                        match obj_get(inner, "command") {
                            Some(v) => match ed_string(v) {
                                Some(command) => Some(
                                    InteractionType::VoiceCommand { command },
                                ),
                                None => None,
                            },
                            None => None,
                        }
                    },
                    _ => None,
                }
            } else {
                None
            }
        },
        _ => None,
    }
}

pub open spec fn sd_streams(elems: Seq<JsonV>) -> Option<Seq<StreamType>>
    decreases elems.len(),
{
    if elems.len() == 0 {
        Some(Seq::empty())
    } else {
        match sd_streamtype(elems[0]) {
            None => None,
            Some(s) => match sd_streams(elems.drop_first()) {
                None => None,
                Some(rest) => Some(seq![s] + rest),
            },
        }
    }
}

fn ed_streams(v: &Vec<Json>, k: usize) -> (r: Option<Vec<StreamType>>)
    requires
        k <= v@.len(),
    ensures
        match sd_streams(jsons_view(v@).skip(k as int)) {
            None => r is None,
            Some(ss) => r matches Some(sv) && sv@ == ss,
        },
    decreases v@.len() - k,
{
    proof {
        lemma_jsons_view(v@);
    }
    let ghost elems = jsons_view(v@).skip(k as int);
    if k == v.len() {
        let empty: Vec<StreamType> = Vec::new();
        proof {
            assert(empty@ =~= Seq::<StreamType>::empty());
        }
        Some(empty)
    } else {
        proof {
            assert(elems[0] == v@[k as int]@);
            assert(elems.drop_first() =~= jsons_view(v@).skip(k as int + 1));
        }
        match ed_streamtype(&v[k]) {
            None => None,
            Some(s) => match ed_streams(v, k + 1) {
                None => None,
                Some(mut rest) => {
                    rest.insert(0, s);
                    proof {
                        assert(rest@ =~= sd_streams(elems)->Some_0);
                    }
                    Some(rest)
                },
            },
        }
    }
}

fn ej_streams(v: &Vec<StreamType>) -> (r: Vec<Json>)
    ensures
        jsons_view(r@) == v@.map_values(|s: StreamType| sj_streamtype(s)),
{
    let mut out: Vec<Json> = Vec::new();
    let mut k: usize = 0;
    while k < v.len()
        invariant
            0 <= k <= v@.len(),
            out@.len() == k,
            forall|i: int| 0 <= i < k ==> out@[i]@ == sj_streamtype(v@[i]),
        decreases v@.len() - k,
    {
        out.push(ej_streamtype(&v[k]));
        k = k + 1;
    }
    proof {
        lemma_jsons_view(out@);
        assert(jsons_view(out@) =~= v@.map_values(|s: StreamType| sj_streamtype(s)));
    }
    out
}

// ---------------------------------------------------------------------------
// Client envelopes: one tag field naming the message kind.
// ---------------------------------------------------------------------------

pub open spec fn sj_client_msg(m: ClientMessageV) -> JsonV {
    match m {
        ClientMessageV::Connect { client_id, protocol_version, capabilities } => JsonV::Obj(
            seq![
                (
                    "Connect"@,
                    JsonV::Obj(
                        seq![
                            ("client_id"@, JsonV::Str(client_id)),
                            ("protocol_version"@, JsonV::Int(protocol_version as nat)),
                            ("capabilities"@, sj_caps(capabilities)),
                        ],
                    ),
                ),
            ],
        ),
        ClientMessageV::Subscribe { streams } => JsonV::Obj(
            seq![
                (
                    "Subscribe"@,
                    JsonV::Obj(
                        seq![
                            (
                                "streams"@,
                                JsonV::Arr(streams.map_values(|s: StreamType| sj_streamtype(s))),
                            ),
                        ],
                    ),
                ),
            ],
        ),
        ClientMessageV::ConfigureStream { target_fps, quality } => JsonV::Obj(
            seq![
                (
                    "ConfigureStream"@,
                    JsonV::Obj(
                        seq![
                            ("target_fps"@, JsonV::Int(target_fps as nat)),
                            ("quality"@, sj_quality(quality)),
                        ],
                    ),
                ),
            ],
        ),
        ClientMessageV::HandTrackingUpdate { hands } => JsonV::Obj(
            seq![
                ("HandTrackingUpdate"@, JsonV::Obj(seq![("hands"@, sj_hands(hands))])),
            ],
        ),
        ClientMessageV::InteractionEvent { event_type, target } => JsonV::Obj(
            seq![
                (
                    "InteractionEvent"@,
                    JsonV::Obj(
                        seq![
                            ("event_type"@, sj_interaction(event_type)),
                            (
                                "target"@,
                                match target {
                                    Some(t) => JsonV::Str(t),
                                    None => JsonV::Null,
                                },
                            ),
                        ],
                    ),
                ),
            ],
        ),
        ClientMessageV::Ping { timestamp } => JsonV::Obj(
            seq![
                ("Ping"@, JsonV::Obj(seq![("timestamp"@, JsonV::Int(timestamp as nat))])),
            ],
        ),
    }
}

pub open spec fn sd_client_msg(j: JsonV) -> Option<ClientMessageV> {
    match j {
        JsonV::Obj(fs) => if fs.len() != 1 {
            None
        } else {
            let tag = fs[0].0;
            let payload = fs[0].1;
            if tag == "Connect"@ {
                match payload {
                    JsonV::Obj(p) => {
                        let cid = sd_req(p, "client_id"@, |v: JsonV| sd_text(v));
                        let pv = sd_req(p, "protocol_version"@, |v: JsonV| sd_u16(v));
                        let caps = sd_req(p, "capabilities"@, |v: JsonV| sd_caps(v));
                        match (cid, pv, caps) {
                            (Some(client_id), Some(protocol_version), Some(capabilities)) => Some(
                                ClientMessageV::Connect {
                                    client_id,
                                    protocol_version,
                                    capabilities,
                                },
                            ),
                            _ => None,
                        }
                    },
                    _ => None,
                }
            } else if tag == "Subscribe"@ {
                match payload {
                    JsonV::Obj(p) => match jv_get(p, "streams"@) {
                        Some(JsonV::Arr(es)) => match sd_streams(es) {
                            Some(streams) => Some(ClientMessageV::Subscribe { streams }),
                            None => None,
                        },
                        _ => None,
                    },
                    _ => None,
                }
            } else if tag == "ConfigureStream"@ {
                match payload {
                    JsonV::Obj(p) => {
                        let fps = sd_req(p, "target_fps"@, |v: JsonV| sd_u32(v));
                        let q = sd_req(p, "quality"@, |v: JsonV| sd_quality(v));
                        match (fps, q) {
                            (Some(target_fps), Some(quality)) => Some(
                                ClientMessageV::ConfigureStream { target_fps, quality },
                            ),
                            _ => None,
                        }
                    },
                    _ => None,
                }
            } else if tag == "HandTrackingUpdate"@ {
                match payload {
                    JsonV::Obj(p) => match sd_req(p, "hands"@, |v: JsonV| sd_hands(v)) {
                        Some(hands) => Some(ClientMessageV::HandTrackingUpdate { hands }),
                        None => None,
                    },
                    _ => None,
                }
            } else if tag == "InteractionEvent"@ {
                match payload {
                    JsonV::Obj(p) => {
                        let et = sd_req(p, "event_type"@, |v: JsonV| sd_interaction(v));
                        let target = sd_opt(p, "target"@, |v: JsonV| sd_text(v));
                        match (et, target) {
                            (Some(event_type), Some(target)) => Some(
                                ClientMessageV::InteractionEvent { event_type, target },
                            ),
                            _ => None,
                        }
                    },
                    _ => None,
                }
            } else if tag == "Ping"@ {
                match payload {
                    JsonV::Obj(p) => match sd_req(p, "timestamp"@, |v: JsonV| sd_u64(v)) {
                        Some(timestamp) => Some(ClientMessageV::Ping { timestamp }),
                        None => None,
                    },
                    _ => None,
                }
            } else {
                None
            }
        },
        _ => None,
    }
}

/// The canonical JSON envelope for a client message.
pub fn ej_client_msg(m: &ClientMessage) -> (r: Json)
    ensures
        r@ == sj_client_msg(m@),
{
    match m {
        ClientMessage::Connect { client_id, protocol_version, capabilities } => {
            let mut p: Vec<(String, Json)> = Vec::new();
            p.push((String::from_str("client_id"), Json::Str(client_id.clone())));
            p.push((String::from_str("protocol_version"), Json::Int(*protocol_version as u64)));
            p.push((String::from_str("capabilities"), ej_caps(capabilities)));
            let ghost pv = p@;
            let mut fields: Vec<(String, Json)> = Vec::new();
            fields.push((String::from_str("Connect"), Json::Obj(p)));
            let ghost fv = fields@;
            let r = Json::Obj(fields);
            proof {
                lemma_jfields_view(pv);
                lemma_jfields_view(fv);
                assert(jfields_view(pv) =~= sj_client_msg(m@)->Obj_0[0].1->Obj_0);
                assert(jfields_view(fv) =~= sj_client_msg(m@)->Obj_0);
            }
            r
        },
        ClientMessage::Subscribe { streams } => {
            let mut p: Vec<(String, Json)> = Vec::new();
            p.push((String::from_str("streams"), Json::Arr(ej_streams(streams))));
            let ghost pv = p@;
            let mut fields: Vec<(String, Json)> = Vec::new();
            fields.push((String::from_str("Subscribe"), Json::Obj(p)));
            let ghost fv = fields@;
            let r = Json::Obj(fields);
            proof {
                lemma_jfields_view(pv);
                lemma_jfields_view(fv);
                assert(jfields_view(pv) =~= sj_client_msg(m@)->Obj_0[0].1->Obj_0);
                assert(jfields_view(fv) =~= sj_client_msg(m@)->Obj_0);
            }
            r
        },
        ClientMessage::ConfigureStream { target_fps, quality } => {
            let mut p: Vec<(String, Json)> = Vec::new();
            p.push((String::from_str("target_fps"), Json::Int(*target_fps as u64)));
            p.push((String::from_str("quality"), ej_quality(quality)));
            let ghost pv = p@;
            let mut fields: Vec<(String, Json)> = Vec::new();
            fields.push((String::from_str("ConfigureStream"), Json::Obj(p)));
            let ghost fv = fields@;
            let r = Json::Obj(fields);
            proof {
                lemma_jfields_view(pv);
                lemma_jfields_view(fv);
                assert(jfields_view(pv) =~= sj_client_msg(m@)->Obj_0[0].1->Obj_0);
                assert(jfields_view(fv) =~= sj_client_msg(m@)->Obj_0);
            }
            r
        },
        ClientMessage::HandTrackingUpdate { hands } => {
            let mut p: Vec<(String, Json)> = Vec::new();
            p.push((String::from_str("hands"), ej_hands(hands)));
            let ghost pv = p@;
            let mut fields: Vec<(String, Json)> = Vec::new();
            fields.push((String::from_str("HandTrackingUpdate"), Json::Obj(p)));
            let ghost fv = fields@;
            let r = Json::Obj(fields);
            proof {
                lemma_jfields_view(pv);
                lemma_jfields_view(fv);
                assert(jfields_view(pv) =~= sj_client_msg(m@)->Obj_0[0].1->Obj_0);
                assert(jfields_view(fv) =~= sj_client_msg(m@)->Obj_0);
            }
            r
        },
        ClientMessage::InteractionEvent { event_type, target } => {
            let mut p: Vec<(String, Json)> = Vec::new();
            p.push((String::from_str("event_type"), ej_interaction(event_type)));
            p.push(
                (
                    String::from_str("target"),
                    match target {
                        Some(t) => Json::Str(t.clone()),
                        None => Json::Null,
                    },
                ),
            );
            let ghost pv = p@;
            let mut fields: Vec<(String, Json)> = Vec::new();
            fields.push((String::from_str("InteractionEvent"), Json::Obj(p)));
            let ghost fv = fields@;
            let r = Json::Obj(fields);
            proof {
                lemma_jfields_view(pv);
                lemma_jfields_view(fv);
                assert(jfields_view(pv) =~= sj_client_msg(m@)->Obj_0[0].1->Obj_0);
                assert(jfields_view(fv) =~= sj_client_msg(m@)->Obj_0);
            }
            r
        },
        ClientMessage::Ping { timestamp } => {
            let mut p: Vec<(String, Json)> = Vec::new();
            p.push((String::from_str("timestamp"), Json::Int(*timestamp)));
            let ghost pv = p@;
            let mut fields: Vec<(String, Json)> = Vec::new();
            fields.push((String::from_str("Ping"), Json::Obj(p)));
            let ghost fv = fields@;
            let r = Json::Obj(fields);
            proof {
                lemma_jfields_view(pv);
                lemma_jfields_view(fv);
                assert(jfields_view(pv) =~= sj_client_msg(m@)->Obj_0[0].1->Obj_0);
                assert(jfields_view(fv) =~= sj_client_msg(m@)->Obj_0);
            }
            r
        },
    }
}

/// Read a client envelope out of a JSON value.
pub fn ed_client_msg(j: &Json) -> (r: Option<ClientMessage>)
    ensures
        match sd_client_msg(j@) {
            None => r is None,
            Some(mv) => r matches Some(m) && m@ == mv,
        },
{
    match j {
        Json::Obj(fs) => {
            proof {
                lemma_jfields_view(fs@);
            }
            if fs.len() != 1 {
                return None;
            }
            let tag = fs[0].0.as_str();
            let payload = &fs[0].1;
            if str_eq(tag, "Connect") {
                match payload {
                    Json::Obj(p) => {
                        let cid: Option<String> = match obj_get(p, "client_id") {
                            Some(v) => ed_string(v),
                            None => None,
                        };
                        let pv: Option<u16> = match obj_get(p, "protocol_version") {
                            Some(v) => ed_u16(v),
                            None => None,
                        };
                        let caps: Option<ClientCapabilities> = match obj_get(p, "capabilities") {
                            Some(v) => ed_caps(v),
                            None => None,
                        };
                        match (cid, pv, caps) {
                            (Some(client_id), Some(protocol_version), Some(capabilities)) => Some(
                                ClientMessage::Connect {
                                    client_id,
                                    protocol_version,
                                    capabilities,
                                },
                            ),
                            _ => None,
                        }
                    },
                    _ => None,
                }
            } else if str_eq(tag, "Subscribe") {
                match payload {
                    Json::Obj(p) => match obj_get(p, "streams") {
                        Some(v) => match v {
                            Json::Arr(es) => {
                                proof {
                                    assert(jsons_view(es@).skip(0) =~= jsons_view(es@));
                                }
                                match ed_streams(es, 0) {
                                    Some(streams) => Some(ClientMessage::Subscribe { streams }),
                                    None => None,
                                }
                            },
                            _ => None,
                        },
                        None => None,
                    },
                    _ => None,
                }
            } else if str_eq(tag, "ConfigureStream") {
                match payload {
                    Json::Obj(p) => {
                        let fps: Option<u32> = match obj_get(p, "target_fps") {
                            Some(v) => ed_u32(v),
                            None => None,
                        };
                        let q: Option<QualityPreset> = match obj_get(p, "quality") {
                            Some(v) => ed_quality(v),
                            None => None,
                        };
                        match (fps, q) {
                            (Some(target_fps), Some(quality)) => Some(
                                ClientMessage::ConfigureStream { target_fps, quality },
                            ),
                            _ => None,
                        }
                    },
                    _ => None,
                }
            } else if str_eq(tag, "HandTrackingUpdate") {
                match payload {
                    Json::Obj(p) => match obj_get(p, "hands") {
                        Some(v) => match ed_hands(v) {
                            Some(hands) => Some(ClientMessage::HandTrackingUpdate { hands }),
                            None => None,
                        },
                        None => None,
                    },
                    _ => None,
                }
            } else if str_eq(tag, "InteractionEvent") {
                match payload {
                    Json::Obj(p) => {
                        let et: Option<InteractionType> = match obj_get(p, "event_type") {
                            Some(v) => ed_interaction(v),
                            None => None,
                        };
                        let target: Option<Option<String>> = match obj_get(p, "target") {
                            None => Some(None),
                            Some(v) => match v {
                                Json::Null => Some(None),
                                _ => match ed_string(v) {
                                    Some(t) => Some(Some(t)),
                                    None => None,
                                },
                            },
                        };
                        match (et, target) {
                            (Some(event_type), Some(target)) => Some(
                                ClientMessage::InteractionEvent { event_type, target },
                            ),
                            _ => None,
                        }
                    },
                    _ => None,
                }
            } else if str_eq(tag, "Ping") {
                match payload {
                    Json::Obj(p) => match obj_get(p, "timestamp") {
                        Some(v) => match ed_u64(v) {
                            Some(timestamp) => Some(ClientMessage::Ping { timestamp }),
                            None => None,
                        },
                        None => None,
                    },
                    _ => None,
                }
            } else {
                None
            }
        },
        _ => None,
    }
}

// ---------------------------------------------------------------------------
// Server envelopes.
// ---------------------------------------------------------------------------

pub open spec fn sj_server_msg(m: ServerMessageV) -> JsonV {
    match m {
        ServerMessageV::Connected { server_version, session_id } => JsonV::Obj(
            seq![
                (
                    "Connected"@,
                    JsonV::Obj(
                        seq![
                            ("server_version"@, JsonV::Str(server_version)),
                            ("session_id"@, JsonV::Str(session_id)),
                        ],
                    ),
                ),
            ],
        ),
        ServerMessageV::Frame(f) => JsonV::Obj(seq![("Frame"@, sj_frame(f))]),
        ServerMessageV::Error { code, message } => JsonV::Obj(
            seq![
                (
                    "Error"@,
                    JsonV::Obj(
                        seq![
                            ("code"@, JsonV::Int(code as nat)),
                            ("message"@, JsonV::Str(message)),
                        ],
                    ),
                ),
            ],
        ),
        ServerMessageV::Pong { client_timestamp, server_timestamp } => JsonV::Obj(
            seq![
                (
                    "Pong"@,
                    JsonV::Obj(
                        seq![
                            ("client_timestamp"@, JsonV::Int(client_timestamp as nat)),
                            ("server_timestamp"@, JsonV::Int(server_timestamp as nat)),
                        ],
                    ),
                ),
            ],
        ),
    }
}

/// What a JSON value means as a server envelope. A missing error code is
/// read as zero, so that terser producers' error reports still read back.
pub open spec fn sd_server_msg(j: JsonV) -> Option<ServerMessageV> {
    match j {
        JsonV::Obj(fs) => if fs.len() != 1 {
            None
        } else {
            let tag = fs[0].0;
            let payload = fs[0].1;
            if tag == "Connected"@ {
                match payload {
                    JsonV::Obj(p) => {
                        let sv = sd_req(p, "server_version"@, |v: JsonV| sd_text(v));
                        let sid = sd_req(p, "session_id"@, |v: JsonV| sd_text(v));
                        match (sv, sid) {
                            (Some(server_version), Some(session_id)) => Some(
                                ServerMessageV::Connected { server_version, session_id },
                            ),
                            _ => None,
                        }
                    },
                    _ => None,
                }
            } else if tag == "Frame"@ {
                match sd_frame(payload) {
                    Some(f) => Some(ServerMessageV::Frame(f)),
                    None => None,
                }
            } else if tag == "Error"@ {
                match payload {
                    JsonV::Obj(p) => {
                        let code = sd_opt(p, "code"@, |v: JsonV| sd_u16(v));
                        let message = sd_req(p, "message"@, |v: JsonV| sd_text(v));
                        match (code, message) {
                            (Some(code), Some(message)) => Some(
                                ServerMessageV::Error {
                                    code: match code {
                                        Some(c) => c,
                                        None => 0,
                                    },
                                    message,
                                },
                            ),
                            _ => None,
                        }
                    },
                    _ => None,
                }
            } else if tag == "Pong"@ {
                match payload {
                    JsonV::Obj(p) => {
                        let ct = sd_req(p, "client_timestamp"@, |v: JsonV| sd_u64(v));
                        let st = sd_req(p, "server_timestamp"@, |v: JsonV| sd_u64(v));
                        match (ct, st) {
                            (Some(client_timestamp), Some(server_timestamp)) => Some(
                                ServerMessageV::Pong { client_timestamp, server_timestamp },
                            ),
                            _ => None,
                        }
                    },
                    _ => None,
                }
            } else {
                None
            }
        },
        _ => None,
    }
}

/// The canonical JSON envelope for a server message.
pub fn ej_server_msg(m: &ServerMessage) -> (r: Json)
    ensures
        r@ == sj_server_msg(m@),
{
    match m {
        ServerMessage::Connected { server_version, session_id } => {
            let mut p: Vec<(String, Json)> = Vec::new();
            p.push((String::from_str("server_version"), Json::Str(server_version.clone())));
            p.push((String::from_str("session_id"), Json::Str(session_id.clone())));
            let ghost pv = p@;
            let mut fields: Vec<(String, Json)> = Vec::new();
            fields.push((String::from_str("Connected"), Json::Obj(p)));
            let ghost fv = fields@;
            let r = Json::Obj(fields);
            proof {
                lemma_jfields_view(pv);
                lemma_jfields_view(fv);
                assert(jfields_view(pv) =~= sj_server_msg(m@)->Obj_0[0].1->Obj_0);
                assert(jfields_view(fv) =~= sj_server_msg(m@)->Obj_0);
            }
            r
        },
        ServerMessage::Frame(f) => {
            let mut fields: Vec<(String, Json)> = Vec::new();
            fields.push((String::from_str("Frame"), ej_frame(f)));
            let ghost fv = fields@;
            let r = Json::Obj(fields);
            proof {
                lemma_jfields_view(fv);
                assert(jfields_view(fv) =~= sj_server_msg(m@)->Obj_0);
            }
            r
        },
        ServerMessage::Error { code, message } => {
            let mut p: Vec<(String, Json)> = Vec::new();
            p.push((String::from_str("code"), Json::Int(*code as u64)));
            p.push((String::from_str("message"), Json::Str(message.clone())));
            let ghost pv = p@;
            let mut fields: Vec<(String, Json)> = Vec::new();
            fields.push((String::from_str("Error"), Json::Obj(p)));
            let ghost fv = fields@;
            let r = Json::Obj(fields);
            proof {
                lemma_jfields_view(pv);
                lemma_jfields_view(fv);
                assert(jfields_view(pv) =~= sj_server_msg(m@)->Obj_0[0].1->Obj_0);
                assert(jfields_view(fv) =~= sj_server_msg(m@)->Obj_0);
            }
            r
        },
        ServerMessage::Pong { client_timestamp, server_timestamp } => {
            let mut p: Vec<(String, Json)> = Vec::new();
            p.push((String::from_str("client_timestamp"), Json::Int(*client_timestamp)));
            p.push((String::from_str("server_timestamp"), Json::Int(*server_timestamp)));
            let ghost pv = p@;
            let mut fields: Vec<(String, Json)> = Vec::new();
            fields.push((String::from_str("Pong"), Json::Obj(p)));
            let ghost fv = fields@;
            let r = Json::Obj(fields);
            proof {
                lemma_jfields_view(pv);
                lemma_jfields_view(fv);
                assert(jfields_view(pv) =~= sj_server_msg(m@)->Obj_0[0].1->Obj_0);
                assert(jfields_view(fv) =~= sj_server_msg(m@)->Obj_0);
            }
            r
        },
    }
}

/// Read a server envelope out of a JSON value.
pub fn ed_server_msg(j: &Json) -> (r: Option<ServerMessage>)
    ensures
        match sd_server_msg(j@) {
            None => r is None,
            Some(mv) => r matches Some(m) && m@ == mv,
        },
{
    match j {
        Json::Obj(fs) => {
            proof {
                lemma_jfields_view(fs@);
            }
            if fs.len() != 1 {
                return None;
            }
            let tag = fs[0].0.as_str();
            let payload = &fs[0].1;
            if str_eq(tag, "Connected") {
                match payload {
                    Json::Obj(p) => {
                        let sv: Option<String> = match obj_get(p, "server_version") {
                            Some(v) => ed_string(v),
                            None => None,
                        };
                        let sid: Option<String> = match obj_get(p, "session_id") {
                            Some(v) => ed_string(v),
                            None => None,
                        };
                        match (sv, sid) {
                            (Some(server_version), Some(session_id)) => Some(
                                ServerMessage::Connected { server_version, session_id },
                            ),
                            _ => None,
                        }
                    },
                    _ => None,
                }
            } else if str_eq(tag, "Frame") {
                match ed_frame(payload) {
                    Some(f) => Some(ServerMessage::Frame(f)),
                    None => None,
                }
            } else if str_eq(tag, "Error") {
                match payload {
                    Json::Obj(p) => {
                        let code: Option<Option<u16>> = match obj_get(p, "code") {
                            None => Some(None),
                            Some(v) => match v {
                                Json::Null => Some(None),
                                _ => match ed_u16(v) {
                                    Some(c) => Some(Some(c)),
                                    None => None,
                                },
                            },
                        };
                        let message: Option<String> = match obj_get(p, "message") {
                            Some(v) => ed_string(v),
                            None => None,
                        };
                        match (code, message) {
                            (Some(code), Some(message)) => Some(
                                ServerMessage::Error {
                                    code: match code {
                                        Some(c) => c,
                                        None => 0,
                                    },
                                    message,
                                },
                            ),
                            _ => None,
                        }
                    },
                    _ => None,
                }
            } else if str_eq(tag, "Pong") {
                match payload {
                    Json::Obj(p) => {
                        let ct: Option<u64> = match obj_get(p, "client_timestamp") {
                            Some(v) => ed_u64(v),
                            None => None,
                        };
                        let st: Option<u64> = match obj_get(p, "server_timestamp") {
                            Some(v) => ed_u64(v),
                            None => None,
                        };
                        match (ct, st) {
                            (Some(client_timestamp), Some(server_timestamp)) => Some(
                                ServerMessage::Pong { client_timestamp, server_timestamp },
                            ),
                            _ => None,
                        }
                    },
                    _ => None,
                }
            } else {
                None
            }
        },
        _ => None,
    }
}

// ---------------------------------------------------------------------------
// Whole texts.
// ---------------------------------------------------------------------------

/// What one inbound payload means: a tagged envelope where one is found,
/// otherwise a bare frame — older producers send frames with no wrapper.
pub open spec fn spec_decode_payload(j: JsonV) -> Option<ServerMessageV> {
    match sd_server_msg(j) {
        Some(m) => Some(m),
        None => match sd_frame(j) {
            Some(f) => Some(ServerMessageV::Frame(f)),
            None => None,
        },
    }
}

/// What one inbound text means as a server message.
pub open spec fn spec_decode_server_text(t: Seq<char>) -> Option<ServerMessageV> {
    match sp_json(t) {
        None => None,
        Some(j) => spec_decode_payload(j),
    }
}

/// What one inbound text means as a client message.
pub open spec fn spec_decode_client_text(t: Seq<char>) -> Option<ClientMessageV> {
    match sp_json(t) {
        None => None,
        Some(j) => sd_client_msg(j),
    }
}

/// Encode a server envelope as its canonical wire text.
pub fn encode_server_message(m: &ServerMessage) -> (r: String)
    ensures
        r@ == spec_json_text(sj_server_msg(m@)),
{
    let j = ej_server_msg(m);
    json_to_string(&j)
}

/// Encode a client envelope as its canonical wire text.
pub fn encode_client_message(m: &ClientMessage) -> (r: String)
    ensures
        r@ == spec_json_text(sj_client_msg(m@)),
{
    let j = ej_client_msg(m);
    json_to_string(&j)
}

/// Decode one inbound text from the producer link: first as a tagged
/// envelope, then as a bare frame; `None` when neither shape fits, and the
/// caller drops the single message.
pub fn decode_server_message(s: &str) -> (r: Option<ServerMessage>)
    ensures
        match spec_decode_server_text(s@) {
            None => r is None,
            Some(mv) => r matches Some(m) && m@ == mv,
        },
{
    match json_from_str(s) {
        None => None,
        Some(j) => match ed_server_msg(&j) {
            Some(m) => Some(m),
            None => match ed_frame(&j) {
                Some(f) => Some(ServerMessage::Frame(f)),
                None => None,
            },
        },
    }
}

/// Decode one inbound client text; `None` when malformed, and the caller
/// drops the single message.
pub fn decode_client_message(s: &str) -> (r: Option<ClientMessage>)
    ensures
        match spec_decode_client_text(s@) {
            None => r is None,
            Some(mv) => r matches Some(m) && m@ == mv,
        },
{
    match json_from_str(s) {
        None => None,
        Some(j) => ed_client_msg(&j),
    }
}

// ---------------------------------------------------------------------------
// Round trips: every value the broker writes reads back unchanged.
// ---------------------------------------------------------------------------

/// A fractional quantity reads back unchanged.
pub proof fn lemma_milli_rt(m: Milli)
    ensures
        sd_milli(sj_milli(m)) == Some(m),
{
}

/// A spatial vector reads back unchanged.
pub proof fn lemma_vec3_rt(v: Vector3)
    ensures
        sd_vec3(sj_vec3(v)) == Some(v),
{
    reveal_strlit("x");
    reveal_strlit("y");
    reveal_strlit("z");
    crate::json::lemma_seq_ne("x"@, "y"@, 0);
    crate::json::lemma_seq_ne("x"@, "z"@, 0);
    crate::json::lemma_seq_ne("y"@, "z"@, 0);
    let fs = sj_vec3(v)->Obj_0;
    assert(jv_get(fs, "x"@) == Some(sj_milli(v.x))) by {
        reveal_with_fuel(jv_get, 5);
    }
    assert(jv_get(fs, "y"@) == Some(sj_milli(v.y))) by {
        reveal_with_fuel(jv_get, 5);
    }
    assert(jv_get(fs, "z"@) == Some(sj_milli(v.z))) by {
        reveal_with_fuel(jv_get, 5);
    }
    lemma_milli_rt(v.x);
    lemma_milli_rt(v.y);
    lemma_milli_rt(v.z);
}

/// A bounding box reads back unchanged.
pub proof fn lemma_bbox_rt(b: BoundingBox)
    ensures
        sd_bbox(sj_bbox(b)) == Some(b),
{
    reveal_strlit("x");
    reveal_strlit("y");
    reveal_strlit("width");
    reveal_strlit("height");
    crate::json::lemma_seq_ne("x"@, "y"@, 0);
    assert(("x"@).len() == 1 && ("y"@).len() == 1 && ("width"@).len() == 5 && ("height"@).len()
        == 6);
    let fs = sj_bbox(b)->Obj_0;
    assert(jv_get(fs, "x"@) == Some(sj_milli(b.x))) by {
        reveal_with_fuel(jv_get, 6);
    }
    assert(jv_get(fs, "y"@) == Some(sj_milli(b.y))) by {
        reveal_with_fuel(jv_get, 6);
    }
    assert(jv_get(fs, "width"@) == Some(sj_milli(b.width))) by {
        reveal_with_fuel(jv_get, 6);
    }
    assert(jv_get(fs, "height"@) == Some(sj_milli(b.height))) by {
        reveal_with_fuel(jv_get, 6);
    }
    lemma_milli_rt(b.x);
    lemma_milli_rt(b.y);
    lemma_milli_rt(b.width);
    lemma_milli_rt(b.height);
}

/// Every named kind reads back unchanged.
pub proof fn lemma_gesture_rt(g: GestureType)
    ensures
        sd_gesture(sj_gesture(g)) == Some(g),
{
    reveal_strlit("OpenPalm");
    reveal_strlit("ClosedFist");
    reveal_strlit("Pointing");
    reveal_strlit("ThumbsUp");
    reveal_strlit("ThumbsDown");
    reveal_strlit("Peace");
    reveal_strlit("Pinch");
    assert(("OpenPalm"@).len() == 8 && ("ClosedFist"@).len() == 10 && ("Pointing"@).len() == 8
        && ("ThumbsUp"@).len() == 8 && ("ThumbsDown"@).len() == 10 && ("Peace"@).len() == 5 && (
    "Pinch"@).len() == 5);
    crate::json::lemma_seq_ne("OpenPalm"@, "Pointing"@, 0);
    crate::json::lemma_seq_ne("OpenPalm"@, "ThumbsUp"@, 0);
    crate::json::lemma_seq_ne("Pointing"@, "ThumbsUp"@, 0);
    crate::json::lemma_seq_ne("ClosedFist"@, "ThumbsDown"@, 0);
    crate::json::lemma_seq_ne("Peace"@, "Pinch"@, 1);
}

pub proof fn lemma_source_rt(s: TrackingSource)
    ensures
        sd_source(sj_source(s)) == Some(s),
{
    reveal_strlit("JetsonMediaPipe");
    reveal_strlit("Quest3Native");
    reveal_strlit("Fused");
    assert(("JetsonMediaPipe"@).len() == 15 && ("Quest3Native"@).len() == 12 && (
    "Fused"@).len() == 5);
}

pub proof fn lemma_srctype_rt(s: AudioSourceType)
    ensures
        sd_srctype(sj_srctype(s)) == Some(s),
{
    reveal_strlit("Speech");
    reveal_strlit("Music");
    reveal_strlit("Alert");
    reveal_strlit("Environmental");
    assert(("Speech"@).len() == 6 && ("Music"@).len() == 5 && ("Alert"@).len() == 5 && (
    "Environmental"@).len() == 13);
    crate::json::lemma_seq_ne("Music"@, "Alert"@, 0);
}

pub proof fn lemma_streamtype_rt(s: StreamType)
    ensures
        sd_streamtype(sj_streamtype(s)) == Some(s),
{
    reveal_strlit("ObjectDetection");
    reveal_strlit("HandTracking");
    reveal_strlit("SpatialAudio");
    reveal_strlit("SmartHome");
    assert(("ObjectDetection"@).len() == 15 && ("HandTracking"@).len() == 12 && (
    "SpatialAudio"@).len() == 12 && ("SmartHome"@).len() == 9);
    crate::json::lemma_seq_ne("HandTracking"@, "SpatialAudio"@, 0);
}

pub proof fn lemma_quality_rt(q: QualityPreset)
    ensures
        sd_quality(sj_quality(q)) == Some(q),
{
    reveal_strlit("Low");
    reveal_strlit("Medium");
    reveal_strlit("High");
    reveal_strlit("Adaptive");
    assert(("Low"@).len() == 3 && ("Medium"@).len() == 6 && ("High"@).len() == 4 && (
    "Adaptive"@).len() == 8);
}

/// A detected object reads back unchanged.
pub proof fn lemma_object_rt(o: DetectedObjectV)
    ensures
        sd_object(sj_object(o)) == Some(o),
{
    reveal_with_fuel(jv_get, 7);
    reveal_strlit("class");
    reveal_strlit("confidence");
    reveal_strlit("bbox");
    reveal_strlit("position_3d");
    reveal_strlit("tracking_id");
    assert(("class"@).len() == 5 && ("confidence"@).len() == 10 && ("bbox"@).len() == 4 && (
    "position_3d"@).len() == 11 && ("tracking_id"@).len() == 11);
    crate::json::lemma_seq_ne("position_3d"@, "tracking_id"@, 0);
    lemma_milli_rt(o.confidence);
    lemma_bbox_rt(o.bbox);
    if o.position_3d is Some {
        lemma_vec3_rt(o.position_3d->Some_0);
    }
}

/// A list of detected objects reads back unchanged.
pub proof fn lemma_objects_rt(os: Seq<DetectedObjectV>)
    ensures
        sd_objects(os.map_values(|o: DetectedObjectV| sj_object(o))) == Some(os),
    decreases os.len(),
{
    let m = os.map_values(|o: DetectedObjectV| sj_object(o));
    if os.len() == 0 {
        assert(os =~= Seq::<DetectedObjectV>::empty());
    } else {
        lemma_object_rt(os[0]);
        assert(m[0] == sj_object(os[0]));
        assert(m.drop_first() =~= os.drop_first().map_values(
            |o: DetectedObjectV| sj_object(o),
        ));
        lemma_objects_rt(os.drop_first());
        assert(seq![os[0]] + os.drop_first() =~= os);
    }
}

pub proof fn lemma_vec3s_rt(ps: Seq<Vector3>)
    ensures
        sd_vec3s(ps.map_values(|p: Vector3| sj_vec3(p))) == Some(ps),
    decreases ps.len(),
{
    let m = ps.map_values(|p: Vector3| sj_vec3(p));
    if ps.len() == 0 {
        assert(ps =~= Seq::<Vector3>::empty());
    } else {
        lemma_vec3_rt(ps[0]);
        assert(m[0] == sj_vec3(ps[0]));
        assert(m.drop_first() =~= ps.drop_first().map_values(|p: Vector3| sj_vec3(p)));
        lemma_vec3s_rt(ps.drop_first());
        assert(seq![ps[0]] + ps.drop_first() =~= ps);
    }
}

pub proof fn lemma_millis_rt(ms: Seq<Milli>)
    ensures
        sd_millis(ms.map_values(|m: Milli| sj_milli(m))) == Some(ms),
    decreases ms.len(),
{
    let mm = ms.map_values(|m: Milli| sj_milli(m));
    if ms.len() == 0 {
        assert(ms =~= Seq::<Milli>::empty());
    } else {
        lemma_milli_rt(ms[0]);
        assert(mm[0] == sj_milli(ms[0]));
        assert(mm.drop_first() =~= ms.drop_first().map_values(|m: Milli| sj_milli(m)));
        lemma_millis_rt(ms.drop_first());
        assert(seq![ms[0]] + ms.drop_first() =~= ms);
    }
}

/// A well-formed hand pose reads back unchanged.
pub proof fn lemma_pose_rt(p: HandPoseV)
    requires
        p.wf(),
    ensures
        sd_pose(sj_pose(p)) == Some(p),
{
    reveal_with_fuel(jv_get, 5);
    reveal_strlit("landmarks");
    reveal_strlit("confidences");
    reveal_strlit("gesture");
    assert(("landmarks"@).len() == 9 && ("confidences"@).len() == 11 && ("gesture"@).len()
        == 7);
    lemma_vec3s_rt(p.landmarks);
    lemma_millis_rt(p.confidences);
    if p.gesture is Some {
        lemma_gesture_rt(p.gesture->Some_0);
    }
}

/// A well-formed hand-tracking payload reads back unchanged.
pub proof fn lemma_hands_rt(h: HandTrackingDataV)
    requires
        h.wf(),
    ensures
        sd_hands(sj_hands(h)) == Some(h),
{
    reveal_with_fuel(jv_get, 6);
    reveal_strlit("left_hand");
    reveal_strlit("right_hand");
    reveal_strlit("confidence");
    reveal_strlit("source");
    assert(("left_hand"@).len() == 9 && ("right_hand"@).len() == 10 && ("confidence"@).len()
        == 10 && ("source"@).len() == 6);
    crate::json::lemma_seq_ne("right_hand"@, "confidence"@, 0);
    if h.left_hand is Some {
        lemma_pose_rt(h.left_hand->Some_0);
    }
    if h.right_hand is Some {
        lemma_pose_rt(h.right_hand->Some_0);
    }
    lemma_milli_rt(h.confidence);
    lemma_source_rt(h.source);
}

/// A spatial audio source reads back unchanged.
pub proof fn lemma_audio_src_rt(s: AudioSourceV)
    ensures
        sd_audio_src(sj_audio_src(s)) == Some(s),
{
    reveal_with_fuel(jv_get, 6);
    reveal_strlit("id");
    reveal_strlit("position");
    reveal_strlit("source_type");
    reveal_strlit("volume");
    assert(("id"@).len() == 2 && ("position"@).len() == 8 && ("source_type"@).len() == 11 && (
    "volume"@).len() == 6);
    lemma_vec3_rt(s.position);
    lemma_srctype_rt(s.source_type);
    lemma_milli_rt(s.volume);
}

pub proof fn lemma_audio_srcs_rt(ss: Seq<AudioSourceV>)
    ensures
        sd_audio_srcs(ss.map_values(|s: AudioSourceV| sj_audio_src(s))) == Some(ss),
    decreases ss.len(),
{
    let m = ss.map_values(|s: AudioSourceV| sj_audio_src(s));
    if ss.len() == 0 {
        assert(ss =~= Seq::<AudioSourceV>::empty());
    } else {
        lemma_audio_src_rt(ss[0]);
        assert(m[0] == sj_audio_src(ss[0]));
        assert(m.drop_first() =~= ss.drop_first().map_values(
            |s: AudioSourceV| sj_audio_src(s),
        ));
        lemma_audio_srcs_rt(ss.drop_first());
        assert(seq![ss[0]] + ss.drop_first() =~= ss);
    }
}

/// A whole audio context reads back unchanged.
pub proof fn lemma_audio_ctx_rt(a: AudioContextV)
    ensures
        sd_audio_ctx(sj_audio_ctx(a)) == Some(a),
{
    reveal_with_fuel(jv_get, 5);
    reveal_strlit("sources");
    reveal_strlit("listener_position");
    reveal_strlit("level_db");
    assert(("sources"@).len() == 7 && ("listener_position"@).len() == 17 && (
    "level_db"@).len() == 8);
    lemma_audio_srcs_rt(a.sources);
    lemma_vec3_rt(a.listener_position);
    lemma_milli_rt(a.level_db);
}

/// Free-form attributes read back unchanged.
pub proof fn lemma_attrs_rt(ats: Seq<(Seq<char>, Seq<char>)>)
    ensures
        sd_attrs(
            ats.map_values(|p: (Seq<char>, Seq<char>)| (p.0, JsonV::Str(p.1))),
        ) == Some(ats),
    decreases ats.len(),
{
    let m = ats.map_values(|p: (Seq<char>, Seq<char>)| (p.0, JsonV::Str(p.1)));
    if ats.len() == 0 {
        assert(ats =~= Seq::<(Seq<char>, Seq<char>)>::empty());
    } else {
        assert(m[0] == (ats[0].0, JsonV::Str(ats[0].1)));
        assert(m.drop_first() =~= ats.drop_first().map_values(
            |p: (Seq<char>, Seq<char>)| (p.0, JsonV::Str(p.1)),
        ));
        lemma_attrs_rt(ats.drop_first());
        assert(seq![ats[0]] + ats.drop_first() =~= ats);
    }
}

/// A smart-device state reads back unchanged.
pub proof fn lemma_device_rt(d: DeviceStateV)
    ensures
        sd_device(sj_device(d)) == Some(d),
{
    reveal_with_fuel(jv_get, 7);
    reveal_strlit("id");
    reveal_strlit("device_type");
    reveal_strlit("state");
    reveal_strlit("position");
    reveal_strlit("attributes");
    assert(("id"@).len() == 2 && ("device_type"@).len() == 11 && ("state"@).len() == 5 && (
    "position"@).len() == 8 && ("attributes"@).len() == 10);
    lemma_vec3_rt(d.position);
    lemma_attrs_rt(d.attributes);
}

pub proof fn lemma_devices_rt(ds: Seq<DeviceStateV>)
    ensures
        sd_devices(ds.map_values(|d: DeviceStateV| sj_device(d))) == Some(ds),
    decreases ds.len(),
{
    let m = ds.map_values(|d: DeviceStateV| sj_device(d));
    if ds.len() == 0 {
        assert(ds =~= Seq::<DeviceStateV>::empty());
    } else {
        lemma_device_rt(ds[0]);
        assert(m[0] == sj_device(ds[0]));
        assert(m.drop_first() =~= ds.drop_first().map_values(|d: DeviceStateV| sj_device(d)));
        lemma_devices_rt(ds.drop_first());
        assert(seq![ds[0]] + ds.drop_first() =~= ds);
    }
}

/// A whole well-formed frame reads back unchanged.
#[verifier::rlimit(100)]
pub proof fn lemma_frame_rt(f: ARFrameV)
    requires
        f.wf(),
    ensures
        sd_frame(sj_frame(f)) == Some(f),
{
    reveal_with_fuel(jv_get, 9);
    reveal_strlit("timestamp");
    reveal_strlit("frame_id");
    reveal_strlit("protocol_version");
    reveal_strlit("objects");
    reveal_strlit("hands");
    reveal_strlit("audio_context");
    reveal_strlit("device_states");
    assert(("timestamp"@).len() == 9 && ("frame_id"@).len() == 8 && (
    "protocol_version"@).len() == 16 && ("objects"@).len() == 7 && ("hands"@).len() == 5 && (
    "audio_context"@).len() == 13 && ("device_states"@).len() == 13);
    crate::json::lemma_seq_ne("audio_context"@, "device_states"@, 0);
    lemma_objects_rt(f.objects);
    if f.hands is Some {
        lemma_hands_rt(f.hands->Some_0);
    }
    if f.audio_context is Some {
        lemma_audio_ctx_rt(f.audio_context->Some_0);
    }
    if f.device_states is Some {
        lemma_devices_rt(f.device_states->Some_0);
    }
}

/// A capability set reads back unchanged.
pub proof fn lemma_caps_rt(c: ClientCapabilitiesV)
    ensures
        sd_caps(sj_caps(c)) == Some(c),
{
    reveal_with_fuel(jv_get, 6);
    reveal_strlit("device_name");
    reveal_strlit("supports_hand_tracking");
    reveal_strlit("supports_spatial_audio");
    reveal_strlit("max_fps");
    assert(("device_name"@).len() == 11 && ("supports_hand_tracking"@).len() == 22 && (
    "supports_spatial_audio"@).len() == 22 && ("max_fps"@).len() == 7);
    crate::json::lemma_seq_ne("supports_hand_tracking"@, "supports_spatial_audio"@, 9);
}

/// An interaction event kind reads back unchanged.
pub proof fn lemma_interaction_rt(t: InteractionTypeV)
    ensures
        sd_interaction(sj_interaction(t)) == Some(t),
{
    reveal_with_fuel(jv_get, 3);
    reveal_strlit("Tap");
    reveal_strlit("Pinch");
    reveal_strlit("Grab");
    reveal_strlit("VoiceCommand");
    reveal_strlit("command");
    assert(("Tap"@).len() == 3 && ("Pinch"@).len() == 5 && ("Grab"@).len() == 4 && (
    "VoiceCommand"@).len() == 12 && ("command"@).len() == 7);
}

pub proof fn lemma_streams_rt(ss: Seq<StreamType>)
    ensures
        sd_streams(ss.map_values(|s: StreamType| sj_streamtype(s))) == Some(ss),
    decreases ss.len(),
{
    let m = ss.map_values(|s: StreamType| sj_streamtype(s));
    if ss.len() == 0 {
        assert(ss =~= Seq::<StreamType>::empty());
    } else {
        lemma_streamtype_rt(ss[0]);
        assert(m[0] == sj_streamtype(ss[0]));
        assert(m.drop_first() =~= ss.drop_first().map_values(
            |s: StreamType| sj_streamtype(s),
        ));
        lemma_streams_rt(ss.drop_first());
        assert(seq![ss[0]] + ss.drop_first() =~= ss);
    }
}

/// Every well-formed client envelope reads back unchanged.
pub proof fn lemma_client_msg_rt(m: ClientMessageV)
    requires
        m.wf(),
    ensures
        sd_client_msg(sj_client_msg(m)) == Some(m),
{
    reveal_with_fuel(jv_get, 5);
    reveal_strlit("Connect");
    reveal_strlit("Subscribe");
    reveal_strlit("ConfigureStream");
    reveal_strlit("HandTrackingUpdate");
    reveal_strlit("InteractionEvent");
    reveal_strlit("Ping");
    assert(("Connect"@).len() == 7 && ("Subscribe"@).len() == 9 && (
    "ConfigureStream"@).len() == 15 && ("HandTrackingUpdate"@).len() == 18 && (
    "InteractionEvent"@).len() == 16 && ("Ping"@).len() == 4);
    match m {
        ClientMessageV::Connect { client_id, protocol_version, capabilities } => {
            reveal_strlit("client_id");
            reveal_strlit("protocol_version");
            reveal_strlit("capabilities");
            assert(("client_id"@).len() == 9 && ("protocol_version"@).len() == 16 && (
            "capabilities"@).len() == 12);
            lemma_caps_rt(capabilities);
        },
        ClientMessageV::Subscribe { streams } => {
            reveal_strlit("streams");
            lemma_streams_rt(streams);
        },
        ClientMessageV::ConfigureStream { target_fps, quality } => {
            reveal_strlit("target_fps");
            reveal_strlit("quality");
            assert(("target_fps"@).len() == 10 && ("quality"@).len() == 7);
            lemma_quality_rt(quality);
        },
        ClientMessageV::HandTrackingUpdate { hands } => {
            reveal_strlit("hands");
            lemma_hands_rt(hands);
        },
        ClientMessageV::InteractionEvent { event_type, target } => {
            reveal_strlit("event_type");
            reveal_strlit("target");
            assert(("event_type"@).len() == 10 && ("target"@).len() == 6);
            lemma_interaction_rt(event_type);
        },
        ClientMessageV::Ping { timestamp } => {
            reveal_strlit("timestamp");
        },
    }
}

/// Every well-formed server envelope reads back unchanged.
pub proof fn lemma_server_msg_rt(m: ServerMessageV)
    requires
        m.wf(),
    ensures
        sd_server_msg(sj_server_msg(m)) == Some(m),
{
    reveal_with_fuel(jv_get, 4);
    reveal_strlit("Connected");
    reveal_strlit("Frame");
    reveal_strlit("Error");
    reveal_strlit("Pong");
    assert(("Connected"@).len() == 9 && ("Frame"@).len() == 5 && ("Error"@).len() == 5 && (
    "Pong"@).len() == 4);
    crate::json::lemma_seq_ne("Frame"@, "Error"@, 0);
    match m {
        ServerMessageV::Connected { server_version, session_id } => {
            reveal_strlit("server_version");
            reveal_strlit("session_id");
            assert(("server_version"@).len() == 14 && ("session_id"@).len() == 10);
        },
        ServerMessageV::Frame(f) => {
            lemma_frame_rt(f);
        },
        ServerMessageV::Error { code, message } => {
            reveal_strlit("code");
            reveal_strlit("message");
            assert(("code"@).len() == 4 && ("message"@).len() == 7);
        },
        ServerMessageV::Pong { client_timestamp, server_timestamp } => {
            reveal_strlit("client_timestamp");
            reveal_strlit("server_timestamp");
            assert(("client_timestamp"@).len() == 16 && ("server_timestamp"@).len() == 16);
            crate::json::lemma_seq_ne("client_timestamp"@, "server_timestamp"@, 0);
        },
    }
}

/// Wrapper-format transparency: any payload that reads as a frame yields the
/// same frame whether it arrives bare or wrapped in a `Frame`-tagged
/// envelope.
pub proof fn lemma_frame_envelope_transparency(j: JsonV, f: ARFrameV)
    requires
        sd_frame(j) == Some(f),
    ensures
        spec_decode_payload(JsonV::Obj(seq![("Frame"@, j)])) == Some(ServerMessageV::Frame(f)),
        spec_decode_payload(j) == Some(ServerMessageV::Frame(f)),
{
    reveal_with_fuel(jv_get, 4);
    reveal_strlit("Connected");
    reveal_strlit("Frame");
    reveal_strlit("timestamp");
    reveal_strlit("frame_id");
    assert(("Connected"@).len() == 9 && ("Frame"@).len() == 5 && ("timestamp"@).len() == 9 && (
    "frame_id"@).len() == 8);
    let wrapped = JsonV::Obj(seq![("Frame"@, j)]);
    assert(sd_server_msg(wrapped) == Some(ServerMessageV::Frame(f)));
    let fs = j->Obj_0;
    if fs.len() == 1 {
        assert(jv_get(fs, "timestamp"@) is Some);
        assert(jv_get(fs, "frame_id"@) is Some);
        assert(fs[0].0 == "timestamp"@ && fs[0].0 == "frame_id"@);
        assert(false);
    }
    assert(sd_server_msg(j) is None);
}

// Fractional fields within what the number grammar reads back. The grammar
// refuses decimals beyond `dec_max()` thousandths — the top thousandth of
// the machine range — so a round trip over the wire is owed only within it.

pub open spec fn milli_ok(m: Milli) -> bool {
    -crate::json::dec_max() <= m.thousandths <= crate::json::dec_max()
}

pub open spec fn vec3_ok(v: Vector3) -> bool {
    milli_ok(v.x) && milli_ok(v.y) && milli_ok(v.z)
}

pub open spec fn bbox_ok(b: BoundingBox) -> bool {
    milli_ok(b.x) && milli_ok(b.y) && milli_ok(b.width) && milli_ok(b.height)
}

pub open spec fn object_ok(o: DetectedObjectV) -> bool {
    &&& milli_ok(o.confidence)
    &&& bbox_ok(o.bbox)
    &&& (o.position_3d matches Some(p) ==> vec3_ok(p))
}

pub open spec fn pose_ok(p: HandPoseV) -> bool {
    &&& forall|i: int| 0 <= i < p.landmarks.len() ==> vec3_ok(#[trigger] p.landmarks[i])
    &&& forall|i: int| 0 <= i < p.confidences.len() ==> milli_ok(#[trigger] p.confidences[i])
}

pub open spec fn hands_ok(h: HandTrackingDataV) -> bool {
    &&& (h.left_hand matches Some(p) ==> pose_ok(p))
    &&& (h.right_hand matches Some(p) ==> pose_ok(p))
    &&& milli_ok(h.confidence)
}

pub open spec fn audio_src_ok(s: AudioSourceV) -> bool {
    vec3_ok(s.position) && milli_ok(s.volume)
}

pub open spec fn audio_ctx_ok(a: AudioContextV) -> bool {
    &&& forall|i: int| 0 <= i < a.sources.len() ==> audio_src_ok(#[trigger] a.sources[i])
    &&& vec3_ok(a.listener_position)
    &&& milli_ok(a.level_db)
}

pub open spec fn device_ok(d: DeviceStateV) -> bool {
    vec3_ok(d.position)
}

pub open spec fn frame_ok(f: ARFrameV) -> bool {
    &&& forall|i: int| 0 <= i < f.objects.len() ==> object_ok(#[trigger] f.objects[i])
    &&& (f.hands matches Some(h) ==> hands_ok(h))
    &&& (f.audio_context matches Some(a) ==> audio_ctx_ok(a))
    &&& (f.device_states matches Some(ds) ==> forall|i: int|
        0 <= i < ds.len() ==> device_ok(#[trigger] ds[i]))
}

pub open spec fn server_msg_ok(m: ServerMessageV) -> bool {
    match m {
        ServerMessageV::Frame(f) => frame_ok(f),
        _ => true,
    }
}

pub open spec fn client_msg_ok(m: ClientMessageV) -> bool {
    match m {
        ClientMessageV::HandTrackingUpdate { hands } => hands_ok(hands),
        _ => true,
    }
}

proof fn lemma_sj_vec3_bounded(v: Vector3)
    requires
        vec3_ok(v),
    ensures
        jv_bounded(sj_vec3(v)),
{
    let fs = sj_vec3(v)->Obj_0;
    assert(forall|k: int| 0 <= k < fs.len() ==> jv_bounded(#[trigger] fs[k].1));
}

proof fn lemma_sj_bbox_bounded(b: BoundingBox)
    requires
        bbox_ok(b),
    ensures
        jv_bounded(sj_bbox(b)),
{
    let fs = sj_bbox(b)->Obj_0;
    assert(forall|k: int| 0 <= k < fs.len() ==> jv_bounded(#[trigger] fs[k].1));
}

proof fn lemma_sj_object_bounded(o: DetectedObjectV)
    requires
        object_ok(o),
    ensures
        jv_bounded(sj_object(o)),
{
    lemma_sj_bbox_bounded(o.bbox);
    if o.position_3d is Some {
        lemma_sj_vec3_bounded(o.position_3d->Some_0);
    }
    let fs = sj_object(o)->Obj_0;
    assert(forall|k: int| 0 <= k < fs.len() ==> jv_bounded(#[trigger] fs[k].1));
}

proof fn lemma_sj_pose_bounded(p: HandPoseV)
    requires
        pose_ok(p),
    ensures
        jv_bounded(sj_pose(p)),
{
    let lm = p.landmarks.map_values(|q: Vector3| sj_vec3(q));
    assert forall|i: int| 0 <= i < lm.len() implies jv_bounded(#[trigger] lm[i]) by {
        lemma_sj_vec3_bounded(p.landmarks[i]);
    }
    let cf = p.confidences.map_values(|m: Milli| sj_milli(m));
    assert forall|i: int| 0 <= i < cf.len() implies jv_bounded(#[trigger] cf[i]) by {
        assert(milli_ok(p.confidences[i]));
    }
    let fs = sj_pose(p)->Obj_0;
    assert(forall|k: int| 0 <= k < fs.len() ==> jv_bounded(#[trigger] fs[k].1));
}

proof fn lemma_sj_hands_bounded(h: HandTrackingDataV)
    requires
        hands_ok(h),
    ensures
        jv_bounded(sj_hands(h)),
{
    if h.left_hand is Some {
        lemma_sj_pose_bounded(h.left_hand->Some_0);
    }
    if h.right_hand is Some {
        lemma_sj_pose_bounded(h.right_hand->Some_0);
    }
    let fs = sj_hands(h)->Obj_0;
    assert(forall|k: int| 0 <= k < fs.len() ==> jv_bounded(#[trigger] fs[k].1));
}

proof fn lemma_sj_audio_ctx_bounded(a: AudioContextV)
    requires
        audio_ctx_ok(a),
    ensures
        jv_bounded(sj_audio_ctx(a)),
{
    let ss = a.sources.map_values(|s: AudioSourceV| sj_audio_src(s));
    assert forall|i: int| 0 <= i < ss.len() implies jv_bounded(#[trigger] ss[i]) by {
        lemma_sj_vec3_bounded(a.sources[i].position);
        let fs = sj_audio_src(a.sources[i])->Obj_0;
        assert(forall|k: int| 0 <= k < fs.len() ==> jv_bounded(#[trigger] fs[k].1));
    }
    lemma_sj_vec3_bounded(a.listener_position);
    let fs = sj_audio_ctx(a)->Obj_0;
    assert(forall|k: int| 0 <= k < fs.len() ==> jv_bounded(#[trigger] fs[k].1));
}

proof fn lemma_sj_device_bounded(d: DeviceStateV)
    requires
        device_ok(d),
    ensures
        jv_bounded(sj_device(d)),
{
    lemma_sj_vec3_bounded(d.position);
    let ats = d.attributes.map_values(|p: (Seq<char>, Seq<char>)| (p.0, JsonV::Str(p.1)));
    assert(forall|i: int| 0 <= i < ats.len() ==> jv_bounded(#[trigger] ats[i].1));
    let fs = sj_device(d)->Obj_0;
    assert(forall|k: int| 0 <= k < fs.len() ==> jv_bounded(#[trigger] fs[k].1));
}

proof fn lemma_sj_frame_bounded(f: ARFrameV)
    requires
        frame_ok(f),
    ensures
        jv_bounded(sj_frame(f)),
{
    let os = f.objects.map_values(|o: DetectedObjectV| sj_object(o));
    assert forall|i: int| 0 <= i < os.len() implies jv_bounded(#[trigger] os[i]) by {
        lemma_sj_object_bounded(f.objects[i]);
    }
    if f.hands is Some {
        lemma_sj_hands_bounded(f.hands->Some_0);
    }
    if f.audio_context is Some {
        lemma_sj_audio_ctx_bounded(f.audio_context->Some_0);
    }
    if f.device_states is Some {
        let ds = f.device_states->Some_0;
        let dj = ds.map_values(|d: DeviceStateV| sj_device(d));
        assert forall|i: int| 0 <= i < dj.len() implies jv_bounded(#[trigger] dj[i]) by {
            lemma_sj_device_bounded(ds[i]);
        }
    }
    let fs = sj_frame(f)->Obj_0;
    assert(forall|k: int| 0 <= k < fs.len() ==> jv_bounded(#[trigger] fs[k].1));
}

proof fn lemma_sj_caps_bounded(c: ClientCapabilitiesV)
    ensures
        jv_bounded(sj_caps(c)),
{
    let fs = sj_caps(c)->Obj_0;
    assert(forall|k: int| 0 <= k < fs.len() ==> jv_bounded(#[trigger] fs[k].1));
}

proof fn lemma_sj_server_msg_bounded(m: ServerMessageV)
    requires
        server_msg_ok(m),
    ensures
        jv_bounded(sj_server_msg(m)),
{
    match m {
        ServerMessageV::Frame(f) => {
            lemma_sj_frame_bounded(f);
        },
        ServerMessageV::Connected { server_version, session_id } => {
            let p = sj_server_msg(m)->Obj_0[0].1->Obj_0;
            assert(forall|k: int| 0 <= k < p.len() ==> jv_bounded(#[trigger] p[k].1));
        },
        ServerMessageV::Error { code, message } => {
            let p = sj_server_msg(m)->Obj_0[0].1->Obj_0;
            assert(forall|k: int| 0 <= k < p.len() ==> jv_bounded(#[trigger] p[k].1));
        },
        ServerMessageV::Pong { client_timestamp, server_timestamp } => {
            let p = sj_server_msg(m)->Obj_0[0].1->Obj_0;
            assert(forall|k: int| 0 <= k < p.len() ==> jv_bounded(#[trigger] p[k].1));
        },
    }
    let fs = sj_server_msg(m)->Obj_0;
    assert(forall|k: int| 0 <= k < fs.len() ==> jv_bounded(#[trigger] fs[k].1));
}

proof fn lemma_sj_client_msg_bounded(m: ClientMessageV)
    requires
        client_msg_ok(m),
    ensures
        jv_bounded(sj_client_msg(m)),
{
    match m {
        ClientMessageV::Connect { client_id, protocol_version, capabilities } => {
            lemma_sj_caps_bounded(capabilities);
            let p = sj_client_msg(m)->Obj_0[0].1->Obj_0;
            assert(forall|k: int| 0 <= k < p.len() ==> jv_bounded(#[trigger] p[k].1));
        },
        ClientMessageV::Subscribe { streams } => {
            let ss = streams.map_values(|s: StreamType| sj_streamtype(s));
            assert(forall|i: int| 0 <= i < ss.len() ==> jv_bounded(#[trigger] ss[i]));
            let p = sj_client_msg(m)->Obj_0[0].1->Obj_0;
            assert(forall|k: int| 0 <= k < p.len() ==> jv_bounded(#[trigger] p[k].1));
        },
        ClientMessageV::ConfigureStream { target_fps, quality } => {
            let p = sj_client_msg(m)->Obj_0[0].1->Obj_0;
            assert(forall|k: int| 0 <= k < p.len() ==> jv_bounded(#[trigger] p[k].1));
        },
        ClientMessageV::HandTrackingUpdate { hands } => {
            lemma_sj_hands_bounded(hands);
            let p = sj_client_msg(m)->Obj_0[0].1->Obj_0;
            assert(forall|k: int| 0 <= k < p.len() ==> jv_bounded(#[trigger] p[k].1));
        },
        ClientMessageV::InteractionEvent { event_type, target } => {
            assert(jv_bounded(sj_interaction(event_type))) by {
                match event_type {
                    InteractionTypeV::VoiceCommand { command } => {
                        let q = sj_interaction(event_type)->Obj_0;
                        assert(q[0].1->Obj_0.len() == 1);
                        assert(forall|k: int|
                            0 <= k < q[0].1->Obj_0.len() ==> jv_bounded(
                                #[trigger] q[0].1->Obj_0[k].1,
                            ));
                        assert(forall|k: int|
                            0 <= k < q.len() ==> jv_bounded(#[trigger] q[k].1));
                    },
                    _ => {},
                }
            }
            let p = sj_client_msg(m)->Obj_0[0].1->Obj_0;
            assert(forall|k: int| 0 <= k < p.len() ==> jv_bounded(#[trigger] p[k].1));
        },
        ClientMessageV::Ping { timestamp } => {
            let p = sj_client_msg(m)->Obj_0[0].1->Obj_0;
            assert(forall|k: int| 0 <= k < p.len() ==> jv_bounded(#[trigger] p[k].1));
        },
    }
    let fs = sj_client_msg(m)->Obj_0;
    assert(forall|k: int| 0 <= k < fs.len() ==> jv_bounded(#[trigger] fs[k].1));
}

/// Whole-wire round trip: the text the broker writes for a well-formed
/// server envelope reads back as exactly that envelope, provided its
/// fractional fields lie within what the number grammar reads back.
pub proof fn lemma_wire_server_round_trip(m: ServerMessageV)
    requires
        m.wf(),
        server_msg_ok(m),
    ensures
        spec_decode_server_text(spec_json_text(sj_server_msg(m))) == Some(m),
{
    lemma_sj_server_msg_bounded(m);
    crate::json::lemma_text_round_trip(sj_server_msg(m));
    lemma_server_msg_rt(m);
}

/// Whole-wire round trip for client envelopes.
pub proof fn lemma_wire_client_round_trip(m: ClientMessageV)
    requires
        m.wf(),
        client_msg_ok(m),
    ensures
        spec_decode_client_text(spec_json_text(sj_client_msg(m))) == Some(m),
{
    lemma_sj_client_msg_bounded(m);
    crate::json::lemma_text_round_trip(sj_client_msg(m));
    lemma_client_msg_rt(m);
}

/// A message carrying only the required frame fields reads back as a frame
/// with every optional sub-payload absent.
pub proof fn lemma_minimal_frame(ts: u64, fid: u32)
    ensures
        sd_frame(
            JsonV::Obj(
                seq![
                    ("timestamp"@, JsonV::Int(ts as nat)),
                    ("frame_id"@, JsonV::Int(fid as nat)),
                ],
            ),
        ) == Some(
            ARFrameV {
                timestamp: ts,
                frame_id: fid,
                protocol_version: PROTOCOL_VERSION,
                objects: Seq::empty(),
                hands: None,
                audio_context: None,
                device_states: None,
            },
        ),
{
    reveal_with_fuel(jv_get, 4);
    reveal_strlit("timestamp");
    reveal_strlit("frame_id");
    reveal_strlit("protocol_version");
    reveal_strlit("objects");
    reveal_strlit("hands");
    reveal_strlit("audio_context");
    reveal_strlit("device_states");
    assert(("timestamp"@).len() == 9 && ("frame_id"@).len() == 8 && (
    "protocol_version"@).len() == 16 && ("objects"@).len() == 7 && ("hands"@).len() == 5 && (
    "audio_context"@).len() == 13 && ("device_states"@).len() == 13);
}

} // verus!

