//! Classification of pulse payloads into data types.
use vstd::prelude::*;
use crate::json::{entry_for, object_get, JsonNumber, JsonValue};
use crate::text::{chars_of, contains_word, has_infix, lowercase, to_lowercase};

verus! {

/// The kind of data a pulse carries.  Coordinates and sensor values keep the
/// JSON number they were read from.
#[derive(Debug, PartialEq)]
pub enum DataType {
    /// A heartbeat without payload.
    Pulse,
    /// A position: latitude, longitude and optional altitude.
    GPS { lat: JsonNumber, lon: JsonNumber, alt: Option<JsonNumber> },
    /// A numeric reading.
    Sensor { value: JsonNumber },
    /// A switch state.
    Trigger { state: bool },
    /// A text message.
    Event { message: String },
    /// Pixel data with its dimensions.
    Image { rows: u32, cols: u32, channels: u32, data: Vec<u8> },
}

/// A [`DataType`] with its text and bytes as sequences.
pub enum DataTypeView {
    Pulse,
    GPS { lat: JsonNumber, lon: JsonNumber, alt: Option<JsonNumber> },
    Sensor { value: JsonNumber },
    Trigger { state: bool },
    Event { message: Seq<char> },
    Image { rows: u32, cols: u32, channels: u32, data: Seq<u8> },
}

impl View for DataType {
    type V = DataTypeView;

    open spec fn view(&self) -> DataTypeView {
        match self {
            DataType::Pulse => DataTypeView::Pulse,
            DataType::GPS { lat, lon, alt } => DataTypeView::GPS { lat: *lat, lon: *lon, alt: *alt },
            DataType::Sensor { value } => DataTypeView::Sensor { value: *value },
            DataType::Trigger { state } => DataTypeView::Trigger { state: *state },
            DataType::Event { message } => DataTypeView::Event { message: message@ },
            DataType::Image { rows, cols, channels, data } => DataTypeView::Image {
                rows: *rows,
                cols: *cols,
                channels: *channels,
                data: data@,
            },
        }
    }
}

/// The view of an optional data type.
pub open spec fn opt_data_view(d: Option<DataType>) -> Option<DataTypeView> {
    match d {
        Some(x) => Some(x@),
        None => None,
    }
}

/// `a` when present, `b` otherwise.
pub open spec fn or_else<T>(a: Option<T>, b: Option<T>) -> Option<T> {
    match a {
        Some(x) => Some(x),
        None => b,
    }
}

/// The number held by an optional value.
pub open spec fn number_in(v: Option<JsonValue>) -> Option<JsonNumber> {
    match v {
        Some(x) => x.spec_as_number(),
        None => None,
    }
}

/// The name stored for each kind of data.
pub open spec fn spec_type_name(d: DataTypeView) -> Seq<char> {
    match d {
        DataTypeView::Pulse => "pulse"@,
        DataTypeView::GPS { .. } => "gps"@,
        DataTypeView::Sensor { .. } => "sensor"@,
        DataTypeView::Trigger { .. } => "trigger"@,
        DataTypeView::Event { .. } => "event"@,
        DataTypeView::Image { .. } => "image"@,
    }
}

/// The topic names a location: its lowercase form contains `gps`,
/// `location`, `coordinates`, `position`, `lat` or `lon`.
pub open spec fn spec_is_gps_topic(topic: Seq<char>) -> bool {
    let l = lowercase(topic);
    has_infix(l, "gps"@) || has_infix(l, "location"@) || has_infix(l, "coordinates"@)
        || has_infix(l, "position"@) || has_infix(l, "lat"@) || has_infix(l, "lon"@)
}

/// The topic names a picture: its lowercase form contains `image`, `img`,
/// `photo`, `camera` or `picture`.
pub open spec fn spec_is_image_topic(topic: Seq<char>) -> bool {
    let l = lowercase(topic);
    has_infix(l, "image"@) || has_infix(l, "img"@) || has_infix(l, "photo"@) || has_infix(
        l,
        "camera"@,
    ) || has_infix(l, "picture"@)
}

/// A position read from object entries: latitude under `lat`, `latitude`
/// or `y`; longitude under `lon`, `lng`, `longitude` or `x`; optional
/// altitude under `alt`, `altitude` or `z` (the first key present counts,
/// and must hold a number).
pub open spec fn spec_gps_object(e: Seq<(String, JsonValue)>) -> Option<DataTypeView> {
    let lat = number_in(or_else(entry_for(e, "lat"@), or_else(entry_for(e, "latitude"@), entry_for(e, "y"@))));
    let lon = number_in(
        or_else(
            entry_for(e, "lon"@),
            or_else(entry_for(e, "lng"@), or_else(entry_for(e, "longitude"@), entry_for(e, "x"@))),
        ),
    );
    let alt = number_in(or_else(entry_for(e, "alt"@), or_else(entry_for(e, "altitude"@), entry_for(e, "z"@))));
    match (lat, lon) {
        (Some(a), Some(o)) => Some(DataTypeView::GPS { lat: a, lon: o, alt }),
        _ => None,
    }
}

/// A reading from the first of `value`, `reading`, `measurement`, `sensor`.
pub open spec fn spec_sensor_object(e: Seq<(String, JsonValue)>) -> Option<DataTypeView> {
    let v = number_in(
        or_else(
            entry_for(e, "value"@),
            or_else(entry_for(e, "reading"@), or_else(entry_for(e, "measurement"@), entry_for(e, "sensor"@))),
        ),
    );
    match v {
        Some(n) => Some(DataTypeView::Sensor { value: n }),
        None => None,
    }
}

/// A switch state from the first of `state`, `trigger`, `active`, `enabled`.
pub open spec fn spec_trigger_object(e: Seq<(String, JsonValue)>) -> Option<DataTypeView> {
    let v = or_else(
        entry_for(e, "state"@),
        or_else(entry_for(e, "trigger"@), or_else(entry_for(e, "active"@), entry_for(e, "enabled"@))),
    );
    match v {
        Some(x) => match x.spec_as_bool() {
            Some(b) => Some(DataTypeView::Trigger { state: b }),
            None => None,
        },
        None => None,
    }
}

/// A message from the first of `event`, `message`, `msg`.
pub open spec fn spec_event_object(e: Seq<(String, JsonValue)>) -> Option<DataTypeView> {
    let v = or_else(entry_for(e, "event"@), or_else(entry_for(e, "message"@), entry_for(e, "msg"@)));
    match v {
        Some(JsonValue::String(s)) => Some(DataTypeView::Event { message: s@ }),
        _ => None,
    }
}

/// The bytes of an array: each element that is a non-negative integer,
/// truncated to its low eight bits; other elements are skipped.
pub open spec fn bytes_of(arr: Seq<JsonValue>) -> Seq<u8>
    decreases arr.len(),
{
    if arr.len() == 0 {
        Seq::empty()
    } else {
        let rest = bytes_of(arr.drop_last());
        match arr.last().spec_as_u64() {
            Some(n) => rest.push((n % 256) as u8),
            None => rest,
        }
    }
}

/// The low 32 bits of a `u64`, as `as u32` keeps them.
pub open spec fn low32(n: u64) -> u32 {
    (n % 0x1_0000_0000) as u32
}

/// An image from object entries: rows under `rows` or `height`, columns
/// under `cols` or `width` (non-negative integers, kept to 32 bits),
/// channels under `channels` (3 when absent or not a non-negative integer),
/// and pixel bytes under `data`.  It is accepted only when the number of
/// bytes equals rows × columns × channels.
pub open spec fn spec_image_object(e: Seq<(String, JsonValue)>) -> Option<DataTypeView> {
    let rows = match or_else(entry_for(e, "rows"@), entry_for(e, "height"@)) {
        Some(v) => v.spec_as_u64(),
        None => None,
    };
    let cols = match or_else(entry_for(e, "cols"@), entry_for(e, "width"@)) {
        Some(v) => v.spec_as_u64(),
        None => None,
    };
    let channels = match entry_for(e, "channels"@) {
        Some(v) => match v.spec_as_u64() {
            Some(n) => n,
            None => 3u64,
        },
        None => 3u64,
    };
    match (rows, cols) {
        (Some(r), Some(c)) => match entry_for(e, "data"@) {
            Some(JsonValue::Array(arr)) => {
                let data = bytes_of(arr@);
                let (r32, c32, ch32) = (low32(r), low32(c), low32(channels));
                if data.len() == (r32 as int) * (c32 as int) * (ch32 as int) {
                    Some(DataTypeView::Image { rows: r32, cols: c32, channels: ch32, data })
                } else {
                    None
                }
            },
            _ => None,
        },
        _ => None,
    }
}

/// Every entry of the object holds `null`.
pub open spec fn all_values_null(e: Seq<(String, JsonValue)>) -> bool {
    forall|i: int| 0 <= i < e.len() ==> (#[trigger] e[i]).1 is Null
}

/// The entries of the object stored under `key`, when there is one.
pub open spec fn nested_object(e: Seq<(String, JsonValue)>, key: Seq<char>) -> Option<Seq<(String, JsonValue)>> {
    match entry_for(e, key) {
        Some(JsonValue::Object(inner)) => Some(inner@),
        _ => None,
    }
}

/// The data type a JSON payload on `topic` is detected as.
///
/// `null` is a pulse, a number a sensor reading, a boolean a trigger, a
/// string an event.  An array of two or three numbers on a location topic
/// is a position.  An object is tried, in order, as: a pulse (empty, only a
/// `ping` key, or only `null` values); a position nested under `GPS`; a position, on a location
/// topic; an image nested under `image`; an image, on a picture topic; a
/// sensor reading; a trigger; an event.
pub open spec fn spec_from_json(value: JsonValue, topic: Seq<char>) -> Option<DataTypeView> {
    match value {
        JsonValue::Null => Some(DataTypeView::Pulse),
        JsonValue::Number(n) => Some(DataTypeView::Sensor { value: n }),
        JsonValue::Bool(b) => Some(DataTypeView::Trigger { state: b }),
        JsonValue::String(s) => Some(DataTypeView::Event { message: s@ }),
        JsonValue::Array(arr) => {
            let a = arr@;
            if spec_is_gps_topic(topic) && 2 <= a.len() <= 3 {
                match (a[0].spec_as_number(), a[1].spec_as_number()) {
                    (Some(lat), Some(lon)) => Some(
                        DataTypeView::GPS {
                            lat,
                            lon,
                            alt: if a.len() == 3 { a[2].spec_as_number() } else { None },
                        },
                    ),
                    _ => None,
                }
            } else {
                None
            }
        },
        JsonValue::Object(obj) => {
            let e = obj@;
            let nested_gps = match nested_object(e, "GPS"@) {
                Some(inner) => spec_gps_object(inner),
                None => None,
            };
            let nested_image = match nested_object(e, "image"@) {
                Some(inner) => spec_image_object(inner),
                None => None,
            };
            if e.len() == 0 || (e.len() == 1 && entry_for(e, "ping"@) is Some) || all_values_null(e) {
                Some(DataTypeView::Pulse)
            } else if nested_gps is Some {
                nested_gps
            } else if spec_is_gps_topic(topic) && spec_gps_object(e) is Some {
                spec_gps_object(e)
            } else if nested_image is Some {
                nested_image
            } else if spec_is_image_topic(topic) && spec_image_object(e) is Some {
                spec_image_object(e)
            } else if spec_sensor_object(e) is Some {
                spec_sensor_object(e)
            } else if spec_trigger_object(e) is Some {
                spec_trigger_object(e)
            } else {
                spec_event_object(e)
            }
        },
    }
}

/// The value under the first of two keys present.
fn get_first2<'a>(e: &'a Vec<(String, JsonValue)>, k1: &str, k2: &str) -> (r: Option<&'a JsonValue>)
    ensures
        match r {
            Some(v) => or_else(entry_for(e@, k1@), entry_for(e@, k2@)) == Some(*v),
            None => or_else(entry_for(e@, k1@), entry_for(e@, k2@)) is None,
        },
{
    match object_get(e, k1) {
        Some(v) => Some(v),
        None => object_get(e, k2),
    }
}

/// The value under the first of three keys present.
fn get_first3<'a>(e: &'a Vec<(String, JsonValue)>, k1: &str, k2: &str, k3: &str) -> (r: Option<&'a JsonValue>)
    ensures
        match r {
            Some(v) => or_else(entry_for(e@, k1@), or_else(entry_for(e@, k2@), entry_for(e@, k3@)))
                == Some(*v),
            None => or_else(entry_for(e@, k1@), or_else(entry_for(e@, k2@), entry_for(e@, k3@))) is None,
        },
{
    match object_get(e, k1) {
        Some(v) => Some(v),
        None => get_first2(e, k2, k3),
    }
}

/// The value under the first of four keys present.
fn get_first4<'a>(e: &'a Vec<(String, JsonValue)>, k1: &str, k2: &str, k3: &str, k4: &str) -> (r: Option<
    &'a JsonValue,
>)
    ensures
        match r {
            Some(v) => or_else(
                entry_for(e@, k1@),
                or_else(entry_for(e@, k2@), or_else(entry_for(e@, k3@), entry_for(e@, k4@))),
            ) == Some(*v),
            None => or_else(
                entry_for(e@, k1@),
                or_else(entry_for(e@, k2@), or_else(entry_for(e@, k3@), entry_for(e@, k4@))),
            ) is None,
        },
{
    match object_get(e, k1) {
        Some(v) => Some(v),
        None => get_first3(e, k2, k3, k4),
    }
}

/// Whether every entry holds `null`.
fn only_nulls(e: &Vec<(String, JsonValue)>) -> (r: bool)
    ensures
        r == all_values_null(e@),
{
    let mut i: usize = 0;
    while i < e.len()
        invariant
            i <= e@.len(),
            forall|j: int| 0 <= j < i ==> (#[trigger] e@[j]).1 is Null,
        decreases e@.len() - i,
    {
        match &e[i].1 {
            JsonValue::Null => {},
            _ => {
                return false;
            },
        }
        i = i + 1;
    }
    true
}

/// The number held by an optional value.
fn number_of(v: Option<&JsonValue>) -> (r: Option<JsonNumber>)
    ensures
        r == number_in(
            match v {
                Some(x) => Some(*x),
                None => None,
            },
        ),
{
    match v {
        Some(x) => x.as_number(),
        None => None,
    }
}

impl DataType {
    /// The name stored for this kind of data.
    pub fn data_type_name(&self) -> (r: &'static str)
        ensures
            r@ == spec_type_name(self@),
    {
        match self {
            DataType::Pulse => "pulse",
            DataType::GPS { .. } => "gps",
            DataType::Sensor { .. } => "sensor",
            DataType::Trigger { .. } => "trigger",
            DataType::Event { .. } => "event",
            DataType::Image { .. } => "image",
        }
    }

    /// Whether the topic names a location.
    pub fn is_gps_topic(topic: &str) -> (r: bool)
        ensures
            r == spec_is_gps_topic(topic@),
    {
        let l = to_lowercase(topic);
        let lc = chars_of(l.as_str());
        let s = lc.as_slice();
        contains_word(s, "gps") || contains_word(s, "location") || contains_word(
            s,
            "coordinates",
        ) || contains_word(s, "position") || contains_word(s, "lat")
            || contains_word(s, "lon")
    }

    /// Whether the topic names a picture.
    pub fn is_image_topic(topic: &str) -> (r: bool)
        ensures
            r == spec_is_image_topic(topic@),
    {
        let l = to_lowercase(topic);
        let lc = chars_of(l.as_str());
        let s = lc.as_slice();
        contains_word(s, "image") || contains_word(s, "img") || contains_word(
            s,
            "photo",
        ) || contains_word(s, "camera") || contains_word(s, "picture")
    }

    /// Reads a position from object entries.
    pub fn parse_gps_object(e: &Vec<(String, JsonValue)>) -> (r: Option<DataType>)
        ensures
            opt_data_view(r) == spec_gps_object(e@),
    {
        let lat = number_of(get_first3(e, "lat", "latitude", "y"));
        let lon = number_of(get_first4(e, "lon", "lng", "longitude", "x"));
        let alt = number_of(get_first3(e, "alt", "altitude", "z"));
        match (lat, lon) {
            (Some(a), Some(o)) => Some(DataType::GPS { lat: a, lon: o, alt }),
            _ => None,
        }
    }

    /// Reads a sensor value from object entries.
    pub fn parse_sensor_object(e: &Vec<(String, JsonValue)>) -> (r: Option<DataType>)
        ensures
            opt_data_view(r) == spec_sensor_object(e@),
    {
        match number_of(get_first4(e, "value", "reading", "measurement", "sensor")) {
            Some(n) => Some(DataType::Sensor { value: n }),
            None => None,
        }
    }

    /// Reads a switch state from object entries.
    pub fn parse_trigger_object(e: &Vec<(String, JsonValue)>) -> (r: Option<DataType>)
        ensures
            opt_data_view(r) == spec_trigger_object(e@),
    {
        match get_first4(e, "state", "trigger", "active", "enabled") {
            Some(v) => match v.as_bool() {
                Some(b) => Some(DataType::Trigger { state: b }),
                None => None,
            },
            None => None,
        }
    }

    /// Reads an event message from object entries.
    pub fn parse_event_object(e: &Vec<(String, JsonValue)>) -> (r: Option<DataType>)
        ensures
            opt_data_view(r) == spec_event_object(e@),
    {
        match get_first3(e, "event", "message", "msg") {
            Some(JsonValue::String(s)) => Some(DataType::Event { message: s.clone() }),
            _ => None,
        }
    }

    /// Reads an image from object entries.
    pub fn parse_image_object(e: &Vec<(String, JsonValue)>) -> (r: Option<DataType>)
        ensures
            opt_data_view(r) == spec_image_object(e@),
    {
        let rows = match get_first2(e, "rows", "height") {
            Some(v) => v.as_u64(),
            None => None,
        };
        let cols = match get_first2(e, "cols", "width") {
            Some(v) => v.as_u64(),
            None => None,
        };
        let channels: u64 = match object_get(e, "channels") {
            Some(v) => match v.as_u64() {
                Some(n) => n,
                None => 3,
            },
            None => 3,
        };
        let (r, c) = match (rows, cols) {
            (Some(r), Some(c)) => (r, c),
            _ => {
                return None;
            },
        };
        let arr = match object_get(e, "data") {
            Some(JsonValue::Array(arr)) => arr,
            _ => {
                return None;
            },
        };
        let data = bytes_from_array(arr);
        let r32 = (r % 0x1_0000_0000) as u32;
        let c32 = (c % 0x1_0000_0000) as u32;
        let ch32 = (channels % 0x1_0000_0000) as u32;
        assert((r32 as u64) * (c32 as u64) <= 0xffff_ffff_ffff_ffffu64) by (nonlinear_arith)
            requires
                r32 <= 0xffff_ffffu32,
                c32 <= 0xffff_ffffu32,
        ;
        let rc: u64 = (r32 as u64) * (c32 as u64);
        assert((rc as u128) * (ch32 as u128) <= 0xffff_ffff_ffff_ffff_ffff_ffff_ffff_ffffu128) by (nonlinear_arith)
            requires
                rc <= 0xffff_ffff_ffff_ffffu64,
                ch32 <= 0xffff_ffffu32,
        ;
        let expected: u128 = (rc as u128) * (ch32 as u128);
        if (data.len() as u128) == expected {
            Some(DataType::Image { rows: r32, cols: c32, channels: ch32, data })
        } else {
            None
        }
    }

    /// Detects the data type of a JSON payload sent on `topic`.
    pub fn from_json(value: &JsonValue, topic: &str) -> (r: Option<DataType>)
        ensures
            opt_data_view(r) == spec_from_json(*value, topic@),
    {
        match value {
            JsonValue::Null => Some(DataType::Pulse),
            JsonValue::Number(n) => Some(DataType::Sensor { value: *n }),
            JsonValue::Bool(b) => Some(DataType::Trigger { state: *b }),
            JsonValue::String(s) => Some(DataType::Event { message: s.clone() }),
            JsonValue::Array(arr) => {
                if Self::is_gps_topic(topic) && 2 <= arr.len() && arr.len() <= 3 {
                    match (arr[0].as_number(), arr[1].as_number()) {
                        (Some(lat), Some(lon)) => {
                            let alt = if arr.len() == 3 { arr[2].as_number() } else { None };
                            Some(DataType::GPS { lat, lon, alt })
                        },
                        _ => None,
                    }
                } else {
                    None
                }
            },
            JsonValue::Object(obj) => {
                if obj.len() == 0 || (obj.len() == 1 && object_get(obj, "ping").is_some())
                    || only_nulls(obj) {
                    return Some(DataType::Pulse);
                }
                if let Some(JsonValue::Object(inner)) = object_get(obj, "GPS") {
                    if let Some(g) = Self::parse_gps_object(inner) {
                        return Some(g);
                    }
                }
                if Self::is_gps_topic(topic) {
                    if let Some(g) = Self::parse_gps_object(obj) {
                        return Some(g);
                    }
                }
                if let Some(JsonValue::Object(inner)) = object_get(obj, "image") {
                    if let Some(i) = Self::parse_image_object(inner) {
                        return Some(i);
                    }
                }
                if Self::is_image_topic(topic) {
                    if let Some(i) = Self::parse_image_object(obj) {
                        return Some(i);
                    }
                }
                if let Some(s) = Self::parse_sensor_object(obj) {
                    return Some(s);
                }
                if let Some(t) = Self::parse_trigger_object(obj) {
                    return Some(t);
                }
                Self::parse_event_object(obj)
            },
        }
    }
}

/// The bytes of a JSON array (see [`bytes_of`]).
pub fn bytes_from_array(arr: &Vec<JsonValue>) -> (r: Vec<u8>)
    ensures
        r@ == bytes_of(arr@),
{
    let mut out: Vec<u8> = Vec::new();
    let mut i: usize = 0;
    while i < arr.len()
        invariant
            i <= arr@.len(),
            out@ == bytes_of(arr@.subrange(0, i as int)),
        decreases arr@.len() - i,
    {
        let ghost pre = arr@.subrange(0, i + 1);
        assert(pre.drop_last() =~= arr@.subrange(0, i as int));
        match arr[i].as_u64() {
            Some(n) => {
                out.push((n % 256) as u8);
            },
            None => {},
        }
        i = i + 1;
    }
    assert(arr@.subrange(0, arr@.len() as int) =~= arr@);
    out
}

/// An entry found under a key is one of the object's entries.
proof fn lemma_entry_found(e: Seq<(String, JsonValue)>, k: Seq<char>)
    requires
        entry_for(e, k) is Some,
    ensures
        exists|i: int| 0 <= i < e.len() && (#[trigger] e[i]).0@ == k && e[i].1 == entry_for(e, k)->0,
    decreases e.len(),
{
    if e[0].0@ != k {
        lemma_entry_found(e.drop_first(), k);
        let i = choose|i: int|
            0 <= i < e.drop_first().len() && (#[trigger] e.drop_first()[i]).0@ == k && e.drop_first()[i].1
                == entry_for(e.drop_first(), k)->0;
        assert(e[i + 1] == e.drop_first()[i]);
    }
}

/// A payload whose `GPS` entry is an object with numeric `lat` and `lon` is
/// detected as a position with exactly that latitude and longitude, on any
/// topic.
pub proof fn nested_gps_is_detected(
    entries: Vec<(String, JsonValue)>,
    inner: Vec<(String, JsonValue)>,
    lat: JsonNumber,
    lon: JsonNumber,
    topic: Seq<char>,
)
    requires
        entry_for(entries@, "GPS"@) == Some(JsonValue::Object(inner)),
        entry_for(inner@, "lat"@) == Some(JsonValue::Number(lat)),
        entry_for(inner@, "lon"@) == Some(JsonValue::Number(lon)),
    ensures
        spec_from_json(JsonValue::Object(entries), topic) matches Some(DataTypeView::GPS { lat: a, lon: o, .. })
            && a == lat && o == lon,
{
    reveal_strlit("GPS");
    reveal_strlit("ping");
    let e = entries@;
    lemma_entry_found(e, "GPS"@);
    let i = choose|i: int| 0 <= i < e.len() && (#[trigger] e[i]).0@ == "GPS"@ && e[i].1 == entry_for(e, "GPS"@)->0;
    assert(!all_values_null(e)) by {
        assert(!(e[i].1 is Null));
    }
    if e.len() == 1 {
        assert(i == 0);
        assert(e[0].0@ != "ping"@) by {
            assert(e[0].0@[1] == 'P');
            assert("ping"@[1] == 'i');
        }
        assert(entry_for(e, "ping"@) == entry_for(e.drop_first(), "ping"@));
        assert(e.drop_first().len() == 0);
    }
    assert(nested_object(e, "GPS"@) == Some(inner@));
}

/// What the client sends for a position, `{"GPS": {"alt": .., "lat": ..,
/// "lon": ..}}`, is detected as that position on any topic.
pub proof fn sent_position_is_detected(
    inner: Vec<(String, JsonValue)>,
    entries: Vec<(String, JsonValue)>,
    alt: JsonValue,
    lat: JsonNumber,
    lon: JsonNumber,
    topic: Seq<char>,
)
    requires
        entries@.len() == 1,
        entries@[0].0@ == "GPS"@,
        entries@[0].1 == JsonValue::Object(inner),
        inner@.len() == 3,
        inner@[0].0@ == "alt"@ && inner@[0].1 == alt,
        inner@[1].0@ == "lat"@ && inner@[1].1 == JsonValue::Number(lat),
        inner@[2].0@ == "lon"@ && inner@[2].1 == JsonValue::Number(lon),
    ensures
        spec_from_json(JsonValue::Object(entries), topic) matches Some(DataTypeView::GPS { lat: a, lon: o, .. })
            && a == lat && o == lon,
{
    reveal_strlit("alt");
    reveal_strlit("lat");
    reveal_strlit("lon");
    let g = inner@;
    assert(g[0].0@ != "lat"@) by {
        assert(g[0].0@[1] == 'l');
        assert("lat"@[1] == 'a');
    }
    assert(g[0].0@ != "lon"@) by {
        assert(g[0].0@[1] == 'l');
        assert("lon"@[1] == 'o');
    }
    assert(g[1].0@ != "lon"@) by {
        assert(g[1].0@[1] == 'a');
        assert("lon"@[1] == 'o');
    }
    assert(entry_for(g, "lat"@) == entry_for(g.drop_first(), "lat"@));
    assert(g.drop_first()[0] == g[1]);
    assert(entry_for(g, "lat"@) == Some(JsonValue::Number(lat)));
    assert(entry_for(g.drop_first(), "lon"@) == entry_for(g.drop_first().drop_first(), "lon"@));
    assert(g.drop_first().drop_first()[0] == g[2]);
    assert(entry_for(g, "lon"@) == Some(JsonValue::Number(lon)));
    assert(entry_for(entries@, "GPS"@) == Some(JsonValue::Object(inner)));
    nested_gps_is_detected(entries, inner, lat, lon, topic);
}

/// Bare values are detected by their JSON kind on any topic: `null` is a
/// pulse, a number a sensor reading of that number, a boolean a trigger in
/// that state, a string an event with that message; and an object whose
/// every entry is `null` (the empty one too) is a pulse.
pub proof fn bare_values_are_detected_by_kind(value: JsonValue, topic: Seq<char>)
    ensures
        value is Null ==> spec_from_json(value, topic) == Some(DataTypeView::Pulse),
        value matches JsonValue::Number(n) ==> spec_from_json(value, topic) == Some(DataTypeView::Sensor { value: n }),
        value matches JsonValue::Bool(b) ==> spec_from_json(value, topic) == Some(DataTypeView::Trigger { state: b }),
        value matches JsonValue::String(m) ==> spec_from_json(value, topic) == Some(DataTypeView::Event { message: m@ }),
        value matches JsonValue::Object(e) ==> ((forall|i: int| 0 <= i < e@.len() ==> (#[trigger] e@[i]).1 is Null)
            ==> spec_from_json(value, topic) == Some(DataTypeView::Pulse)),
{
}

} // verus!
