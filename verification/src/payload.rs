//! The data a client sends with a pulse, built from the command-line
//! options of each kind of pulse.
use vstd::prelude::*;
use crate::json::{JsonNumber, JsonValue};
use crate::text::{owned, push_str};

verus! {

/// The kind of data a pulse carries.
#[derive(Clone, Copy, Debug, PartialEq, Eq, Structural)]
pub enum PulseKind {
    Pulse,
    Gps,
    Sensor,
    Trigger,
    Event,
    Image,
}

/// A required option of the chosen kind is missing.
#[derive(Clone, Copy, Debug, PartialEq, Eq, Structural)]
pub enum PayloadError {
    MissingCoordinates,
    MissingValue,
    MissingState,
    MissingMessage,
    MissingImage,
}

impl PayloadError {
    /// The message shown for the missing option.
    pub fn message(&self) -> (r: String)
        ensures
            r@ == match *self {
                PayloadError::MissingCoordinates => "GPS data type requires --latitude and --longitude parameters"@,
                PayloadError::MissingValue => "Sensor data type requires --value parameter"@,
                PayloadError::MissingState => "Trigger data type requires --state parameter"@,
                PayloadError::MissingMessage => "Event data type requires --message parameter"@,
                PayloadError::MissingImage => "Image data type requires either --image-file or both --width and --height parameters"@,
            },
    {
        match self {
            PayloadError::MissingCoordinates => owned(
                "GPS data type requires --latitude and --longitude parameters",
            ),
            PayloadError::MissingValue => owned("Sensor data type requires --value parameter"),
            PayloadError::MissingState => owned("Trigger data type requires --state parameter"),
            PayloadError::MissingMessage => owned("Event data type requires --message parameter"),
            PayloadError::MissingImage => owned(
                "Image data type requires either --image-file or both --width and --height parameters",
            ),
        }
    }
}

/// An image read from a file: its size and its RGB bytes, row by row.
#[derive(Debug)]
pub struct DecodedImage {
    pub width: u32,
    pub height: u32,
    pub rgb: Vec<u8>,
}

/// What the `image` crate decodes from the bytes of a file named
/// `file_name`, converted to RGB: width, height and the pixels row by row,
/// or the text of its decoding error.
pub uninterp spec fn decoded_rgb(file_name: Seq<char>, bytes: Seq<u8>) -> Result<(u32, u32, Seq<u8>), Seq<char>>;

/// Decodes image file contents as `image::io::Reader::open(file_name)` and
/// `decode` do: the format is guessed with `ImageFormat::from_path` from
/// the file name, and without one decoding fails.  The image is converted
/// with `to_rgb8`, and `dimensions` and `into_raw` are returned.  Only the
/// naming of the result is claimed.
#[verifier::external_body]
fn decode_rgb(file_name: &str, bytes: &[u8]) -> (r: Result<DecodedImage, String>)
    ensures
        match decoded_rgb(file_name@, bytes@) {
            Ok((w, h, px)) => r matches Ok(d) && d.width == w && d.height == h && d.rgb@ == px,
            Err(e) => r matches Err(m) && m@ == e,
        },
{
    let mut reader = image::io::Reader::new(std::io::Cursor::new(bytes));
    if let Ok(format) = image::ImageFormat::from_path(file_name) {
        reader.set_format(format);
    }
    match reader.decode() {
        Ok(img) => {
            let rgb = img.to_rgb8();
            let (width, height) = rgb.dimensions();
            Ok(DecodedImage { width, height, rgb: rgb.into_raw() })
        },
        Err(e) => Err(e.to_string()),
    }
}

/// Decodes the contents of the image file at `file_path` to RGB pixels; a
/// failure is reported as `Failed to decode image file '<path>': ` and the
/// decoder's message.
pub fn decode_image_file(file_path: &str, bytes: &[u8]) -> (r: Result<DecodedImage, String>)
    ensures
        match decoded_rgb(file_path@, bytes@) {
            Ok((w, h, px)) => r matches Ok(d) && d.width == w && d.height == h && d.rgb@ == px,
            Err(e) => r matches Err(m) && m@ == "Failed to decode image file '"@ + file_path@ + "': "@ + e,
        },
{
    match decode_rgb(file_path, bytes) {
        Ok(d) => Ok(d),
        Err(e) => {
            let mut m = owned("Failed to decode image file '");
            push_str(&mut m, file_path);
            push_str(&mut m, "': ");
            push_str(&mut m, e.as_str());
            Err(m)
        },
    }
}

/// The options given for a pulse.  Numbers are the JSON values of the
/// command-line numbers.
#[derive(Debug)]
pub struct PulseOptions {
    pub latitude: Option<JsonValue>,
    pub longitude: Option<JsonValue>,
    pub altitude: Option<JsonValue>,
    pub value: Option<JsonValue>,
    pub state: Option<bool>,
    pub message: Option<String>,
    pub width: Option<u32>,
    pub height: Option<u32>,
    /// The image file's contents, when a file was given and decoded.
    pub image: Option<DecodedImage>,
}

/// The value of a one-entry object under `key`.
pub open spec fn sole_entry(j: JsonValue, key: Seq<char>) -> Option<JsonValue> {
    match j {
        JsonValue::Object(e) => if e@.len() == 1 && e@[0].0@ == key {
            Some(e@[0].1)
        } else {
            None
        },
        _ => None,
    }
}

/// The object holds exactly `keys`, in order, with the values `vals`.
pub open spec fn object_with(j: JsonValue, keys: Seq<Seq<char>>, vals: Seq<JsonValue>) -> bool {
    match j {
        JsonValue::Object(e) => {
            &&& e@.len() == keys.len()
            &&& vals.len() == keys.len()
            &&& forall|i: int| 0 <= i < keys.len() ==> (#[trigger] e@[i]).0@ == keys[i] && e@[i].1 == vals[i]
        },
        _ => false,
    }
}

/// The JSON array of the bytes, each as a number.
pub open spec fn byte_array(j: JsonValue, bytes: Seq<u8>) -> bool {
    match j {
        JsonValue::Array(a) => {
            &&& a@.len() == bytes.len()
            &&& forall|i: int|
                0 <= i < bytes.len() ==> #[trigger] a@[i] == JsonValue::Number(JsonNumber::PosInt(bytes[i] as u64))
        },
        _ => false,
    }
}

/// An image object: `channels`, `cols`, `data` and `rows`, in that order.
pub open spec fn image_object(j: JsonValue, rows: u32, cols: u32, channels: u64, bytes: Seq<u8>) -> bool {
    match j {
        JsonValue::Object(e) => {
            &&& e@.len() == 4
            &&& e@[0].0@ == "channels"@ && e@[0].1 == JsonValue::Number(JsonNumber::PosInt(channels))
            &&& e@[1].0@ == "cols"@ && e@[1].1 == JsonValue::Number(JsonNumber::PosInt(cols as u64))
            &&& e@[2].0@ == "data"@ && byte_array(e@[2].1, bytes)
            &&& e@[3].0@ == "rows"@ && e@[3].1 == JsonValue::Number(JsonNumber::PosInt(rows as u64))
        },
        _ => false,
    }
}

/// The placeholder pixels of a generated image: byte `i` is `i mod 256`.
pub open spec fn placeholder_bytes(n: nat) -> Seq<u8> {
    Seq::new(n, |i: int| (i % 256) as u8)
}

fn one_entry(key: &str, v: JsonValue) -> (r: JsonValue)
    ensures
        sole_entry(r, key@) == Some(v),
{
    let mut e: Vec<(String, JsonValue)> = Vec::new();
    e.push((owned(key), v));
    JsonValue::Object(e)
}

fn bytes_to_json(bytes: &[u8]) -> (r: JsonValue)
    ensures
        byte_array(r, bytes@),
{
    let mut a: Vec<JsonValue> = Vec::new();
    let mut i: usize = 0;
    while i < bytes.len()
        invariant
            i <= bytes@.len(),
            a@.len() == i,
            forall|k: int| 0 <= k < i ==> #[trigger] a@[k] == JsonValue::Number(JsonNumber::PosInt(bytes@[k] as u64)),
        decreases bytes@.len() - i,
    {
        a.push(JsonValue::Number(JsonNumber::PosInt(bytes[i] as u64)));
        i = i + 1;
    }
    JsonValue::Array(a)
}

fn image_json(rows: u32, cols: u32, channels: u64, bytes: &[u8]) -> (r: JsonValue)
    ensures
        sole_entry(r, "image"@) matches Some(img) && image_object(img, rows, cols, channels, bytes@),
{
    let mut e: Vec<(String, JsonValue)> = Vec::new();
    e.push((owned("channels"), JsonValue::Number(JsonNumber::PosInt(channels))));
    e.push((owned("cols"), JsonValue::Number(JsonNumber::PosInt(cols as u64))));
    e.push((owned("data"), bytes_to_json(bytes)));
    e.push((owned("rows"), JsonValue::Number(JsonNumber::PosInt(rows as u64))));
    one_entry("image", JsonValue::Object(e))
}

/// The placeholder pixels of a generated image of `n` bytes.
pub fn placeholder_pixels(n: usize) -> (r: Vec<u8>)
    ensures
        r@ == placeholder_bytes(n as nat),
{
    let mut v: Vec<u8> = Vec::new();
    let mut i: usize = 0;
    while i < n
        invariant
            i <= n,
            v@ == placeholder_bytes(i as nat),
        decreases n - i,
    {
        v.push((i % 256) as u8);
        i = i + 1;
        assert(v@ =~= placeholder_bytes(i as nat));
    }
    v
}

/// What the pulse sends for a kind and its options: the custom data when
/// given; else nothing for a plain pulse; `{"GPS": {"alt", "lat", "lon"}}`
/// (a missing altitude as null); `{"sensor": value}`; `{"trigger": state}`;
/// `{"event": message}`; for an image, the decoded file's pixels with three
/// channels, else placeholder pixels of `width × height × 3` bytes.  A
/// required option that is missing is reported.
pub fn pulse_payload(kind: PulseKind, custom: Option<JsonValue>, options: PulseOptions) -> (r: Result<
    Option<JsonValue>,
    PayloadError,
>)
    requires
        custom is None && kind == PulseKind::Image && options.image is None && options.width is Some
            && options.height is Some ==> options.width.unwrap() * options.height.unwrap() * 3 <= u32::MAX,
    ensures
        custom is Some ==> r == Ok::<Option<JsonValue>, PayloadError>(custom),
        custom is None ==> match kind {
            PulseKind::Pulse => r == Ok::<Option<JsonValue>, PayloadError>(None),
            PulseKind::Gps => match (options.latitude, options.longitude) {
                (Some(lat), Some(lon)) => r matches Ok(Some(j)) && sole_entry(j, "GPS"@) matches Some(g)
                    && object_with(
                    g,
                    seq!["alt"@, "lat"@, "lon"@],
                    seq![
                        match options.altitude {
                            Some(a) => a,
                            None => JsonValue::Null,
                        },
                        lat,
                        lon,
                    ],
                ),
                _ => r == Err::<Option<JsonValue>, PayloadError>(PayloadError::MissingCoordinates),
            },
            PulseKind::Sensor => match options.value {
                Some(v) => r matches Ok(Some(j)) && sole_entry(j, "sensor"@) == Some(v),
                None => r == Err::<Option<JsonValue>, PayloadError>(PayloadError::MissingValue),
            },
            PulseKind::Trigger => match options.state {
                Some(b) => r matches Ok(Some(j)) && sole_entry(j, "trigger"@) == Some(JsonValue::Bool(b)),
                None => r == Err::<Option<JsonValue>, PayloadError>(PayloadError::MissingState),
            },
            PulseKind::Event => match options.message {
                Some(m) => r matches Ok(Some(j)) && sole_entry(j, "event"@) matches Some(
                    JsonValue::String(s),
                ) && s@ == m@,
                None => r == Err::<Option<JsonValue>, PayloadError>(PayloadError::MissingMessage),
            },
            PulseKind::Image => match options.image {
                Some(img) => r matches Ok(Some(j)) && sole_entry(j, "image"@) matches Some(o) && image_object(
                    o,
                    img.height,
                    img.width,
                    3,
                    img.rgb@,
                ),
                None => match (options.width, options.height) {
                    (Some(w), Some(h)) => r matches Ok(Some(j)) && sole_entry(j, "image"@) matches Some(o)
                        && image_object(o, h, w, 3, placeholder_bytes((w * h * 3) as nat)),
                    _ => r == Err::<Option<JsonValue>, PayloadError>(PayloadError::MissingImage),
                },
            },
        },
{
    if custom.is_some() {
        return Ok(custom);
    }
    match kind {
        PulseKind::Pulse => Ok(None),
        PulseKind::Gps => match (options.latitude, options.longitude) {
            (Some(lat), Some(lon)) => {
                let alt = match options.altitude {
                    Some(a) => a,
                    None => JsonValue::Null,
                };
                let mut e: Vec<(String, JsonValue)> = Vec::new();
                e.push((owned("alt"), alt));
                e.push((owned("lat"), lat));
                e.push((owned("lon"), lon));
                Ok(Some(one_entry("GPS", JsonValue::Object(e))))
            },
            _ => Err(PayloadError::MissingCoordinates),
        },
        PulseKind::Sensor => match options.value {
            Some(v) => Ok(Some(one_entry("sensor", v))),
            None => Err(PayloadError::MissingValue),
        },
        PulseKind::Trigger => match options.state {
            Some(b) => Ok(Some(one_entry("trigger", JsonValue::Bool(b)))),
            None => Err(PayloadError::MissingState),
        },
        PulseKind::Event => match options.message {
            Some(m) => Ok(Some(one_entry("event", JsonValue::String(m)))),
            None => Err(PayloadError::MissingMessage),
        },
        PulseKind::Image => match options.image {
            Some(img) => Ok(Some(image_json(img.height, img.width, 3, img.rgb.as_slice()))),
            None => match (options.width, options.height) {
                (Some(w), Some(h)) => {
                    let n: u32 = w * h * 3;
                    let pixels = placeholder_pixels(n as usize);
                    Ok(Some(image_json(h, w, 3, pixels.as_slice())))
                },
                _ => Err(PayloadError::MissingImage),
            },
        },
    }
}

} // verus!
