//! Device locations for the map: where the latest position is read from,
//! the coordinate layouts that are understood, and the marker colours.
use vstd::prelude::*;
use crate::json::{entry_for, JsonNumber, JsonValue};
use crate::text::{owned, str_equal};

verus! {

/// Latitude and longitude from the first two elements of an array under
/// `key`, when it has at least two and both are numbers.
pub open spec fn pair_under(data: JsonValue, key: Seq<char>) -> Option<(JsonNumber, JsonNumber)> {
    match data.spec_get(key) {
        Some(JsonValue::Array(a)) => if a@.len() >= 2 {
            match (a@[0].spec_as_number(), a@[1].spec_as_number()) {
                (Some(lat), Some(lng)) => Some((lat, lng)),
                _ => None,
            }
        } else {
            None
        },
        _ => None,
    }
}

/// Latitude and longitude from two fields, when both are numbers.
pub open spec fn fields_pair(data: JsonValue, lat_key: Seq<char>, lng_key: Seq<char>) -> Option<(JsonNumber, JsonNumber)> {
    match (data.spec_get(lat_key), data.spec_get(lng_key)) {
        (Some(a), Some(b)) => match (a.spec_as_number(), b.spec_as_number()) {
            (Some(lat), Some(lng)) => Some((lat, lng)),
            _ => None,
        },
        _ => None,
    }
}

/// The first layout that gives coordinates, before the `gps` object is
/// consulted: a `coordinates` array, a `map` array, `lat`/`lng` fields,
/// `latitude`/`longitude` fields.
pub open spec fn coordinates_before_gps(data: JsonValue) -> Option<(JsonNumber, JsonNumber)> {
    match pair_under(data, "coordinates"@) {
        Some(p) => Some(p),
        None => match pair_under(data, "map"@) {
            Some(p) => Some(p),
            None => match fields_pair(data, "lat"@, "lng"@) {
                Some(p) => Some(p),
                None => fields_pair(data, "latitude"@, "longitude"@),
            },
        },
    }
}

/// The coordinates a location payload gives: those of
/// [`coordinates_before_gps`], else `lat` and `lon` of a `gps` object.
pub open spec fn coordinates_of(data: JsonValue) -> Option<(JsonNumber, JsonNumber)> {
    match coordinates_before_gps(data) {
        Some(p) => Some(p),
        None => match data.spec_get("gps"@) {
            Some(JsonValue::Object(g)) => match (entry_for(g@, "lat"@), entry_for(g@, "lon"@)) {
                (Some(a), Some(b)) => match (a.spec_as_number(), b.spec_as_number()) {
                    (Some(lat), Some(lng)) => Some((lat, lng)),
                    _ => None,
                },
                _ => None,
            },
            _ => None,
        },
    }
}

/// Reading the payload never looks up a key that a `gps` object lacks:
/// when no earlier layout matches and `gps` is an object, it holds both
/// `lat` and `lon` (indexing a JSON object by a missing key panics).
pub open spec fn gps_lookup_safe(data: JsonValue) -> bool {
    coordinates_before_gps(data) is Some || match data.spec_get("gps"@) {
        Some(JsonValue::Object(g)) => entry_for(g@, "lat"@) is Some && entry_for(g@, "lon"@) is Some,
        _ => true,
    }
}

fn pair_from_array(data: &JsonValue, key: &str) -> (r: Option<(JsonNumber, JsonNumber)>)
    ensures
        r == pair_under(*data, key@),
{
    match data.get(key) {
        Some(JsonValue::Array(a)) => {
            if a.len() >= 2 {
                match (a[0].as_number(), a[1].as_number()) {
                    (Some(lat), Some(lng)) => Some((lat, lng)),
                    _ => None,
                }
            } else {
                None
            }
        },
        _ => None,
    }
}

fn pair_from_fields(data: &JsonValue, lat_key: &str, lng_key: &str) -> (r: Option<(JsonNumber, JsonNumber)>)
    ensures
        r == fields_pair(*data, lat_key@, lng_key@),
{
    match (data.get(lat_key), data.get(lng_key)) {
        (Some(a), Some(b)) => match (a.as_number(), b.as_number()) {
            (Some(lat), Some(lng)) => Some((lat, lng)),
            _ => None,
        },
        _ => None,
    }
}

fn early_coordinates(data: &JsonValue) -> (r: Option<(JsonNumber, JsonNumber)>)
    ensures
        r == coordinates_before_gps(*data),
{
    match pair_from_array(data, "coordinates") {
        Some(p) => Some(p),
        None => match pair_from_array(data, "map") {
            Some(p) => Some(p),
            None => match pair_from_fields(data, "lat", "lng") {
                Some(p) => Some(p),
                None => pair_from_fields(data, "latitude", "longitude"),
            },
        },
    }
}

/// Whether reading coordinates from `data` stays clear of missing `gps`
/// keys.
pub fn is_gps_lookup_safe(data: &JsonValue) -> (r: bool)
    ensures
        r == gps_lookup_safe(*data),
{
    if early_coordinates(data).is_some() {
        return true;
    }
    match data.get("gps") {
        Some(JsonValue::Object(g)) => crate::json::object_get(g, "lat").is_some() && crate::json::object_get(
            g,
            "lon",
        ).is_some(),
        _ => true,
    }
}

/// The latitude and longitude a location payload gives, tried in the
/// layouts of [`coordinates_of`].
pub fn extract_coordinates(data: &JsonValue) -> (r: Option<(JsonNumber, JsonNumber)>)
    requires
        gps_lookup_safe(*data),
    ensures
        r == coordinates_of(*data),
{
    match early_coordinates(data) {
        Some(p) => Some(p),
        None => match data.get("gps") {
            Some(JsonValue::Object(g)) => match (crate::json::object_get(g, "lat"), crate::json::object_get(g, "lon")) {
                (Some(a), Some(b)) => match (a.as_number(), b.as_number()) {
                    (Some(lat), Some(lng)) => Some((lat, lng)),
                    _ => None,
                },
                _ => None,
            },
            _ => None,
        },
    }
}

/// Where the latest position of a topic is to be read from.
#[derive(Debug)]
pub enum LocationLookup {
    /// The coordinates of the latest entry and its timestamp.
    Found { lat: JsonNumber, lng: JsonNumber, timestamp: String },
    /// The latest entry keeps its payload as JSON text; once parsed, the
    /// coordinates are read from it with [`extract_coordinates`].
    ParsePayload { payload: String, timestamp: String },
    /// No position can be read.
    NotFound,
}

/// The latest entry of a data response: the first element of its `data`
/// array.
pub open spec fn latest_entry(response: JsonValue) -> Option<JsonValue> {
    match response.spec_get("data"@) {
        Some(JsonValue::Array(a)) => if a@.len() > 0 { Some(a@[0]) } else { None },
        _ => None,
    }
}

/// An entry's `timestamp` when it is a string, else empty.
pub open spec fn timestamp_or_empty(entry: JsonValue) -> Seq<char> {
    match entry.spec_get("timestamp"@) {
        Some(JsonValue::String(s)) => s@,
        _ => Seq::empty(),
    }
}

/// Reading the response's latest entry never looks up a missing `gps` key.
pub open spec fn location_lookup_safe(response: JsonValue) -> bool {
    match latest_entry(response) {
        Some(e) => match e.spec_get("data"@) {
            Some(d) => d is Object ==> gps_lookup_safe(d),
            None => true,
        },
        None => true,
    }
}

fn timestamp_text(entry: &JsonValue) -> (r: String)
    ensures
        r@ == timestamp_or_empty(*entry),
{
    match entry.get("timestamp") {
        Some(JsonValue::String(s)) => s.clone(),
        _ => String::new(),
    }
}

/// Where the latest position is in a data response: the coordinates of the
/// first entry's `data` object; else, when that entry keeps a
/// `data_payload` string, that text to be parsed; else nothing.
pub fn latest_location(response: &JsonValue) -> (r: LocationLookup)
    requires
        location_lookup_safe(*response),
    ensures
        match latest_entry(*response) {
            None => r is NotFound,
            Some(e) => match e.spec_get("data"@) {
                Some(d) if d is Object => match coordinates_of(d) {
                    Some((lat, lng)) => r matches LocationLookup::Found { lat: a, lng: b, timestamp: t } && a
                        == lat && b == lng && t@ == timestamp_or_empty(e),
                    None => r is NotFound,
                },
                _ => match e.spec_get("data_payload"@) {
                    Some(JsonValue::String(p)) => r matches LocationLookup::ParsePayload {
                        payload: q,
                        timestamp: t,
                    } && q@ == p@ && t@ == timestamp_or_empty(e),
                    _ => r is NotFound,
                },
            },
        },
{
    let entry = match response.get("data") {
        Some(JsonValue::Array(a)) => {
            if a.len() > 0 {
                &a[0]
            } else {
                return LocationLookup::NotFound;
            }
        },
        _ => return LocationLookup::NotFound,
    };
    match entry.get("data") {
        Some(d) => {
            if let JsonValue::Object(_) = d {
                return match extract_coordinates(d) {
                    Some((lat, lng)) => LocationLookup::Found { lat, lng, timestamp: timestamp_text(entry) },
                    None => LocationLookup::NotFound,
                };
            }
        },
        None => {},
    }
    match entry.get("data_payload") {
        Some(JsonValue::String(p)) => LocationLookup::ParsePayload {
            payload: p.clone(),
            timestamp: timestamp_text(entry),
        },
        _ => LocationLookup::NotFound,
    }
}

/// The status of a device in a device listing: the `status` string of the
/// first entry whose `device_id` is `device_id`, or `Unknown` when there is
/// no such entry or its status is not a string.
pub open spec fn status_in_listing(devices: Seq<JsonValue>, device_id: Seq<char>) -> Seq<char>
    decreases devices.len(),
{
    if devices.len() == 0 {
        "Unknown"@
    } else {
        match devices[0].spec_get("device_id"@) {
            Some(JsonValue::String(id)) if id@ == device_id => match devices[0].spec_get("status"@) {
                Some(JsonValue::String(s)) => s@,
                _ => "Unknown"@,
            },
            _ => status_in_listing(devices.drop_first(), device_id),
        }
    }
}

/// Looks up a device's status in a device listing.
pub fn device_status_in(devices: &[JsonValue], device_id: &str) -> (r: String)
    ensures
        r@ == status_in_listing(devices@, device_id@),
{
    let mut i: usize = 0;
    assert(devices@.subrange(0, devices@.len() as int) =~= devices@);
    while i < devices.len()
        invariant
            i <= devices@.len(),
            status_in_listing(devices@, device_id@) == status_in_listing(
                devices@.subrange(i as int, devices@.len() as int),
                device_id@,
            ),
        decreases devices@.len() - i,
    {
        let ghost rest = devices@.subrange(i as int, devices@.len() as int);
        assert(rest[0] == devices@[i as int]);
        assert(rest.drop_first() =~= devices@.subrange(i + 1, devices@.len() as int));
        match devices[i].get("device_id") {
            Some(JsonValue::String(id)) => {
                if str_equal(id.as_str(), device_id) {
                    return match devices[i].get("status") {
                        Some(JsonValue::String(s)) => s.clone(),
                        _ => owned("Unknown"),
                    };
                }
            },
            _ => {},
        }
        i = i + 1;
    }
    owned("Unknown")
}

/// The marker colour for a device status: green online, amber on warning,
/// red otherwise.
pub fn marker_color(status: &str) -> (r: &'static str)
    ensures
        r@ == if status@ == "Online"@ {
            "#22c55e"@
        } else if status@ == "Warning"@ {
            "#f59e0b"@
        } else {
            "#ef4444"@
        },
{
    if str_equal(status, "Online") {
        "#22c55e"
    } else if str_equal(status, "Warning") {
        "#f59e0b"
    } else {
        "#ef4444"
    }
}

} // verus!
