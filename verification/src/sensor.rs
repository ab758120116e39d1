//! Sensor history: the readings reported on a sensor topic, each with the
//! range it is drawn against.
use vstd::prelude::*;
use crate::json::{JsonNumber, JsonValue};
use crate::pulses::{entry_timestamp, timestamp_of_entry};
use crate::time::Timestamp;

verus! {

/// The bits of the `f64` 1.0, the lower bound assumed when a reading has
/// none.
pub const DEFAULT_MIN_BITS: u64 = 0x3FF0_0000_0000_0000;

/// The bits of the `f64` 100.0, the upper bound assumed when a reading has
/// none.
pub const DEFAULT_MAX_BITS: u64 = 0x4059_0000_0000_0000;

/// A sensor value, the range it is drawn against, and when it was reported.
#[derive(Clone, Copy, Debug, PartialEq, Eq, Structural)]
pub struct SensorReading {
    pub value: JsonNumber,
    pub min: JsonNumber,
    pub max: JsonNumber,
    pub timestamp: Timestamp,
}

/// The number stored under `key`, or `default` when there is none.
pub open spec fn number_or(v: JsonValue, key: Seq<char>, default: JsonNumber) -> JsonNumber {
    match v.spec_get(key) {
        Some(x) => match x.spec_as_number() {
            Some(n) => n,
            None => default,
        },
        None => default,
    }
}

/// The reading an entry reports: its `timestamp`, the number under
/// `data.Sensor.value`, and the numbers under `data.Sensor.min` and
/// `data.Sensor.max` (1.0 and 100.0 when absent or not numbers).
pub open spec fn entry_reading(e: JsonValue) -> Option<SensorReading> {
    match entry_timestamp(e) {
        Some(t) => match e.spec_get("data"@) {
            Some(d) => match d.spec_get("Sensor"@) {
                Some(s) => match s.spec_get("value"@) {
                    Some(v) => match v.spec_as_number() {
                        Some(value) => Some(
                            SensorReading {
                                value,
                                min: number_or(s, "min"@, JsonNumber::Float(DEFAULT_MIN_BITS)),
                                max: number_or(s, "max"@, JsonNumber::Float(DEFAULT_MAX_BITS)),
                                timestamp: t,
                            },
                        ),
                        None => None,
                    },
                    None => None,
                },
                None => None,
            },
            None => None,
        },
        None => None,
    }
}

/// The readings reported by the entries that report one, in entry order.
pub open spec fn readings_of(data: Seq<JsonValue>) -> Seq<SensorReading>
    decreases data.len(),
{
    if data.len() == 0 {
        Seq::empty()
    } else {
        let rest = readings_of(data.drop_last());
        match entry_reading(data.last()) {
            Some(r) => rest.push(r),
            None => rest,
        }
    }
}

fn number_or_default(v: &JsonValue, key: &str, default: JsonNumber) -> (r: JsonNumber)
    ensures
        r == number_or(*v, key@, default),
{
    match v.get(key) {
        Some(x) => match x.as_number() {
            Some(n) => n,
            None => default,
        },
        None => default,
    }
}

/// The reading an entry reports, if any.
pub fn reading_of_entry(e: &JsonValue) -> (r: Option<SensorReading>)
    ensures
        r == entry_reading(*e),
        r matches Some(s) ==> s.timestamp.wf(),
{
    let t = match timestamp_of_entry(e) {
        Some(t) => t,
        None => return None,
    };
    let d = match e.get("data") {
        Some(d) => d,
        None => return None,
    };
    let s = match d.get("Sensor") {
        Some(s) => s,
        None => return None,
    };
    let value = match s.get("value") {
        Some(v) => match v.as_number() {
            Some(n) => n,
            None => return None,
        },
        None => return None,
    };
    Some(
        SensorReading {
            value,
            min: number_or_default(s, "min", JsonNumber::Float(DEFAULT_MIN_BITS)),
            max: number_or_default(s, "max", JsonNumber::Float(DEFAULT_MAX_BITS)),
            timestamp: t,
        },
    )
}

/// The readings in a sensor history, in the order reported; entries without
/// a readable `timestamp` or a numeric `data.Sensor.value` are skipped.
pub fn parse_sensor_readings(data: &[JsonValue]) -> (r: Vec<SensorReading>)
    ensures
        r@ == readings_of(data@),
{
    let mut out: Vec<SensorReading> = Vec::new();
    let mut i: usize = 0;
    while i < data.len()
        invariant
            i <= data@.len(),
            out@ == readings_of(data@.subrange(0, i as int)),
        decreases data@.len() - i,
    {
        assert(data@.subrange(0, i + 1).drop_last() =~= data@.subrange(0, i as int));
        match reading_of_entry(&data[i]) {
            Some(r) => out.push(r),
            None => {},
        }
        i = i + 1;
    }
    assert(data@.subrange(0, data@.len() as int) =~= data@);
    out
}

/// The reading of the last entry of a sensor history, when it reports one
/// (earlier entries are not consulted).
pub fn parse_latest_sensor_reading(data: &[JsonValue]) -> (r: Option<SensorReading>)
    ensures
        r == if data@.len() == 0 { None } else { entry_reading(data@.last()) },
{
    if data.len() == 0 {
        None
    } else {
        reading_of_entry(&data[data.len() - 1])
    }
}

} // verus!
