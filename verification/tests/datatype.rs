use pulson::datatype::{bytes_from_array, DataType};
use pulson::json::{JsonNumber, JsonValue};

fn float(x: f64) -> JsonValue {
    JsonValue::Number(JsonNumber::Float(x.to_bits()))
}

fn fnum(x: f64) -> JsonNumber {
    JsonNumber::Float(x.to_bits())
}

fn object(entries: Vec<(&str, JsonValue)>) -> JsonValue {
    JsonValue::Object(entries.into_iter().map(|(k, v)| (k.to_string(), v)).collect())
}

#[test]
fn test_pulse_detection() {
    assert_eq!(DataType::from_json(&JsonValue::Null, "heartbeat"), Some(DataType::Pulse));

    assert_eq!(DataType::from_json(&object(vec![]), "ping"), Some(DataType::Pulse));

    assert_eq!(
        DataType::from_json(&object(vec![("ping", JsonValue::Null)]), "status"),
        Some(DataType::Pulse)
    );
}

#[test]
fn test_gps_detection() {
    // Array format
    assert_eq!(
        DataType::from_json(&JsonValue::Array(vec![float(40.7128), float(-74.0060)]), "gps_location"),
        Some(DataType::GPS { lat: fnum(40.7128), lon: fnum(-74.0060), alt: None })
    );

    // Object format
    assert_eq!(
        DataType::from_json(&object(vec![("lat", float(40.7128)), ("lon", float(-74.0060))]), "coordinates"),
        Some(DataType::GPS { lat: fnum(40.7128), lon: fnum(-74.0060), alt: None })
    );
}

#[test]
fn test_sensor_detection() {
    assert_eq!(
        DataType::from_json(&float(23.5), "temperature"),
        Some(DataType::Sensor { value: fnum(23.5) })
    );

    assert_eq!(
        DataType::from_json(&object(vec![("value", float(75.2))]), "humidity"),
        Some(DataType::Sensor { value: fnum(75.2) })
    );
}

#[test]
fn test_trigger_detection() {
    assert_eq!(
        DataType::from_json(&JsonValue::Bool(true), "switch"),
        Some(DataType::Trigger { state: true })
    );

    assert_eq!(
        DataType::from_json(&object(vec![("state", JsonValue::Bool(false))]), "door"),
        Some(DataType::Trigger { state: false })
    );
}

#[test]
fn test_event_detection() {
    assert_eq!(
        DataType::from_json(&JsonValue::String("System started".to_string()), "log"),
        Some(DataType::Event { message: "System started".to_string() })
    );
}

#[test]
fn test_type_names() {
    assert_eq!(DataType::Pulse.data_type_name(), "pulse");
    assert_eq!(DataType::GPS { lat: fnum(0.0), lon: fnum(0.0), alt: None }.data_type_name(), "gps");
    assert_eq!(DataType::Sensor { value: fnum(0.0) }.data_type_name(), "sensor");
    assert_eq!(DataType::Trigger { state: true }.data_type_name(), "trigger");
    assert_eq!(DataType::Event { message: "test".to_string() }.data_type_name(), "event");
    assert_eq!(DataType::Image { rows: 10, cols: 10, channels: 3, data: vec![] }.data_type_name(), "image");
}

#[test]
fn array_on_a_non_gps_topic_is_not_a_position() {
    let arr = JsonValue::Array(vec![float(1.0), float(2.0)]);
    assert_eq!(DataType::from_json(&arr, "readings"), None);
    let three = JsonValue::Array(vec![float(1.0), float(2.0), float(3.0)]);
    assert_eq!(
        DataType::from_json(&three, "my_GPS"),
        Some(DataType::GPS { lat: fnum(1.0), lon: fnum(2.0), alt: Some(fnum(3.0)) })
    );
}

#[test]
fn image_needs_matching_byte_count() {
    let px = |n: u64| JsonValue::Number(JsonNumber::PosInt(n));
    let img = object(vec![
        ("rows", px(1)),
        ("cols", px(2)),
        ("channels", px(1)),
        ("data", JsonValue::Array(vec![px(7), px(300)])),
    ]);
    assert_eq!(
        DataType::from_json(&object(vec![("image", img)]), "cam"),
        Some(DataType::Image { rows: 1, cols: 2, channels: 1, data: vec![7, 44] })
    );
    let bad = object(vec![
        ("rows", px(2)),
        ("cols", px(2)),
        ("data", JsonValue::Array(vec![px(1)])),
    ]);
    assert_eq!(DataType::parse_image_object(match &bad { JsonValue::Object(e) => e, _ => unreachable!() }), None);
}

#[test]
fn topic_names_are_matched_case_insensitively() {
    assert!(DataType::is_gps_topic("Vehicle/LOCATION"));
    assert!(!DataType::is_gps_topic("temperature"));
    assert!(DataType::is_image_topic("FrontCamera"));
    assert!(!DataType::is_image_topic("door"));
}

#[test]
fn bytes_keep_their_low_eight_bits() {
    let arr = vec![
        JsonValue::Number(JsonNumber::PosInt(255)),
        JsonValue::Number(JsonNumber::PosInt(256)),
        JsonValue::String("x".to_string()),
        JsonValue::Number(JsonNumber::PosInt(513)),
    ];
    assert_eq!(bytes_from_array(&arr), vec![255, 0, 1]);
}

#[test]
fn objects_holding_only_nulls_are_pulses() {
    assert_eq!(
        DataType::from_json(&object(vec![("status", JsonValue::Null)]), "/robo/status"),
        Some(DataType::Pulse)
    );
    assert_eq!(
        DataType::from_json(&object(vec![("a", JsonValue::Null), ("b", JsonValue::Null)]), "x"),
        Some(DataType::Pulse)
    );
    assert_eq!(
        DataType::from_json(&object(vec![("a", JsonValue::Null), ("value", float(2.5))]), "x"),
        Some(DataType::Sensor { value: fnum(2.5) })
    );
}

#[test]
fn image_dimensions_that_overflow_are_refused() {
    let n = |v: u64| JsonValue::Number(JsonNumber::PosInt(v));
    let img = object(vec![
        ("rows", n(65536)),
        ("cols", n(65536)),
        ("data", JsonValue::Array(vec![])),
    ]);
    assert_eq!(DataType::from_json(&object(vec![("image", img)]), "cam"), None);
}
