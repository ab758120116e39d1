use pulson::dashboard::{
    format_exact_time, format_relative_seconds, get_device_status_class, get_topic_status_class, select_topic,
    topic_view, TopicView,
};
use pulson::events::{
    categorize_message, category_count, events_in_category, get_category_class, get_category_icon, parse_event_entries,
    EventCategory, EventEntry,
};
use pulson::image::{data_size, format_image_dimensions, format_image_timestamp, image_layout, rgba_from_pixels, SizeUnit};
use pulson::json::{JsonNumber, JsonValue};
use pulson::location::{
    device_status_in, extract_coordinates, is_gps_lookup_safe, latest_location, marker_color, LocationLookup,
};
use pulson::sensor::{parse_latest_sensor_reading, parse_sensor_readings, DEFAULT_MAX_BITS, DEFAULT_MIN_BITS};
use pulson::time::Timestamp;
use pulson::trigger::{format_duration, parse_trigger_states, time_ago_at, trigger_stats_at, trigger_summary};

fn s(x: &str) -> JsonValue {
    JsonValue::String(x.to_string())
}

fn num(n: u64) -> JsonValue {
    JsonValue::Number(JsonNumber::PosInt(n))
}

fn float(x: f64) -> JsonValue {
    JsonValue::Number(JsonNumber::Float(x.to_bits()))
}

fn obj(entries: Vec<(&str, JsonValue)>) -> JsonValue {
    JsonValue::Object(entries.into_iter().map(|(k, v)| (k.to_string(), v)).collect())
}

fn at(secs: i64) -> String {
    chrono::DateTime::from_timestamp(secs, 0).unwrap().to_rfc3339()
}

fn trigger_entry(secs: i64, state: bool) -> JsonValue {
    obj(vec![("timestamp", s(&at(secs))), ("data", obj(vec![("Trigger", obj(vec![("state", JsonValue::Bool(state))]))]))])
}

#[test]
fn trigger_states_newest_first() {
    let data = vec![
        trigger_entry(100, true),
        trigger_entry(300, false),
        obj(vec![("timestamp", s("bad")), ("data", obj(vec![]))]),
        trigger_entry(200, true),
    ];
    let states = parse_trigger_states(&data);
    let got: Vec<(i64, bool)> = states.iter().map(|t| (t.timestamp.secs, t.state)).collect();
    assert_eq!(got, vec![(300, false), (200, true), (100, true)]);
}

#[test]
fn trigger_statistics() {
    let now = Timestamp::from_seconds(400);
    let data = vec![trigger_entry(100, true), trigger_entry(300, true), trigger_entry(200, false)];
    let states = parse_trigger_states(&data);
    let stats = trigger_stats_at(&states, &now);
    // On from 100 to 200, off until 300, on since then: 100 + 100 seconds.
    assert_eq!(stats.active_seconds, 200);
    assert_eq!(stats.span_seconds, 200);
    assert_eq!(stats.span_hours, 0);
    assert_eq!(stats.changes, 2);
    assert_eq!(stats.current_state_duration, Some("1m".to_string()));
    let single = parse_trigger_states(&[trigger_entry(100, false)]);
    let one = trigger_stats_at(&single, &now);
    assert_eq!(one.span_seconds, 3600);
    assert_eq!(one.span_hours, 1);
    assert_eq!(one.active_seconds, 0);
    let none = trigger_stats_at(&[], &now);
    assert_eq!(none.changes, 0);
    assert_eq!(none.current_state_duration, None);
    let (states, stats) = trigger_summary(&data);
    assert_eq!(states.len(), 3);
    assert_eq!(stats.changes, 2);
}

#[test]
fn durations_and_ages() {
    assert_eq!(format_duration(42), "42s");
    assert_eq!(format_duration(-3), "-3s");
    assert_eq!(format_duration(125), "2m");
    assert_eq!(format_duration(3600 * 5 + 60 * 7), "5h 7m");
    assert_eq!(format_duration(86400 * 2 + 3600 * 3), "2d 3h");
    let now = Timestamp::from_seconds(100_000);
    assert_eq!(time_ago_at(&now, &Timestamp::from_seconds(99_990)), "10s ago");
    assert_eq!(time_ago_at(&now, &Timestamp::from_seconds(100_000 - 7200)), "2h ago");
    assert_eq!(time_ago_at(&now, &Timestamp::from_seconds(0)), "1d ago");
    assert_eq!(format_relative_seconds(0), "just now");
    assert_eq!(format_relative_seconds(59), "59s ago");
    assert_eq!(format_relative_seconds(61), "1m ago");
    assert_eq!(format_relative_seconds(7200), "2h ago");
    assert_eq!(format_relative_seconds(90000), "1d ago");
}

#[test]
fn event_categories() {
    assert_eq!(categorize_message("Disk FAILURE on sda"), EventCategory::Error);
    assert_eq!(categorize_message("Warning: low battery"), EventCategory::Warning);
    assert_eq!(categorize_message("Backup complete"), EventCategory::Success);
    assert_eq!(categorize_message("trace id 7"), EventCategory::Debug);
    assert_eq!(categorize_message("System started"), EventCategory::Info);
    // Earlier rules win: an error that completed is still an error.
    assert_eq!(categorize_message("error handling complete"), EventCategory::Error);
    assert_eq!(get_category_class(&EventCategory::Warning), "warning");
    assert_eq!(get_category_icon(&EventCategory::Error), "\u{1F534}");
}

#[test]
fn event_entries_newest_first() {
    let ev = |secs: i64, m: &str| {
        obj(vec![("timestamp", s(&at(secs))), ("data", obj(vec![("Event", obj(vec![("message", s(m))]))]))])
    };
    let data = vec![ev(10, "boot ok"), ev(30, "alert!"), obj(vec![("timestamp", s(&at(20)))])];
    let events = parse_event_entries(&data);
    assert_eq!(events.len(), 2);
    assert_eq!(events[0].message, "alert!");
    assert_eq!(events[0].category, EventCategory::Warning);
    assert_eq!(events[1].category, EventCategory::Success);
}

#[test]
fn sensor_readings() {
    let rd = |secs: i64, sensor: JsonValue| obj(vec![("timestamp", s(&at(secs))), ("data", obj(vec![("Sensor", sensor)]))]);
    let data = vec![
        rd(1, obj(vec![("value", float(21.5)), ("min", num(0)), ("max", num(50))])),
        rd(2, obj(vec![("value", s("n/a"))])),
        rd(3, obj(vec![("value", num(7))])),
    ];
    let r = parse_sensor_readings(&data);
    assert_eq!(r.len(), 2);
    assert_eq!(r[0].value, JsonNumber::Float(21.5f64.to_bits()));
    assert_eq!(r[0].max, JsonNumber::PosInt(50));
    assert_eq!(r[1].min, JsonNumber::Float(DEFAULT_MIN_BITS));
    assert_eq!(r[1].max, JsonNumber::Float(DEFAULT_MAX_BITS));
    assert_eq!(f64::from_bits(DEFAULT_MIN_BITS), 1.0);
    assert_eq!(f64::from_bits(DEFAULT_MAX_BITS), 100.0);
    assert_eq!(parse_latest_sensor_reading(&data).unwrap().timestamp.secs, 3);
    assert_eq!(parse_latest_sensor_reading(&data[..2]), None);
    assert_eq!(parse_latest_sensor_reading(&[]), None);
}

#[test]
fn image_details() {
    let e = obj(vec![("timestamp", s("2024-03-05T14:07:09+02:00"))]);
    assert_eq!(format_image_timestamp(&e), "05/03/2024 14:07:09");
    assert_eq!(format_image_timestamp(&obj(vec![("timestamp", s("later"))])), "later");
    assert_eq!(format_image_timestamp(&obj(vec![])), "Unknown");
    let img = obj(vec![("rows", num(2)), ("cols", num(3)), ("data", JsonValue::Array((0..2000).map(|_| num(1)).collect()))]);
    assert_eq!(format_image_dimensions(&img), "3\u{d7}2");
    assert_eq!(format_image_dimensions(&obj(vec![])), "0\u{d7}0");
    assert_eq!(data_size(&img), Some((2000, SizeUnit::Kilobytes)));
    assert_eq!(data_size(&obj(vec![("data", JsonValue::Array(vec![]))])), Some((0, SizeUnit::Bytes)));
    assert_eq!(data_size(&obj(vec![])), None);
}

#[test]
fn canvas_pixels() {
    let entry = obj(vec![(
        "data",
        obj(vec![(
            "Image",
            obj(vec![
                ("rows", num(1)),
                ("cols", num(2)),
                ("channels", num(3)),
                ("data", JsonValue::Array(vec![num(1), num(2), num(259), num(4), num(5)])),
            ]),
        )]),
    )]);
    let (rows, cols, ch, px) = image_layout(&entry).unwrap();
    assert_eq!((rows, cols, ch), (1, 2, 3));
    // The second pixel lacks its third value and is drawn black.
    assert_eq!(rgba_from_pixels(rows, cols, ch, px), vec![1, 2, 3, 255, 0, 0, 0, 255]);
    let grey = vec![num(9), num(10)];
    assert_eq!(rgba_from_pixels(1, 2, 1, &grey), vec![9, 9, 9, 255, 10, 10, 10, 255]);
    assert!(image_layout(&obj(vec![])).is_none());
}

#[test]
fn coordinates_in_every_layout() {
    let pair = |lat: f64, lng: f64| Some((JsonNumber::Float(lat.to_bits()), JsonNumber::Float(lng.to_bits())));
    assert_eq!(extract_coordinates(&obj(vec![("coordinates", JsonValue::Array(vec![float(1.5), float(2.5)]))])), pair(1.5, 2.5));
    assert_eq!(extract_coordinates(&obj(vec![("map", JsonValue::Array(vec![float(3.0), float(4.0), float(9.0)]))])), pair(3.0, 4.0));
    assert_eq!(extract_coordinates(&obj(vec![("lat", float(5.0)), ("lng", float(6.0))])), pair(5.0, 6.0));
    assert_eq!(extract_coordinates(&obj(vec![("latitude", float(7.0)), ("longitude", float(8.0))])), pair(7.0, 8.0));
    assert_eq!(extract_coordinates(&obj(vec![("gps", obj(vec![("lat", float(1.0)), ("lon", float(2.0))]))])), pair(1.0, 2.0));
    assert_eq!(extract_coordinates(&obj(vec![("lat", float(5.0))])), None);
    let unsafe_gps = obj(vec![("gps", obj(vec![("lat", float(1.0))]))]);
    assert!(!is_gps_lookup_safe(&unsafe_gps));
    assert!(is_gps_lookup_safe(&obj(vec![])));
}

#[test]
fn latest_location_of_a_response() {
    let resp = obj(vec![(
        "data",
        JsonValue::Array(vec![obj(vec![
            ("timestamp", s("t1")),
            ("data", obj(vec![("lat", float(1.0)), ("lng", float(2.0))])),
        ])]),
    )]);
    match latest_location(&resp) {
        LocationLookup::Found { timestamp, .. } => assert_eq!(timestamp, "t1"),
        other => panic!("unexpected {:?}", other),
    }
    let old = obj(vec![(
        "data",
        JsonValue::Array(vec![obj(vec![("data_payload", s("{\"lat\":1,\"lng\":2}"))])]),
    )]);
    match latest_location(&old) {
        LocationLookup::ParsePayload { payload, timestamp } => {
            assert_eq!(payload, "{\"lat\":1,\"lng\":2}");
            assert_eq!(timestamp, "");
        }
        other => panic!("unexpected {:?}", other),
    }
    assert!(matches!(latest_location(&obj(vec![])), LocationLookup::NotFound));
}

#[test]
fn device_status_and_markers() {
    let devices = vec![
        obj(vec![("device_id", s("a")), ("status", s("Online"))]),
        obj(vec![("device_id", s("b"))]),
        obj(vec![("device_id", s("b")), ("status", s("Offline"))]),
    ];
    assert_eq!(device_status_in(&devices, "a"), "Online");
    assert_eq!(device_status_in(&devices, "b"), "Unknown");
    assert_eq!(device_status_in(&devices, "c"), "Unknown");
    assert_eq!(marker_color("Online"), "#22c55e");
    assert_eq!(marker_color("Warning"), "#f59e0b");
    assert_eq!(marker_color("Offline"), "#ef4444");
}

#[test]
fn dashboard_choices() {
    assert_eq!(get_device_status_class("Online"), "online");
    assert_eq!(get_device_status_class("Gone"), "unknown");
    assert_eq!(get_topic_status_class("Recent"), "warning");
    assert_eq!(get_topic_status_class("Inactive"), "offline");
    assert_eq!(topic_view("gps"), TopicView::Location);
    assert_eq!(topic_view("bytes"), TopicView::Unsupported);
    assert_eq!(format_exact_time("2024-01-02T03:04:05Z"), Some("02/01/2024 03:04:05".to_string()));
    assert_eq!(format_exact_time("nope"), None);
    assert_eq!(select_topic(None, "a".to_string()), Some("a".to_string()));
    assert_eq!(select_topic(Some("a".to_string()), "a".to_string()), None);
    assert_eq!(select_topic(Some("a".to_string()), "b".to_string()), Some("b".to_string()));
}

#[test]
fn time_ago_at_the_current_instant() {
    let then = pulson::time::now().shift_seconds(-7200);
    assert_eq!(pulson::trigger::format_time_ago(&then), "2h ago");
}

#[test]
fn events_are_filtered_and_counted_by_category() {
    let e = |m: &str, c: EventCategory| EventEntry {
        message: m.to_string(),
        timestamp: Timestamp::from_seconds(0),
        category: c,
    };
    let events = vec![
        e("boot", EventCategory::Info),
        e("disk error", EventCategory::Error),
        e("fan", EventCategory::Info),
    ];
    let info = events_in_category(&events, Some(EventCategory::Info));
    assert_eq!(info.iter().map(|x| x.message.as_str()).collect::<Vec<_>>(), vec!["boot", "fan"]);
    assert_eq!(events_in_category(&events, None).len(), 3);
    assert_eq!(category_count(&events, EventCategory::Info), 2);
    assert_eq!(category_count(&events, EventCategory::Error), 1);
    assert_eq!(category_count(&events, EventCategory::Debug), 0);
}
