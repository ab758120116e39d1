use pulson::assets::{asset_reply, AssetReply};
use pulson::client::{listed_entries, login_token, user_row};
use pulson::commands::{AccountAction, ConfigAction, DeleteDevicePayload};
use pulson::json::{JsonNumber, JsonValue};
use pulson::payload::{placeholder_pixels, pulse_payload, DecodedImage, PayloadError, PulseKind, PulseOptions};
use pulson::store::{
    device_topics, is_root_value, latest_per_device, list_users, lookup, ping_key, role_key, token_key, user_key,
};

fn kv(k: &str, v: &str) -> (Vec<u8>, Vec<u8>) {
    (k.as_bytes().to_vec(), v.as_bytes().to_vec())
}

fn no_options() -> PulseOptions {
    PulseOptions {
        latitude: None,
        longitude: None,
        altitude: None,
        value: None,
        state: None,
        message: None,
        width: None,
        height: None,
        image: None,
    }
}

fn float(x: f64) -> JsonValue {
    JsonValue::Number(JsonNumber::Float(x.to_bits()))
}

fn entries(j: &JsonValue) -> &Vec<(String, JsonValue)> {
    match j {
        JsonValue::Object(e) => e,
        _ => panic!("not an object"),
    }
}

#[test]
fn store_keys() {
    assert_eq!(user_key("ann"), "user:ann");
    assert_eq!(role_key("ann"), "role:ann");
    assert_eq!(token_key("t0"), "token:t0");
    assert_eq!(ping_key("dev", "temp"), "dev|temp");
}

#[test]
fn latest_ping_of_each_device() {
    let store = vec![
        kv("dev1|a", "2024-01-01T00:00:10Z"),
        kv("dev2|x", "2024-01-01T00:00:05Z"),
        kv("dev1|b", "2024-01-01T00:00:30Z"),
        kv("dev1|c", "2024-01-01T00:00:20Z"),
        kv("user:ann", "pw"),
        kv("dev3|y", "not a time"),
        (vec![0xff, b'|', b'z'], b"2024-01-01T00:00:00Z".to_vec()),
    ];
    let mut seen: Vec<(String, i64)> =
        latest_per_device(&store).into_iter().map(|d| (d.device_id, d.last_seen.secs)).collect();
    seen.sort();
    assert_eq!(seen, vec![("dev1".to_string(), 1704067230), ("dev2".to_string(), 1704067205)]);
    let topics: Vec<(String, i64)> =
        device_topics(&store, "dev1").into_iter().map(|t| (t.topic, t.last_seen.secs)).collect();
    assert_eq!(
        topics,
        vec![("a".to_string(), 1704067210), ("b".to_string(), 1704067230), ("c".to_string(), 1704067220)]
    );
    assert!(device_topics(&store, "dev9").is_empty());
}

#[test]
fn registered_users_with_roles() {
    let store = vec![
        kv("role:ann", "root"),
        kv("user:ann", "pw1"),
        kv("user:bob", "pw2"),
        kv("token:t1", "ann"),
    ];
    assert_eq!(
        list_users(&store),
        vec![("ann".to_string(), "root".to_string()), ("bob".to_string(), "user".to_string())]
    );
    assert_eq!(lookup(&store, b"token:t1"), Some(&b"ann"[..]));
    assert_eq!(lookup(&store, b"token:t2"), None);
    assert!(is_root_value(lookup(&store, b"role:ann")));
    assert!(!is_root_value(lookup(&store, b"role:bob")));
    assert!(!is_root_value(Some(b"rooty")));
}

#[test]
fn pulse_payloads() {
    assert_eq!(pulse_payload(PulseKind::Pulse, None, no_options()), Ok(None));
    let custom = JsonValue::Bool(true);
    assert_eq!(pulse_payload(PulseKind::Gps, Some(custom), no_options()), Ok(Some(JsonValue::Bool(true))));
    assert_eq!(pulse_payload(PulseKind::Gps, None, no_options()), Err(PayloadError::MissingCoordinates));
    assert_eq!(pulse_payload(PulseKind::Sensor, None, no_options()), Err(PayloadError::MissingValue));
    assert_eq!(pulse_payload(PulseKind::Trigger, None, no_options()), Err(PayloadError::MissingState));
    assert_eq!(pulse_payload(PulseKind::Event, None, no_options()), Err(PayloadError::MissingMessage));
    assert_eq!(pulse_payload(PulseKind::Image, None, no_options()), Err(PayloadError::MissingImage));
    assert_eq!(
        PayloadError::MissingImage.message(),
        "Image data type requires either --image-file or both --width and --height parameters"
    );

    let mut o = no_options();
    o.latitude = Some(float(40.5));
    o.longitude = Some(float(-74.25));
    let gps = pulse_payload(PulseKind::Gps, None, o).unwrap().unwrap();
    let outer = entries(&gps);
    assert_eq!(outer[0].0, "GPS");
    let inner = entries(&outer[0].1);
    assert_eq!(inner[0], ("alt".to_string(), JsonValue::Null));
    assert_eq!(inner[1], ("lat".to_string(), float(40.5)));
    assert_eq!(inner[2], ("lon".to_string(), float(-74.25)));

    let mut o = no_options();
    o.message = Some("hello".to_string());
    let ev = pulse_payload(PulseKind::Event, None, o).unwrap().unwrap();
    assert_eq!(entries(&ev)[0], ("event".to_string(), JsonValue::String("hello".to_string())));

    let mut o = no_options();
    o.width = Some(2);
    o.height = Some(1);
    let img = pulse_payload(PulseKind::Image, None, o).unwrap().unwrap();
    let body = entries(&entries(&img)[0].1);
    assert_eq!(body[0], ("channels".to_string(), JsonValue::Number(JsonNumber::PosInt(3))));
    assert_eq!(body[1], ("cols".to_string(), JsonValue::Number(JsonNumber::PosInt(2))));
    assert_eq!(body[3], ("rows".to_string(), JsonValue::Number(JsonNumber::PosInt(1))));
    match &body[2].1 {
        JsonValue::Array(a) => assert_eq!(a.len(), 6),
        _ => panic!("no pixel array"),
    }

    let mut o = no_options();
    o.image = Some(DecodedImage { width: 1, height: 1, rgb: vec![10, 20, 30] });
    let file = pulse_payload(PulseKind::Image, None, o).unwrap().unwrap();
    let body = entries(&entries(&file)[0].1);
    assert_eq!(
        body[2].1,
        JsonValue::Array(vec![
            JsonValue::Number(JsonNumber::PosInt(10)),
            JsonValue::Number(JsonNumber::PosInt(20)),
            JsonValue::Number(JsonNumber::PosInt(30)),
        ])
    );
    assert_eq!(placeholder_pixels(258)[257], 1);
}

#[test]
fn reading_client_responses() {
    let bare = JsonValue::Array(vec![JsonValue::Null]);
    assert_eq!(listed_entries(&bare, "users").map(|e| e.len()), Some(1));
    let wrapped = JsonValue::Object(vec![("topics".to_string(), JsonValue::Array(vec![]))]);
    assert_eq!(listed_entries(&wrapped, "topics").map(|e| e.len()), Some(0));
    assert!(listed_entries(&wrapped, "users").is_none());
    let login = JsonValue::Object(vec![("token".to_string(), JsonValue::String("abc".to_string()))]);
    assert_eq!(login_token(&login), Some("abc".to_string()));
    assert_eq!(login_token(&JsonValue::Null), None);
    let u = JsonValue::Object(vec![("username".to_string(), JsonValue::String("ann".to_string()))]);
    assert_eq!(user_row(&u), ("ann".to_string(), "<invalid>".to_string()));
}

#[test]
fn command_values() {
    let a = AccountAction::Register { username: "u".to_string(), password: "p".to_string(), rootpass: None };
    assert!(matches!(a, AccountAction::Register { .. }));
    let c = ConfigAction::Change { online_threshold: Some(1), warning_threshold: None, stale_threshold: None };
    assert!(matches!(c, ConfigAction::Change { online_threshold: Some(1), .. }));
    let d = DeleteDevicePayload { device_id: "x".to_string() };
    assert_eq!(d.device_id, "x");
}

#[test]
fn user_keys_are_read_leniently() {
    let store = vec![(b"user:b\xffd".to_vec(), b"pw".to_vec())];
    assert_eq!(list_users(&store), vec![("b\u{FFFD}d".to_string(), "user".to_string())]);
    let bad_role = vec![kv("user:eve", "pw"), (b"role:eve".to_vec(), vec![0xff])];
    assert_eq!(list_users(&bad_role), vec![("eve".to_string(), "user".to_string())]);
}

#[test]
fn static_files_are_typed_by_extension() {
    match asset_reply("style.css", true) {
        AssetReply::Found { content_type } => assert_eq!(content_type, "text/css"),
        other => panic!("unexpected {:?}", other),
    }
    match asset_reply("blob.zzzz", true) {
        AssetReply::Found { content_type } => assert_eq!(content_type, "application/octet-stream"),
        other => panic!("unexpected {:?}", other),
    }
    assert!(matches!(asset_reply("style.css", false), AssetReply::NotFound));
}

fn tiny_png() -> Vec<u8> {
    let img = image::RgbImage::from_raw(2, 1, vec![10, 20, 30, 40, 50, 60]).unwrap();
    let mut out = std::io::Cursor::new(Vec::new());
    image::DynamicImage::ImageRgb8(img).write_to(&mut out, image::ImageOutputFormat::Png).unwrap();
    out.into_inner()
}

#[test]
fn image_files_decode_to_rgb_pixels() {
    let bytes = tiny_png();
    let d = pulson::payload::decode_image_file("pic.png", &bytes).unwrap();
    assert_eq!((d.width, d.height), (2, 1));
    assert_eq!(d.rgb, vec![10, 20, 30, 40, 50, 60]);
    let unknown = pulson::payload::decode_image_file("pic.unknownext", &bytes).unwrap_err();
    assert!(unknown.starts_with("Failed to decode image file 'pic.unknownext': "));
    let broken = pulson::payload::decode_image_file("pic.png", &[1, 2, 3]).unwrap_err();
    assert!(broken.starts_with("Failed to decode image file 'pic.png': "));
}
