use pulson::json::{JsonNumber, JsonValue};
use pulson::pulses::{
    box_count, calculate_interval_times, count_pulses_in_interval, domino_boxes_at, generate_domino_boxes,
    get_time_range_description, latest_active_pulse, pulse_statistics_at, DominoStatus,
};
use pulson::time::Timestamp;

fn rfc3339(secs: i64) -> String {
    chrono::DateTime::from_timestamp(secs, 0).unwrap().to_rfc3339()
}

fn entry(secs: i64, count: Option<i64>) -> JsonValue {
    let mut e = vec![("timestamp".to_string(), JsonValue::String(rfc3339(secs)))];
    if let Some(c) = count {
        let n = if c >= 0 { JsonNumber::PosInt(c as u64) } else { JsonNumber::NegInt(c) };
        e.push(("pulse_count".to_string(), JsonValue::Number(n)));
    }
    JsonValue::Object(e)
}

const NOW: i64 = 1_700_000_000;

#[test]
fn box_counts_per_range() {
    assert_eq!(box_count("1h"), 30);
    assert_eq!(box_count("1d"), 24);
    assert_eq!(box_count("1w"), 14);
    assert_eq!(box_count("1m"), 30);
    assert_eq!(box_count("5y"), 30);
}

#[test]
fn intervals_end_at_now() {
    let now = Timestamp::from_seconds(NOW);
    let (s, e, _) = calculate_interval_times("1d", 23, 24, &now);
    assert_eq!(e, now);
    assert_eq!(s, now.shift_seconds(-3600));
    let (s, e, _) = calculate_interval_times("1h", 0, 30, &now);
    assert_eq!(e, now.shift_seconds(-58 * 60));
    assert_eq!(s, now.shift_seconds(-60 * 60));
    let (s, e, label) = calculate_interval_times("other", 3, 30, &now);
    assert_eq!((s, e), (now.shift_seconds(-3600), now));
    assert_eq!(label, "Unknown");
    let t = Timestamp::from_seconds(3600 * 9 + 60 * 5);
    let (_, _, label) = calculate_interval_times("1h", 29, 30, &t);
    assert_eq!(label, "9:03");
    let (_, _, label) = calculate_interval_times("1d", 23, 24, &t);
    assert_eq!(label, "8:00");
}

#[test]
fn counting_pulses_in_an_interval() {
    let data = vec![entry(100, Some(3)), entry(150, None), entry(200, Some(5)), entry(99, Some(1))];
    let c = count_pulses_in_interval(&data, &Timestamp::from_seconds(100), &Timestamp::from_seconds(200));
    assert_eq!(c, 4);
    assert_eq!(latest_active_pulse(&data), Some(Timestamp::from_seconds(200)));
    let quiet = vec![entry(100, Some(0))];
    assert_eq!(latest_active_pulse(&quiet), None);
}

#[test]
fn boxes_without_history_are_grey() {
    let boxes = generate_domino_boxes("1w", None);
    assert_eq!(boxes.len(), 14);
    assert!(boxes.iter().all(|b| b.status == DominoStatus::Gray && b.label.is_empty()));
    assert_eq!(boxes[0].tooltip, "Interval 1: No data available");
    assert_eq!(boxes[13].tooltip, "Interval 14: No data available");
}

#[test]
fn boxes_are_coloured_by_activity() {
    let now = Timestamp::from_seconds(NOW);
    let data = vec![entry(NOW - 3600 * 5 + 10, Some(2)), entry(NOW - 3600 * 2 + 10, Some(1))];
    let boxes = domino_boxes_at("1d", Some(&data), &now);
    assert_eq!(boxes.len(), 24);
    // Box 19 covers five to four hours back, box 22 two hours back to one.
    assert_eq!(boxes[19].status, DominoStatus::Orange);
    assert_eq!(boxes[22].status, DominoStatus::Green);
    assert_eq!(boxes[23].status, DominoStatus::Red);
    assert_eq!(boxes[0].status, DominoStatus::Red);
    assert!(boxes[19].tooltip.starts_with("Interval 20 ("));
    assert!(boxes[19].tooltip.ends_with("): 2 pulses"));
    assert!(boxes[22].tooltip.ends_with("): 1 pulse"));
    assert!(boxes[23].tooltip.ends_with("): 0 pulses"));
}

#[test]
fn statistics_of_a_history() {
    let now = Timestamp::from_seconds(NOW);
    let data = vec![entry(NOW - 600, Some(2)), entry(NOW - 120, None), entry(NOW - 7200, Some(3))];
    let s = pulse_statistics_at("1d", Some(&data), &now);
    assert_eq!(s.total_pulses, 6);
    assert_eq!(s.pulse_spacing, Some((118, 2)));
    assert_eq!(s.most_recent_pulse, Some("2m ago".to_string()));
    assert_eq!(s.active_intervals, 2);
    assert_eq!(s.peak_activity_interval, None);
    let empty = pulse_statistics_at("1d", None, &now);
    assert_eq!(empty.total_pulses, 0);
    assert_eq!(empty.most_recent_pulse, None);
}

#[test]
fn range_descriptions() {
    assert_eq!(get_time_range_description("1h"), "30 boxes, 2-minute intervals");
    assert_eq!(get_time_range_description("1d"), "24 boxes, hourly intervals");
    assert_eq!(get_time_range_description("1w"), "14 boxes, 12-hour day/night intervals");
    assert_eq!(get_time_range_description("1m"), "30 boxes, daily intervals");
    assert_eq!(get_time_range_description("x"), "Time intervals");
}

#[test]
fn statistics_at_the_current_instant() {
    let recent = chrono::Utc::now().timestamp() - 30;
    let data = vec![entry(recent, Some(4))];
    let s = pulson::pulses::calculate_pulse_statistics("1h", Some(&data));
    assert_eq!(s.total_pulses, 4);
    assert_eq!(s.pulse_spacing, None);
    assert_eq!(s.most_recent_pulse, Some("0m ago".to_string()));
    let none = pulson::pulses::calculate_pulse_statistics("1h", None);
    assert_eq!(none.active_intervals, 0);
}

#[test]
fn consecutive_boxes_share_their_boundary() {
    let now = Timestamp::from_seconds(NOW);
    for range in ["1h", "1d", "1w", "1m"] {
        let n = box_count(range);
        for i in 0..n - 1 {
            let (_, end, _) = calculate_interval_times(range, i, n, &now);
            let (start, _, _) = calculate_interval_times(range, i + 1, n, &now);
            assert_eq!(end, start);
        }
        let (_, last_end, _) = calculate_interval_times(range, n - 1, n, &now);
        assert_eq!(last_end, now);
    }
}
