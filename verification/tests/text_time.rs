use pulson::text::{parse_u16, parse_u64, shorten, split_once_str};
use pulson::time::{
    format_day_month, format_day_month_year_time, hour, minute, now, parse_rfc3339, parse_rfc3339_local,
    seconds_between, Timestamp,
};

#[test]
fn numbers_parse_like_str_parse() {
    assert_eq!(parse_u64("42"), Some(42));
    assert_eq!(parse_u64("+7"), Some(7));
    assert_eq!(parse_u64(""), None);
    assert_eq!(parse_u64("-1"), None);
    assert_eq!(parse_u64("18446744073709551615"), Some(u64::MAX));
    assert_eq!(parse_u64("18446744073709551616"), None);
    assert_eq!(parse_u16("65535"), Some(65535));
    assert_eq!(parse_u16("65536"), None);
    assert_eq!(parse_u16("12a"), None);
}

#[test]
fn splitting_at_the_first_separator() {
    assert_eq!(split_once_str("dev|temp|x", '|'), Some(("dev".to_string(), "temp|x".to_string())));
    assert_eq!(split_once_str("nothing", '|'), None);
    assert_eq!(split_once_str("|", '|'), Some((String::new(), String::new())));
}

#[test]
fn long_labels_are_cut_at_a_byte_boundary() {
    assert_eq!(shorten("short", 23, 20), "short");
    assert_eq!(shorten("abcdefghijklmnopqrstuvwxyz", 23, 20), "abcdefghijklmnopqrst...");
    assert_eq!(shorten("ééééééééééééé", 23, 20), "éééééééééé...");
}

#[test]
fn rfc3339_instants() {
    let t = parse_rfc3339("1970-01-01T01:00:00Z").unwrap();
    assert_eq!(t, Timestamp::from_seconds(3600));
    let u = parse_rfc3339("1970-01-01T02:00:00.5+01:00").unwrap();
    assert_eq!(u.secs, 3600);
    assert_eq!(u.nanos, 500_000_000);
    assert_eq!(parse_rfc3339("yesterday"), None);
    let local = parse_rfc3339_local("1970-01-01T02:00:00+01:00").unwrap();
    assert_eq!(local.secs, 7200);
}

#[test]
fn clock_parts_and_differences() {
    let t = Timestamp::from_seconds(3600 * 13 + 60 * 7 + 5);
    assert_eq!(hour(&t), 13);
    assert_eq!(minute(&t), 7);
    let before = Timestamp::from_seconds(-1);
    assert_eq!(hour(&before), 23);
    assert_eq!(minute(&before), 59);
    let a = Timestamp::from_parts(10, 900_000_000).unwrap();
    let b = Timestamp::from_parts(5, 0).unwrap();
    assert_eq!(seconds_between(&a, &b), 5);
    assert_eq!(seconds_between(&b, &a), -5);
    assert_eq!(Timestamp::from_parts(0, 1_000_000_000), None);
    assert!(now().secs > 1_600_000_000);
}

#[test]
fn day_month_formats() {
    let t = Timestamp::from_seconds(86400 * 31 + 3600 * 4 + 5);
    assert_eq!(format_day_month(&t), "01/02");
    assert_eq!(format_day_month_year_time(&t), "01/02/1970 04:00:05");
}
