use pulson::listing::{
    device_indicator_color, filter_devices, filter_devices_at, filter_topics, filter_topics_at, format_age,
    sort_devices, sort_devices_at, sort_topics, sort_topics_at, stale_devices, stale_devices_at, status_summary,
    status_summary_at, topic_indicator_color, DeviceInfo, IndicatorColor, SortBy, StatusFilter, TopicInfo,
};
use pulson::status::{DeviceStatus, TopicStatus};
use pulson::time::{now, Timestamp};

fn ago(secs: i64) -> Timestamp {
    now().shift_seconds(-secs)
}

fn device(id: &str, secs_ago: i64) -> DeviceInfo {
    DeviceInfo { device_id: id.to_string(), last_seen: ago(secs_ago), status: DeviceStatus::Online }
}

fn topic(name: &str, secs_ago: i64) -> TopicInfo {
    TopicInfo { topic: name.to_string(), last_seen: ago(secs_ago), status: TopicStatus::Active, data_types: vec![] }
}

fn ids(d: &[DeviceInfo]) -> Vec<String> {
    d.iter().map(|x| x.device_id.clone()).collect()
}

fn names(t: &[TopicInfo]) -> Vec<String> {
    t.iter().map(|x| x.topic.clone()).collect()
}

#[test]
fn ages_in_the_largest_unit() {
    assert_eq!(format_age(0), "0s");
    assert_eq!(format_age(59), "59s");
    assert_eq!(format_age(60), "1m");
    assert_eq!(format_age(3599), "59m");
    assert_eq!(format_age(3600), "1h");
    assert_eq!(format_age(86399), "23h");
    assert_eq!(format_age(86400), "1d");
    assert_eq!(format_age(-5), "-5s");
}

#[test]
fn newest_first_by_default_and_stable() {
    let mut d = vec![device("old", 500), device("new", 5), device("mid", 100)];
    sort_devices(&mut d, &SortBy::LastSeen);
    assert_eq!(ids(&d), vec!["new", "mid", "old"]);
    let t0 = ago(50);
    let mut same = vec![
        DeviceInfo { device_id: "b".to_string(), last_seen: t0, status: DeviceStatus::Online },
        DeviceInfo { device_id: "a".to_string(), last_seen: t0, status: DeviceStatus::Online },
    ];
    sort_devices(&mut same, &SortBy::TopicCount);
    assert_eq!(ids(&same), vec!["b", "a"]);
}

#[test]
fn sorting_by_name_and_status() {
    let mut d = vec![device("zeta", 1), device("Alpha", 2), device("beta", 3)];
    sort_devices(&mut d, &SortBy::Name);
    assert_eq!(ids(&d), vec!["Alpha", "beta", "zeta"]);
    let mut s = vec![device("off", 1000), device("on", 1), device("warn", 100)];
    sort_devices(&mut s, &SortBy::Status);
    assert_eq!(ids(&s), vec!["on", "warn", "off"]);
    let mut t = vec![topic("b", 5000), topic("a", 10), topic("c", 1000)];
    sort_topics(&mut t, &SortBy::Status);
    assert_eq!(names(&t), vec!["a", "c", "b"]);
    sort_topics(&mut t, &SortBy::Name);
    assert_eq!(names(&t), vec!["a", "b", "c"]);
}

#[test]
fn filters_keep_matching_statuses_in_order() {
    let d = vec![device("a", 1), device("b", 100), device("c", 2), device("d", 1000)];
    assert_eq!(ids(&filter_devices(d, &Some(StatusFilter::Online))), vec!["a", "c"]);
    let d = vec![device("a", 1), device("b", 100)];
    assert_eq!(ids(&filter_devices(d, &Some(StatusFilter::Active))), vec!["a", "b"]);
    let d = vec![device("a", 1), device("b", 100)];
    assert_eq!(ids(&filter_devices(d, &None)), vec!["a", "b"]);
    let t = vec![topic("x", 10), topic("y", 1000), topic("z", 10000)];
    assert_eq!(names(&filter_topics(t, &Some(StatusFilter::Stale))), vec!["y"]);
    let t = vec![topic("x", 10), topic("y", 1000)];
    assert_eq!(names(&filter_topics(t, &Some(StatusFilter::Offline))), vec!["x", "y"]);
}

#[test]
fn summary_counts_cover_every_device() {
    let d = vec![device("a", 1), device("b", 100), device("c", 1000), device("d", 2)];
    let (on, warn, off) = status_summary(&d);
    assert_eq!((on, warn, off), (2, 1, 1));
    assert_eq!(on + warn + off, d.len());
}

#[test]
fn stale_devices_are_older_than_the_threshold() {
    let d = vec![device("a", 10), device("b", 1000), device("c", 600)];
    assert_eq!(ids(&stale_devices(d, 300)), vec!["b", "c"]);
    let d = vec![device("a", 10)];
    assert!(stale_devices(d, u64::MAX).len() == 1);
}

#[test]
fn indicator_colours() {
    assert_eq!(device_indicator_color(&DeviceStatus::Online), IndicatorColor::Green);
    assert_eq!(device_indicator_color(&DeviceStatus::Warning), IndicatorColor::Yellow);
    assert_eq!(device_indicator_color(&DeviceStatus::Offline), IndicatorColor::Red);
    assert_eq!(topic_indicator_color(&TopicStatus::Stale), IndicatorColor::BrightRed);
    assert_eq!(topic_indicator_color(&TopicStatus::Inactive), IndicatorColor::Red);
}

#[test]
fn formatted_ages_keep_their_order() {
    let rank = |s: &str| "smhd".find(s.chars().last().unwrap()).unwrap();
    let num = |s: &str| s[..s.len() - 1].parse::<i64>().unwrap();
    let ages = [-5i64, 0, 59, 60, 119, 3599, 3600, 7300, 86399, 86400, 200000];
    for w in ages.windows(2) {
        let (a, b) = (format_age(w[0]), format_age(w[1]));
        assert!(rank(&a) < rank(&b) || (rank(&a) == rank(&b) && num(&a) <= num(&b)));
    }
}

fn seen_at(id: &str, secs: i64) -> DeviceInfo {
    DeviceInfo { device_id: id.to_string(), last_seen: Timestamp::from_seconds(secs), status: DeviceStatus::Online }
}

fn topic_at(name: &str, secs: i64) -> TopicInfo {
    TopicInfo {
        topic: name.to_string(),
        last_seen: Timestamp::from_seconds(secs),
        status: TopicStatus::Active,
        data_types: vec![],
    }
}

#[test]
fn listings_judged_at_a_given_instant() {
    let at = Timestamp::from_seconds(10_000);
    let d = vec![seen_at("a", 9_990), seen_at("b", 9_900), seen_at("c", 1_000), seen_at("d", 9_995)];
    assert_eq!(status_summary_at(&d, &at), (2, 1, 1));
    assert_eq!(ids(&stale_devices_at(d, 300, &at)), vec!["c"]);
    let d = vec![seen_at("a", 9_990), seen_at("b", 9_900), seen_at("c", 1_000)];
    assert_eq!(ids(&filter_devices_at(d, &Some(StatusFilter::Warning), &at)), vec!["b"]);
    let mut d = vec![seen_at("off", 1_000), seen_at("on", 9_999), seen_at("warn", 9_800)];
    sort_devices_at(&mut d, &SortBy::Status, &Timestamp::from_seconds(10_000));
    assert_eq!(ids(&d), vec!["on", "warn", "off"]);
    let t = vec![topic_at("x", 9_990), topic_at("y", 9_000), topic_at("z", 1_000)];
    assert_eq!(names(&filter_topics_at(t, &Some(StatusFilter::Stale), &at)), vec!["y"]);
    let mut t = vec![topic_at("z", 1_000), topic_at("y", 9_000), topic_at("x", 9_990)];
    sort_topics_at(&mut t, &SortBy::Status, &at);
    assert_eq!(names(&t), vec!["x", "y", "z"]);
}
