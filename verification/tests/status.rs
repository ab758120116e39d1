use pulson::status::{plan_config_update, ConfigSetError, DeviceStatus, StatusConfig, ThresholdError, TopicStatus};
use pulson::time::{now, Timestamp};

fn ago(secs: i64) -> Timestamp {
    now().shift_seconds(-secs)
}

#[test]
fn fixed_device_rule_uses_thirty_seconds_and_five_minutes() {
    assert_eq!(DeviceStatus::from_age(0), DeviceStatus::Online);
    assert_eq!(DeviceStatus::from_age(29), DeviceStatus::Online);
    assert_eq!(DeviceStatus::from_age(30), DeviceStatus::Warning);
    assert_eq!(DeviceStatus::from_age(299), DeviceStatus::Warning);
    assert_eq!(DeviceStatus::from_age(300), DeviceStatus::Offline);
    // A last-seen time in the future reads as a negative age: online.
    assert_eq!(DeviceStatus::from_age(-5), DeviceStatus::Online);
}

#[test]
fn fixed_topic_rule_adds_the_hour() {
    assert_eq!(TopicStatus::from_age(10), TopicStatus::Active);
    assert_eq!(TopicStatus::from_age(100), TopicStatus::Recent);
    assert_eq!(TopicStatus::from_age(3599), TopicStatus::Stale);
    assert_eq!(TopicStatus::from_age(3600), TopicStatus::Inactive);
}

#[test]
fn statuses_from_the_clock() {
    assert_eq!(DeviceStatus::from_last_seen(&ago(1)), DeviceStatus::Online);
    assert_eq!(DeviceStatus::from_last_seen(&ago(120)), DeviceStatus::Warning);
    assert_eq!(DeviceStatus::from_last_seen(&ago(1000)), DeviceStatus::Offline);
    assert_eq!(TopicStatus::from_last_ping(&ago(1000)), TopicStatus::Stale);
    assert_eq!(TopicStatus::from_last_seen(&ago(7200)), TopicStatus::Inactive);
}

#[test]
fn configured_thresholds_decide_statuses() {
    let c = StatusConfig { online_threshold_seconds: 10, warning_threshold_seconds: 20, stale_threshold_seconds: 40 };
    assert_eq!(c.device_status_for_age(9), DeviceStatus::Online);
    assert_eq!(c.device_status_for_age(10), DeviceStatus::Warning);
    assert_eq!(c.device_status_for_age(20), DeviceStatus::Offline);
    assert_eq!(c.topic_status_for_age(39), TopicStatus::Stale);
    assert_eq!(c.topic_status_for_age(40), TopicStatus::Inactive);
    // A negative age converts to a huge unsigned one.
    assert_eq!(c.device_status_for_age(-1), DeviceStatus::Offline);
    assert_eq!(c.calculate_device_status(&ago(5)), DeviceStatus::Online);
    assert_eq!(c.calculate_topic_status(&ago(30)), TopicStatus::Stale);
}

#[test]
fn default_thresholds() {
    let d = StatusConfig::default();
    assert_eq!(d, StatusConfig::default_thresholds());
    assert_eq!(d.online_threshold_seconds, 30);
    assert_eq!(d.warning_threshold_seconds, 300);
    assert_eq!(d.stale_threshold_seconds, 3600);
    for age in [0i64, 29, 30, 299, 300, 3599, 3600, 100000] {
        assert_eq!(d.device_status_for_age(age), DeviceStatus::from_age(age));
        assert_eq!(d.topic_status_for_age(age), TopicStatus::from_age(age));
    }
}

#[test]
fn validation_names_the_broken_comparison() {
    let ok = StatusConfig { online_threshold_seconds: 1, warning_threshold_seconds: 2, stale_threshold_seconds: 3 };
    assert_eq!(ok.validate(), Ok(()));
    let a = StatusConfig { online_threshold_seconds: 5, warning_threshold_seconds: 5, stale_threshold_seconds: 9 };
    assert_eq!(a.validate(), Err(ThresholdError::OnlineNotBelowWarning));
    assert_eq!(a.validate().unwrap_err().message(), "Online threshold must be less than warning threshold");
    let b = StatusConfig { online_threshold_seconds: 1, warning_threshold_seconds: 9, stale_threshold_seconds: 9 };
    assert_eq!(b.validate(), Err(ThresholdError::WarningNotBelowStale));
    assert_eq!(b.validate().unwrap_err().message(), "Warning threshold must be less than stale threshold");
}

#[test]
fn environment_then_arguments_override_defaults() {
    let c = StatusConfig::from_args_and_env(Some(5), None, None, Some("7"), Some("400"), Some("junk"));
    assert_eq!(c.online_threshold_seconds, 5);
    assert_eq!(c.warning_threshold_seconds, 400);
    assert_eq!(c.stale_threshold_seconds, 3600);
    let d = StatusConfig::from_args_and_env(None, None, None, None, None, None);
    assert_eq!(d, StatusConfig::default());
}

#[test]
fn overrides_replace_only_what_is_given() {
    let base = StatusConfig::default();
    let c = base.with_overrides(None, Some(100), None);
    assert_eq!(c.online_threshold_seconds, 30);
    assert_eq!(c.warning_threshold_seconds, 100);
    assert_eq!(c.stale_threshold_seconds, 3600);
}

#[test]
fn planning_a_threshold_change() {
    assert_eq!(plan_config_update(None, None, None, None), Err(ConfigSetError::NothingToSet));
    assert_eq!(
        plan_config_update(None, Some(60), None, None),
        Ok(StatusConfig { online_threshold_seconds: 60, warning_threshold_seconds: 300, stale_threshold_seconds: 3600 })
    );
    let current = StatusConfig { online_threshold_seconds: 1, warning_threshold_seconds: 2, stale_threshold_seconds: 3 };
    assert_eq!(
        plan_config_update(Some(current), Some(2), None, None),
        Err(ConfigSetError::Invalid(ThresholdError::OnlineNotBelowWarning))
    );
    assert_eq!(
        plan_config_update(Some(current), None, None, Some(2)),
        Err(ConfigSetError::Invalid(ThresholdError::WarningNotBelowStale))
    );
}

#[test]
fn older_pulses_never_rank_better() {
    let ages = [0i64, 10, 29, 30, 31, 299, 300, 3599, 3600, 10_000];
    for w in ages.windows(2) {
        assert!(DeviceStatus::from_age(w[0]).rank() <= DeviceStatus::from_age(w[1]).rank());
        assert!(TopicStatus::from_age(w[0]).rank() <= TopicStatus::from_age(w[1]).rank());
    }
}
