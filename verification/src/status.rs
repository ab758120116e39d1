//! Device and topic statuses, derived from how long ago they were last seen.
use vstd::prelude::*;
use crate::text::{owned, parse_u64, parse_unsigned};
use crate::time::{div_toward_zero, elapsed_seconds, now, seconds_between, Timestamp};

verus! {

/// Status of a device, from the age of its latest pulse.
#[derive(Clone, Copy, Debug, PartialEq, Eq, Structural)]
pub enum DeviceStatus {
    /// Seen within the online threshold.
    Online,
    /// Seen within the warning threshold.
    Warning,
    /// Not seen within the warning threshold.
    Offline,
}

/// Status of a topic, from the age of its latest pulse.
#[derive(Clone, Copy, Debug, PartialEq, Eq, Structural)]
pub enum TopicStatus {
    /// Pinged within the online threshold.
    Active,
    /// Pinged within the warning threshold.
    Recent,
    /// Pinged within the stale threshold.
    Stale,
    /// Not pinged within the stale threshold.
    Inactive,
}

/// The value an `i64` takes when converted to `u64` with `as`.
pub open spec fn as_u64_bits(x: int) -> int {
    if x < 0 { x + 0x1_0000_0000_0000_0000 } else { x }
}

/// Converts an `i64` to `u64` as `as` does: negative values wrap around.
pub fn u64_bits_of(x: i64) -> (r: u64)
    ensures
        r == as_u64_bits(x as int),
{
    if x < 0 {
        ((x + i64::MAX + 1) as u64) + 9_223_372_036_854_775_808u64
    } else {
        x as u64
    }
}

impl DeviceStatus {
    /// Rank used for ordering by status: online first, offline last.
    pub open spec fn spec_rank(self) -> int {
        match self {
            DeviceStatus::Online => 0,
            DeviceStatus::Warning => 1,
            DeviceStatus::Offline => 2,
        }
    }

    /// Rank used for ordering by status: online first, offline last.
    pub fn rank(&self) -> (r: u8)
        ensures
            r == self.spec_rank(),
    {
        match self {
            DeviceStatus::Online => 0,
            DeviceStatus::Warning => 1,
            DeviceStatus::Offline => 2,
        }
    }

    /// Status for an age in whole seconds, with the fixed thresholds of
    /// thirty seconds and five minutes.
    pub open spec fn spec_from_age(age: int) -> DeviceStatus {
        if age < 30 {
            DeviceStatus::Online
        } else if div_toward_zero(age, 60) < 5 {
            DeviceStatus::Warning
        } else {
            DeviceStatus::Offline
        }
    }

    /// Status for an age in whole seconds: online under thirty seconds,
    /// warning under five whole minutes, offline otherwise.
    pub fn from_age(age: i64) -> (r: DeviceStatus)
        ensures
            r == Self::spec_from_age(age as int),
    {
        if age < 30 {
            DeviceStatus::Online
        } else if age / 60 < 5 {
            DeviceStatus::Warning
        } else {
            DeviceStatus::Offline
        }
    }

    /// Status of a device last seen at `last_seen`, judged at `now`.
    pub fn at(now: &Timestamp, last_seen: &Timestamp) -> (r: DeviceStatus)
        requires
            now.wf(),
            last_seen.wf(),
        ensures
            r == Self::spec_from_age(elapsed_seconds(*now, *last_seen)),
    {
        Self::from_age(seconds_between(now, last_seen))
    }

    /// Status of a device last seen at `last_seen`, judged at the current
    /// instant: whatever the clock reads, the status is the one for the age
    /// at some well-formed instant after the epoch.
    pub fn from_last_seen(last_seen: &Timestamp) -> (r: DeviceStatus)
        requires
            last_seen.wf(),
        ensures
            exists|now: Timestamp|
                now.wf() && now.secs >= 0 && r == Self::spec_from_age(
                    elapsed_seconds(now, *last_seen),
                ),
    {
        let now = now();
        Self::at(&now, last_seen)
    }
}

impl TopicStatus {
    /// Rank used for ordering by status: active first, inactive last.
    pub open spec fn spec_rank(self) -> int {
        match self {
            TopicStatus::Active => 0,
            TopicStatus::Recent => 1,
            TopicStatus::Stale => 2,
            TopicStatus::Inactive => 3,
        }
    }

    /// Rank used for ordering by status: active first, inactive last.
    pub fn rank(&self) -> (r: u8)
        ensures
            r == self.spec_rank(),
    {
        match self {
            TopicStatus::Active => 0,
            TopicStatus::Recent => 1,
            TopicStatus::Stale => 2,
            TopicStatus::Inactive => 3,
        }
    }

    /// Status for an age in whole seconds, with the fixed thresholds of
    /// thirty seconds, five minutes and one hour.
    pub open spec fn spec_from_age(age: int) -> TopicStatus {
        if age < 30 {
            TopicStatus::Active
        } else if div_toward_zero(age, 60) < 5 {
            TopicStatus::Recent
        } else if div_toward_zero(age, 3600) < 1 {
            TopicStatus::Stale
        } else {
            TopicStatus::Inactive
        }
    }

    /// Status for an age in whole seconds: active under thirty seconds,
    /// recent under five whole minutes, stale under one whole hour, inactive
    /// otherwise.
    pub fn from_age(age: i64) -> (r: TopicStatus)
        ensures
            r == Self::spec_from_age(age as int),
    {
        if age < 30 {
            TopicStatus::Active
        } else if age / 60 < 5 {
            TopicStatus::Recent
        } else if age / 3600 < 1 {
            TopicStatus::Stale
        } else {
            TopicStatus::Inactive
        }
    }

    /// Status of a topic last pinged at `last_ping`, judged at `now`.
    pub fn at(now: &Timestamp, last_ping: &Timestamp) -> (r: TopicStatus)
        requires
            now.wf(),
            last_ping.wf(),
        ensures
            r == Self::spec_from_age(elapsed_seconds(*now, *last_ping)),
    {
        Self::from_age(seconds_between(now, last_ping))
    }

    /// Status of a topic last seen at `last_seen`, judged at the current
    /// instant (see [`DeviceStatus::from_last_seen`]).
    pub fn from_last_seen(last_seen: &Timestamp) -> (r: TopicStatus)
        requires
            last_seen.wf(),
        ensures
            exists|now: Timestamp|
                now.wf() && now.secs >= 0 && r == Self::spec_from_age(
                    elapsed_seconds(now, *last_seen),
                ),
    {
        let now = now();
        Self::at(&now, last_seen)
    }

    /// Status of a topic last pinged at `last_ping`, judged at the current
    /// instant; the same rule as [`TopicStatus::from_last_seen`].
    pub fn from_last_ping(last_ping: &Timestamp) -> (r: TopicStatus)
        requires
            last_ping.wf(),
        ensures
            exists|now: Timestamp|
                now.wf() && now.secs >= 0 && r == Self::spec_from_age(
                    elapsed_seconds(now, *last_ping),
                ),
    {
        Self::from_last_seen(last_ping)
    }
}

/// Timing thresholds, in seconds, that separate the statuses.
#[derive(Clone, Copy, Debug, PartialEq, Eq, Structural)]
pub struct StatusConfig {
    /// Below this age a device is online and a topic active (default 30).
    pub online_threshold_seconds: u64,
    /// Below this age a device is in warning and a topic recent (default 300).
    pub warning_threshold_seconds: u64,
    /// Below this age a topic is stale (default 3600).
    pub stale_threshold_seconds: u64,
}

/// Why a set of thresholds is refused.
#[derive(Clone, Copy, Debug, PartialEq, Eq, Structural)]
pub enum ThresholdError {
    /// The online threshold is not below the warning threshold.
    OnlineNotBelowWarning,
    /// The warning threshold is not below the stale threshold.
    WarningNotBelowStale,
}

impl ThresholdError {
    /// The message shown for this refusal.
    pub fn message(&self) -> (r: String)
        ensures
            r@ == match *self {
                ThresholdError::OnlineNotBelowWarning => "Online threshold must be less than warning threshold"@,
                ThresholdError::WarningNotBelowStale => "Warning threshold must be less than stale threshold"@,
            },
    {
        match self {
            ThresholdError::OnlineNotBelowWarning => owned(
                "Online threshold must be less than warning threshold",
            ),
            ThresholdError::WarningNotBelowStale => owned(
                "Warning threshold must be less than stale threshold",
            ),
        }
    }
}

impl StatusConfig {
    /// The default thresholds: 30, 300 and 3600 seconds.
    pub open spec fn spec_default() -> StatusConfig {
        StatusConfig {
            online_threshold_seconds: 30,
            warning_threshold_seconds: 300,
            stale_threshold_seconds: 3600,
        }
    }

    /// The default thresholds: 30, 300 and 3600 seconds.
    pub fn default_thresholds() -> (r: StatusConfig)
        ensures
            r == Self::spec_default(),
    {
        StatusConfig {
            online_threshold_seconds: 30,
            warning_threshold_seconds: 300,
            stale_threshold_seconds: 3600,
        }
    }

    /// Device status for an age in whole seconds.  The age is converted to
    /// `u64` with `as` before comparing, so a negative age (a last-seen time
    /// in the future) counts as a very large one.
    pub open spec fn spec_device_status(self, age: int) -> DeviceStatus {
        let u = as_u64_bits(age);
        if u < self.online_threshold_seconds {
            DeviceStatus::Online
        } else if u < self.warning_threshold_seconds {
            DeviceStatus::Warning
        } else {
            DeviceStatus::Offline
        }
    }

    /// Topic status for an age in whole seconds (negative ages count as very
    /// large ones, as for devices).
    pub open spec fn spec_topic_status(self, age: int) -> TopicStatus {
        let u = as_u64_bits(age);
        if u < self.online_threshold_seconds {
            TopicStatus::Active
        } else if u < self.warning_threshold_seconds {
            TopicStatus::Recent
        } else if u < self.stale_threshold_seconds {
            TopicStatus::Stale
        } else {
            TopicStatus::Inactive
        }
    }

    /// Device status for an age in whole seconds.
    pub fn device_status_for_age(&self, age: i64) -> (r: DeviceStatus)
        ensures
            r == self.spec_device_status(age as int),
    {
        let u = u64_bits_of(age);
        if u < self.online_threshold_seconds {
            DeviceStatus::Online
        } else if u < self.warning_threshold_seconds {
            DeviceStatus::Warning
        } else {
            DeviceStatus::Offline
        }
    }

    /// Topic status for an age in whole seconds.
    pub fn topic_status_for_age(&self, age: i64) -> (r: TopicStatus)
        ensures
            r == self.spec_topic_status(age as int),
    {
        let u = u64_bits_of(age);
        if u < self.online_threshold_seconds {
            TopicStatus::Active
        } else if u < self.warning_threshold_seconds {
            TopicStatus::Recent
        } else if u < self.stale_threshold_seconds {
            TopicStatus::Stale
        } else {
            TopicStatus::Inactive
        }
    }

    /// Device status of a device last seen at `last_seen`, judged at `now`.
    pub fn device_status_at(&self, now: &Timestamp, last_seen: &Timestamp) -> (r: DeviceStatus)
        requires
            now.wf(),
            last_seen.wf(),
        ensures
            r == self.spec_device_status(elapsed_seconds(*now, *last_seen)),
    {
        self.device_status_for_age(seconds_between(now, last_seen))
    }

    /// Topic status of a topic last seen at `last_seen`, judged at `now`.
    pub fn topic_status_at(&self, now: &Timestamp, last_seen: &Timestamp) -> (r: TopicStatus)
        requires
            now.wf(),
            last_seen.wf(),
        ensures
            r == self.spec_topic_status(elapsed_seconds(*now, *last_seen)),
    {
        self.topic_status_for_age(seconds_between(now, last_seen))
    }

    /// Device status of a device last seen at `last_seen`, judged at the
    /// current instant.
    pub fn calculate_device_status(&self, last_seen: &Timestamp) -> (r: DeviceStatus)
        requires
            last_seen.wf(),
        ensures
            exists|now: Timestamp|
                now.wf() && now.secs >= 0 && r == self.spec_device_status(
                    elapsed_seconds(now, *last_seen),
                ),
    {
        let now = now();
        self.device_status_at(&now, last_seen)
    }

    /// Topic status of a topic last seen at `last_seen`, judged at the
    /// current instant.
    pub fn calculate_topic_status(&self, last_seen: &Timestamp) -> (r: TopicStatus)
        requires
            last_seen.wf(),
        ensures
            exists|now: Timestamp|
                now.wf() && now.secs >= 0 && r == self.spec_topic_status(
                    elapsed_seconds(now, *last_seen),
                ),
    {
        let now = now();
        self.topic_status_at(&now, last_seen)
    }

    /// The thresholds are strictly increasing: online < warning < stale.
    pub open spec fn spec_valid(self) -> bool {
        self.online_threshold_seconds < self.warning_threshold_seconds
            && self.warning_threshold_seconds < self.stale_threshold_seconds
    }

    /// Accepts the thresholds when online < warning < stale; otherwise names
    /// the first comparison that fails.
    pub fn validate(&self) -> (r: Result<(), ThresholdError>)
        ensures
            r is Ok <==> self.spec_valid(),
            r == Err::<(), ThresholdError>(ThresholdError::OnlineNotBelowWarning) <==> self.online_threshold_seconds
                >= self.warning_threshold_seconds,
            r == Err::<(), ThresholdError>(ThresholdError::WarningNotBelowStale) <==> (
            self.online_threshold_seconds < self.warning_threshold_seconds
                && self.warning_threshold_seconds >= self.stale_threshold_seconds),
    {
        if self.online_threshold_seconds >= self.warning_threshold_seconds {
            return Err(ThresholdError::OnlineNotBelowWarning);
        }
        if self.warning_threshold_seconds >= self.stale_threshold_seconds {
            return Err(ThresholdError::WarningNotBelowStale);
        }
        Ok(())
    }

    /// The thresholds after applying the optional overrides, each replacing
    /// its threshold when present.
    pub open spec fn spec_with_overrides(
        self,
        online: Option<u64>,
        warning: Option<u64>,
        stale: Option<u64>,
    ) -> StatusConfig {
        StatusConfig {
            online_threshold_seconds: match online {
                Some(v) => v,
                None => self.online_threshold_seconds,
            },
            warning_threshold_seconds: match warning {
                Some(v) => v,
                None => self.warning_threshold_seconds,
            },
            stale_threshold_seconds: match stale {
                Some(v) => v,
                None => self.stale_threshold_seconds,
            },
        }
    }

    /// Replaces each threshold whose override is present.
    pub fn with_overrides(&self, online: Option<u64>, warning: Option<u64>, stale: Option<u64>) -> (r:
        StatusConfig)
        ensures
            r == self.spec_with_overrides(online, warning, stale),
    {
        let mut c = *self;
        if let Some(v) = online {
            c.online_threshold_seconds = v;
        }
        if let Some(v) = warning {
            c.warning_threshold_seconds = v;
        }
        if let Some(v) = stale {
            c.stale_threshold_seconds = v;
        }
        c
    }

    /// The override an environment value gives: its number when it parses
    /// as a `u64`, nothing otherwise.
    pub open spec fn spec_env_override(value: Option<Seq<char>>) -> Option<u64> {
        match value {
            Some(text) => match parse_unsigned(text, u64::MAX as nat) {
                Some(n) => Some(n as u64),
                None => None,
            },
            None => None,
        }
    }

    /// The thresholds from the defaults, overridden by the environment
    /// values that parse, overridden by the command-line values.
    pub open spec fn spec_from_args_and_env(
        online: Option<u64>,
        warning: Option<u64>,
        stale: Option<u64>,
        env_online: Option<Seq<char>>,
        env_warning: Option<Seq<char>>,
        env_stale: Option<Seq<char>>,
    ) -> StatusConfig {
        Self::spec_default().spec_with_overrides(
            Self::spec_env_override(env_online),
            Self::spec_env_override(env_warning),
            Self::spec_env_override(env_stale),
        ).spec_with_overrides(online, warning, stale)
    }

    /// Builds the thresholds from the defaults, then the values of the
    /// environment variables `PULSON_ONLINE_THRESHOLD`,
    /// `PULSON_WARNING_THRESHOLD` and `PULSON_STALE_THRESHOLD` (each used
    /// only when it parses as a number), then the command-line values, which
    /// take priority.
    pub fn from_args_and_env(
        online_threshold: Option<u64>,
        warning_threshold: Option<u64>,
        stale_threshold: Option<u64>,
        env_online: Option<&str>,
        env_warning: Option<&str>,
        env_stale: Option<&str>,
    ) -> (r: StatusConfig)
        ensures
            r == Self::spec_from_args_and_env(
                online_threshold,
                warning_threshold,
                stale_threshold,
                opt_view(env_online),
                opt_view(env_warning),
                opt_view(env_stale),
            ),
    {
        let base = Self::default_thresholds();
        let eo = match env_online {
            Some(t) => parse_u64(t),
            None => None,
        };
        let ew = match env_warning {
            Some(t) => parse_u64(t),
            None => None,
        };
        let es = match env_stale {
            Some(t) => parse_u64(t),
            None => None,
        };
        let from_env = base.with_overrides(eo, ew, es);
        from_env.with_overrides(online_threshold, warning_threshold, stale_threshold)
    }
}

/// Why a requested threshold change is not sent.
#[derive(Clone, Copy, Debug, PartialEq, Eq, Structural)]
pub enum ConfigSetError {
    /// No threshold was given.
    NothingToSet,
    /// The resulting thresholds are out of order.
    Invalid(ThresholdError),
}

/// The thresholds a change request leads to: the current thresholds (the
/// defaults when none could be fetched) with the given ones replaced.
pub open spec fn spec_planned_config(
    current: Option<StatusConfig>,
    online: Option<u64>,
    warning: Option<u64>,
    stale: Option<u64>,
) -> StatusConfig {
    match current {
        Some(c) => c,
        None => StatusConfig::spec_default(),
    }.spec_with_overrides(online, warning, stale)
}

/// Plans a threshold change: refused when no threshold is given, or when
/// the resulting thresholds are not strictly increasing (naming the first
/// comparison that fails); otherwise the thresholds to send.
pub fn plan_config_update(
    current: Option<StatusConfig>,
    online: Option<u64>,
    warning: Option<u64>,
    stale: Option<u64>,
) -> (r: Result<StatusConfig, ConfigSetError>)
    ensures
        online is None && warning is None && stale is None ==> r == Err::<StatusConfig, ConfigSetError>(
            ConfigSetError::NothingToSet,
        ),
        r matches Ok(c) ==> c.spec_valid(),
        !(online is None && warning is None && stale is None) ==> {
            let c = spec_planned_config(current, online, warning, stale);
            &&& c.spec_valid() ==> r == Ok::<StatusConfig, ConfigSetError>(c)
            &&& c.online_threshold_seconds >= c.warning_threshold_seconds ==> r == Err::<
                StatusConfig,
                ConfigSetError,
            >(ConfigSetError::Invalid(ThresholdError::OnlineNotBelowWarning))
            &&& (c.online_threshold_seconds < c.warning_threshold_seconds && c.warning_threshold_seconds
                >= c.stale_threshold_seconds) ==> r == Err::<StatusConfig, ConfigSetError>(
                ConfigSetError::Invalid(ThresholdError::WarningNotBelowStale),
            )
        },
{
    if online.is_none() && warning.is_none() && stale.is_none() {
        return Err(ConfigSetError::NothingToSet);
    }
    let base = match current {
        Some(c) => c,
        None => StatusConfig::default_thresholds(),
    };
    let c = base.with_overrides(online, warning, stale);
    match c.validate() {
        Ok(()) => Ok(c),
        Err(e) => Err(ConfigSetError::Invalid(e)),
    }
}

/// Thresholds are taken in priority order: a command-line value wins;
/// without one, an environment value that parses as a number; without
/// either, the default.  (Shown for the online threshold; the others are
/// built the same way.)
pub proof fn command_line_then_environment_then_default(
    online: Option<u64>,
    warning: Option<u64>,
    stale: Option<u64>,
    env_online: Option<Seq<char>>,
    env_warning: Option<Seq<char>>,
    env_stale: Option<Seq<char>>,
)
    ensures
        ({
            let c = StatusConfig::spec_from_args_and_env(online, warning, stale, env_online, env_warning, env_stale);
            &&& online matches Some(v) ==> c.online_threshold_seconds == v
            &&& warning matches Some(v) ==> c.warning_threshold_seconds == v
            &&& stale matches Some(v) ==> c.stale_threshold_seconds == v
            &&& online is None ==> c.online_threshold_seconds == match StatusConfig::spec_env_override(env_online) {
                Some(e) => e,
                None => 30,
            }
            &&& warning is None ==> c.warning_threshold_seconds == match StatusConfig::spec_env_override(env_warning) {
                Some(e) => e,
                None => 300,
            }
            &&& stale is None ==> c.stale_threshold_seconds == match StatusConfig::spec_env_override(env_stale) {
                Some(e) => e,
                None => 3600,
            }
        }),
{
}

/// An older pulse never gives a better device or topic status: for ages
/// `0 <= a <= b`, the status at age `b` ranks no better than the one at
/// age `a`, for any thresholds.
pub proof fn status_worsens_with_age(config: StatusConfig, a: int, b: int)
    requires
        0 <= a <= b,
    ensures
        config.spec_device_status(a).spec_rank() <= config.spec_device_status(b).spec_rank(),
        config.spec_topic_status(a).spec_rank() <= config.spec_topic_status(b).spec_rank(),
        DeviceStatus::spec_from_age(a).spec_rank() <= DeviceStatus::spec_from_age(b).spec_rank(),
        TopicStatus::spec_from_age(a).spec_rank() <= TopicStatus::spec_from_age(b).spec_rank(),
{
}

/// With the default thresholds, the configurable rule agrees with the fixed
/// thirty-second / five-minute / one-hour rule for every age that is not
/// negative.
pub proof fn default_thresholds_match_fixed_rule(age: int)
    requires
        0 <= age,
    ensures
        StatusConfig::spec_default().spec_device_status(age) == DeviceStatus::spec_from_age(age),
        StatusConfig::spec_default().spec_topic_status(age) == TopicStatus::spec_from_age(age),
{
}

/// The characters of an optional string.
pub open spec fn opt_view(s: Option<&str>) -> Option<Seq<char>> {
    match s {
        Some(t) => Some(t@),
        None => None,
    }
}

impl Default for StatusConfig {
    fn default() -> (r: StatusConfig)
        ensures
            r == StatusConfig::spec_default(),
    {
        StatusConfig::default_thresholds()
    }
}

} // verus!
