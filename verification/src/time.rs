//! Instants in UTC and the whole-unit differences between them.
use vstd::prelude::*;

verus! {

/// Nanoseconds in one second.
pub const NANOS_PER_SECOND: u32 = 1_000_000_000;

/// Earliest representable instant, in seconds since the Unix epoch
/// (the first second of year -262143).
pub const MIN_SECONDS: i64 = -8_334_601_315_200;

/// Latest representable instant, in seconds since the Unix epoch
/// (the last second of year 262142).
pub const MAX_SECONDS: i64 = 8_210_266_876_799;

/// An instant in UTC: whole seconds since 1970-01-01T00:00:00Z and the
/// nanoseconds elapsed within that second.
#[derive(Clone, Copy, Debug, PartialEq, Eq, Structural)]
pub struct Timestamp {
    pub secs: i64,
    pub nanos: u32,
}

/// Rust's integer division: the quotient rounded toward zero.
pub open spec fn div_toward_zero(a: int, d: int) -> int
    recommends
        d > 0,
{
    if a >= 0 { a / d } else { -((-a) / d) }
}

impl Timestamp {
    /// The instant lies in the representable range and its nanoseconds are
    /// below one second.
    pub open spec fn wf(self) -> bool {
        &&& MIN_SECONDS <= self.secs <= MAX_SECONDS
        &&& self.nanos < NANOS_PER_SECOND
    }

    /// Nanoseconds since the epoch.
    pub open spec fn total_nanos(self) -> int {
        self.secs * 1_000_000_000 + self.nanos
    }

    /// The instant for a seconds/nanoseconds pair, when it is representable.
    pub open spec fn spec_from_parts(secs: i64, nanos: u32) -> Option<Timestamp> {
        if MIN_SECONDS <= secs <= MAX_SECONDS && nanos < NANOS_PER_SECOND {
            Some(Timestamp { secs, nanos })
        } else {
            None
        }
    }

    /// Builds the instant `secs` seconds and `nanos` nanoseconds after the
    /// epoch; `None` outside the representable range or for a nanosecond
    /// count of a full second or more.
    pub fn from_parts(secs: i64, nanos: u32) -> (r: Option<Timestamp>)
        ensures
            r == Self::spec_from_parts(secs, nanos),
            r matches Some(t) ==> t.wf(),
    {
        if MIN_SECONDS <= secs && secs <= MAX_SECONDS && nanos < NANOS_PER_SECOND {
            Some(Timestamp { secs, nanos })
        } else {
            None
        }
    }

    /// The instant `secs` whole seconds after the epoch.
    pub fn from_seconds(secs: i64) -> (r: Timestamp)
        requires
            MIN_SECONDS <= secs <= MAX_SECONDS,
        ensures
            r.secs == secs,
            r.nanos == 0,
            r.wf(),
    {
        Timestamp { secs, nanos: 0 }
    }

    /// `self` is strictly earlier than `other`.
    pub open spec fn before(self, other: Timestamp) -> bool {
        self.total_nanos() < other.total_nanos()
    }

    /// Whether `self` is strictly earlier than `other`.
    pub fn is_before(&self, other: &Timestamp) -> (r: bool)
        requires
            self.wf(),
            other.wf(),
        ensures
            r == self.before(*other),
    {
        self.secs < other.secs || (self.secs == other.secs && self.nanos < other.nanos)
    }

    /// The instant `delta` seconds later (earlier for a negative `delta`).
    pub open spec fn spec_shift(self, delta: int) -> Timestamp {
        Timestamp { secs: (self.secs + delta) as i64, nanos: self.nanos }
    }

    /// The instant `delta` seconds later (earlier for a negative `delta`).
    pub fn shift_seconds(&self, delta: i64) -> (r: Timestamp)
        requires
            self.wf(),
            MIN_SECONDS <= self.secs + delta <= MAX_SECONDS,
        ensures
            r == self.spec_shift(delta as int),
            r.wf(),
            r.total_nanos() == self.total_nanos() + delta * 1_000_000_000,
    {
        Timestamp { secs: self.secs + delta, nanos: self.nanos }
    }
}

/// Whole seconds from `then` to `now`, rounded toward zero (negative when
/// `then` is later than `now`).
pub open spec fn elapsed_seconds(now: Timestamp, then: Timestamp) -> int {
    div_toward_zero(now.total_nanos() - then.total_nanos(), 1_000_000_000)
}

/// Moving an instant by whole seconds is measured back as exactly that
/// many elapsed seconds.
pub proof fn shift_is_measured_back(t: Timestamp, delta: int)
    requires
        t.wf(),
        MIN_SECONDS <= t.secs + delta <= MAX_SECONDS,
    ensures
        elapsed_seconds(t.spec_shift(delta), t) == delta,
{
    let s = t.spec_shift(delta);
    assert(s.total_nanos() - t.total_nanos() == delta * 1_000_000_000);
    if delta >= 0 {
        assert((delta * 1_000_000_000) / 1_000_000_000 == delta) by (nonlinear_arith);
    } else {
        assert(((-delta) * 1_000_000_000) / 1_000_000_000 == -delta) by (nonlinear_arith);
        assert(-(delta * 1_000_000_000) == (-delta) * 1_000_000_000);
    }
}

/// The whole seconds elapsed from `then` to `now`, rounded toward zero.
pub fn seconds_between(now: &Timestamp, then: &Timestamp) -> (r: i64)
    requires
        now.wf(),
        then.wf(),
    ensures
        r == elapsed_seconds(*now, *then),
        -(MAX_SECONDS - MIN_SECONDS) <= r <= MAX_SECONDS - MIN_SECONDS,
{
    let total: i128 = (now.secs as i128 - then.secs as i128) * 1_000_000_000i128
        + (now.nanos as i128 - then.nanos as i128);
    assert(total == now.total_nanos() - then.total_nanos());
    let r: i128 = if total >= 0 {
        total / 1_000_000_000i128
    } else {
        -((-total) / 1_000_000_000i128)
    };
    assert(-(MAX_SECONDS - MIN_SECONDS) <= r <= MAX_SECONDS - MIN_SECONDS);
    r as i64
}

/// Divides toward zero by a positive divisor.
pub fn div_i64_toward_zero(a: i64, d: i64) -> (r: i64)
    requires
        d > 0,
        a > i64::MIN,
    ensures
        r == div_toward_zero(a as int, d as int),
{
    if a >= 0 {
        a / d
    } else {
        -((-a) / d)
    }
}

/// The current instant on the system clock.
#[verifier::external_body]
fn system_now() -> (t: Timestamp)
    ensures
        t.wf(),
        t.secs >= 0,
{
    let now = chrono::Utc::now();
    Timestamp { secs: now.timestamp(), nanos: now.timestamp_subsec_nanos() }
}

/// The current instant.  Whatever the clock reads, it is a well-formed
/// instant no earlier than the epoch.
pub fn now() -> (t: Timestamp)
    ensures
        t.wf(),
        t.secs >= 0,
{
    system_now()
}

/// The Unix seconds, sub-second nanoseconds and UTC offset (seconds east)
/// that chrono's RFC 3339 parser gives for `text`, or `None` when it
/// rejects the text.
pub uninterp spec fn rfc3339_parts(text: Seq<char>) -> Option<(i64, u32, i32)>;

/// Parses `text` as an RFC 3339 date-time with chrono's
/// `DateTime::parse_from_rfc3339` and returns the instant's Unix seconds,
/// its sub-second nanoseconds and the offset written in the text.  Only the
/// naming of the result is claimed.
#[verifier::external_body]
fn rfc3339_parse(text: &str) -> (r: Option<(i64, u32, i32)>)
    ensures
        r == rfc3339_parts(text@),
{
    match chrono::DateTime::parse_from_rfc3339(text) {
        Ok(d) => Some((d.timestamp(), d.timestamp_subsec_nanos(), d.offset().local_minus_utc())),
        Err(_) => None,
    }
}

/// The instant for parsed parts.
pub open spec fn instant_of(parts: Option<(i64, u32, i32)>) -> Option<Timestamp> {
    match parts {
        Some((s, n, _)) => Timestamp::spec_from_parts(s, n),
        None => None,
    }
}

/// The wall-clock reading in the text's own offset, held as the instant
/// whose UTC reading it is.
pub open spec fn local_instant_of(parts: Option<(i64, u32, i32)>) -> Option<Timestamp> {
    match parts {
        Some((s, n, o)) => if MIN_SECONDS <= s + o <= MAX_SECONDS && n < NANOS_PER_SECOND {
            Some(Timestamp { secs: (s + o) as i64, nanos: n })
        } else {
            None
        },
        None => None,
    }
}

/// Parses an RFC 3339 date-time.  `None` when the text is rejected, or when
/// it names a leap second or an instant outside the representable range.
pub fn parse_rfc3339(text: &str) -> (r: Option<Timestamp>)
    ensures
        r == instant_of(rfc3339_parts(text@)),
        r matches Some(t) ==> t.wf(),
{
    match rfc3339_parse(text) {
        Some((s, n, _)) => Timestamp::from_parts(s, n),
        None => None,
    }
}

/// Parses an RFC 3339 date-time and keeps its wall-clock reading in the
/// offset it was written with.  `None` as for [`parse_rfc3339`].
pub fn parse_rfc3339_local(text: &str) -> (r: Option<Timestamp>)
    ensures
        r == local_instant_of(rfc3339_parts(text@)),
        r matches Some(t) ==> t.wf(),
{
    match rfc3339_parse(text) {
        Some((s, n, o)) => {
            let local: i128 = s as i128 + o as i128;
            if MIN_SECONDS as i128 <= local && local <= MAX_SECONDS as i128 && n < NANOS_PER_SECOND {
                Some(Timestamp { secs: local as i64, nanos: n })
            } else {
                None
            }
        },
        None => None,
    }
}

/// Whole seconds of the day of an instant, in UTC.
pub open spec fn second_of_day(t: Timestamp) -> int {
    (t.secs as int) % 86400
}

/// The hour (0 to 23) of an instant, in UTC.
pub open spec fn hour_of(t: Timestamp) -> int {
    second_of_day(t) / 3600
}

/// The minute (0 to 59) of an instant, in UTC.
pub open spec fn minute_of(t: Timestamp) -> int {
    (second_of_day(t) % 3600) / 60
}

/// The hour (0 to 23) of an instant, in UTC.
pub fn hour(t: &Timestamp) -> (r: u64)
    requires
        t.wf(),
    ensures
        r == hour_of(*t),
        r < 24,
{
    let sod: i64 = if t.secs >= 0 { t.secs % 86400 } else {
        let m = (-t.secs) % 86400;
        if m == 0 { 0 } else { 86400 - m }
    };
    assert(sod == second_of_day(*t));
    (sod / 3600) as u64
}

/// The minute (0 to 59) of an instant, in UTC.
pub fn minute(t: &Timestamp) -> (r: u64)
    requires
        t.wf(),
    ensures
        r == minute_of(*t),
        r < 60,
{
    let sod: i64 = if t.secs >= 0 { t.secs % 86400 } else {
        let m = (-t.secs) % 86400;
        if m == 0 { 0 } else { 86400 - m }
    };
    assert(sod == second_of_day(*t));
    ((sod % 3600) / 60) as u64
}

/// The text chrono's `format` gives for an instant and a pattern.
pub uninterp spec fn formatted(secs: i64, nanos: u32, pattern: Seq<char>) -> Seq<char>;

/// The day/month pattern `%d/%m`.
pub open spec fn day_month_pattern() -> Seq<char> {
    seq!['%', 'd', '/', '%', 'm']
}

/// The day/month/year and time pattern `%d/%m/%Y %H:%M:%S`.
pub open spec fn day_month_year_time_pattern() -> Seq<char> {
    seq!['%', 'd', '/', '%', 'm', '/', '%', 'Y', ' ', '%', 'H', ':', '%', 'M', ':', '%', 'S']
}

/// Renders an instant with chrono's `DateTime::format` and one of the two
/// patterns above.  Only the naming of the result is claimed.
#[verifier::external_body]
fn chrono_format(t: &Timestamp, pattern: &str) -> (r: String)
    requires
        t.wf(),
        pattern@ == day_month_pattern() || pattern@ == day_month_year_time_pattern(),
    ensures
        r@ == formatted(t.secs, t.nanos, pattern@),
{
    match chrono::DateTime::from_timestamp(t.secs, t.nanos) {
        Some(d) => d.format(pattern).to_string(),
        None => String::new(),
    }
}

/// The instant as `dd/mm`.
pub fn format_day_month(t: &Timestamp) -> (r: String)
    requires
        t.wf(),
    ensures
        r@ == formatted(t.secs, t.nanos, day_month_pattern()),
{
    let p = "%d/%m";
    proof {
        reveal_strlit("%d/%m");
    }
    assert(p@ == day_month_pattern());
    chrono_format(t, p)
}

/// The instant as `dd/mm/yyyy HH:MM:SS`.
pub fn format_day_month_year_time(t: &Timestamp) -> (r: String)
    requires
        t.wf(),
    ensures
        r@ == formatted(t.secs, t.nanos, day_month_year_time_pattern()),
{
    let p = "%d/%m/%Y %H:%M:%S";
    proof {
        reveal_strlit("%d/%m/%Y %H:%M:%S");
    }
    assert(p@ == day_month_year_time_pattern());
    chrono_format(t, p)
}

} // verus!
