//! Pulse history as the dashboard shows it: a row of interval boxes
//! coloured by activity, and summary statistics.
use vstd::prelude::*;
use crate::json::{JsonValue};
use crate::text::{decimal, owned, push_decimal, push_signed_decimal, push_str, push_two_digits, signed_decimal, str_equal, two_digits};
use crate::time::{
    day_month_pattern, div_toward_zero, elapsed_seconds, format_day_month, formatted, hour, hour_of,
    instant_of, minute, minute_of, now, parse_rfc3339, rfc3339_parts, seconds_between, Timestamp,
    MIN_SECONDS,
};

verus! {

/// Colour of an interval box.
#[derive(Clone, Copy, Debug, PartialEq, Eq, Structural)]
pub enum DominoStatus {
    /// The interval holding the latest activity (or the last interval, when
    /// it has pulses).
    Green,
    /// Pulses, but not the latest activity.
    Orange,
    /// No pulses.
    Red,
    /// No history loaded.
    Gray,
}

/// One interval box: its colour, its tooltip and its (empty) label.
#[derive(Debug)]
pub struct DominoBox {
    pub status: DominoStatus,
    pub tooltip: String,
    pub label: String,
}

/// The text of a JSON field, when the value is an object whose `key` holds
/// a string.
pub open spec fn field_text(e: JsonValue, key: Seq<char>) -> Option<Seq<char>> {
    match e.spec_get(key) {
        Some(JsonValue::String(s)) => Some(s@),
        _ => None,
    }
}

/// The instant in an entry's `timestamp` field.
pub open spec fn entry_timestamp(e: JsonValue) -> Option<Timestamp> {
    match field_text(e, "timestamp"@) {
        Some(s) => instant_of(rfc3339_parts(s)),
        None => None,
    }
}

/// The instant in an entry's `timestamp` field, or, when that field is not
/// a string, in its `time` field.
pub open spec fn entry_time(e: JsonValue) -> Option<Timestamp> {
    let text = match field_text(e, "timestamp"@) {
        Some(s) => Some(s),
        None => field_text(e, "time"@),
    };
    match text {
        Some(s) => instant_of(rfc3339_parts(s)),
        None => None,
    }
}

/// An entry's `pulse_count` when it is an `i64`, `default` otherwise.
pub open spec fn entry_count(e: JsonValue, default: i64) -> i64 {
    match e.spec_get("pulse_count"@) {
        Some(v) => match v.spec_as_i64() {
            Some(n) => n,
            None => default,
        },
        None => default,
    }
}

/// Adds two `i64` with wrap-around.
pub open spec fn wrapping_add_i64(a: i64, b: i64) -> i64 {
    let s = a as int + b as int;
    if s > i64::MAX {
        (s - 0x1_0000_0000_0000_0000) as i64
    } else if s < i64::MIN {
        (s + 0x1_0000_0000_0000_0000) as i64
    } else {
        s as i64
    }
}

/// `start <= t < end`.
pub open spec fn within(t: Timestamp, start: Timestamp, end: Timestamp) -> bool {
    start.total_nanos() <= t.total_nanos() && t.total_nanos() < end.total_nanos()
}

/// The pulses counted in `[start, end)`: the counts (1 when absent) of the
/// entries whose `timestamp` falls in the interval, summed with wrap-around.
pub open spec fn spec_count_in(data: Seq<JsonValue>, start: Timestamp, end: Timestamp) -> i64
    decreases data.len(),
{
    if data.len() == 0 {
        0
    } else {
        let rest = spec_count_in(data.drop_last(), start, end);
        match entry_timestamp(data.last()) {
            Some(t) => if within(t, start, end) {
                wrapping_add_i64(rest, entry_count(data.last(), 1))
            } else {
                rest
            },
            None => rest,
        }
    }
}

/// The latest instant among entries with a positive count (0 when absent),
/// reading `timestamp` or else `time`.
pub open spec fn spec_latest_active(data: Seq<JsonValue>) -> Option<Timestamp>
    decreases data.len(),
{
    if data.len() == 0 {
        None
    } else {
        let rest = spec_latest_active(data.drop_last());
        match entry_time(data.last()) {
            Some(t) => if entry_count(data.last(), 0) > 0 {
                match rest {
                    Some(p) => if p.total_nanos() < t.total_nanos() { Some(t) } else { Some(p) },
                    None => Some(t),
                }
            } else {
                rest
            },
            None => rest,
        }
    }
}

/// The text of an object field that holds a string.
fn field_str<'a>(e: &'a JsonValue, key: &str) -> (r: Option<&'a str>)
    ensures
        match field_text(*e, key@) {
            Some(s) => r matches Some(t) && t@ == s,
            None => r is None,
        },
{
    match e.get(key) {
        Some(JsonValue::String(s)) => Some(s.as_str()),
        _ => None,
    }
}

/// The instant in an entry's `timestamp` field.
pub fn timestamp_of_entry(e: &JsonValue) -> (r: Option<Timestamp>)
    ensures
        r == entry_timestamp(*e),
        r matches Some(t) ==> t.wf(),
{
    match field_str(e, "timestamp") {
        Some(s) => parse_rfc3339(s),
        None => None,
    }
}

/// The instant in an entry's `timestamp` field, or else its `time` field.
pub fn time_of_entry(e: &JsonValue) -> (r: Option<Timestamp>)
    ensures
        r == entry_time(*e),
        r matches Some(t) ==> t.wf(),
{
    let text = match field_str(e, "timestamp") {
        Some(s) => Some(s),
        None => field_str(e, "time"),
    };
    match text {
        Some(s) => parse_rfc3339(s),
        None => None,
    }
}

/// An entry's `pulse_count`, or `default`.
pub fn count_of_entry(e: &JsonValue, default: i64) -> (r: i64)
    ensures
        r == entry_count(*e, default),
{
    match e.get("pulse_count") {
        Some(v) => match v.as_i64() {
            Some(n) => n,
            None => default,
        },
        None => default,
    }
}

/// Adds two `i64` with wrap-around.
pub fn add_wrapping(a: i64, b: i64) -> (r: i64)
    ensures
        r == wrapping_add_i64(a, b),
{
    let s: i128 = a as i128 + b as i128;
    if s > i64::MAX as i128 {
        (s - 0x1_0000_0000_0000_0000i128) as i64
    } else if s < i64::MIN as i128 {
        (s + 0x1_0000_0000_0000_0000i128) as i64
    } else {
        s as i64
    }
}

fn within_exec(t: &Timestamp, start: &Timestamp, end: &Timestamp) -> (r: bool)
    requires
        t.wf(),
        start.wf(),
        end.wf(),
    ensures
        r == within(*t, *start, *end),
{
    !t.is_before(start) && t.is_before(end)
}

/// Sums the pulses whose `timestamp` falls in `[start, end)`.
pub fn count_pulses_in_interval(data: &[JsonValue], start: &Timestamp, end: &Timestamp) -> (r: i64)
    requires
        start.wf(),
        end.wf(),
    ensures
        r == spec_count_in(data@, *start, *end),
{
    let mut total: i64 = 0;
    let mut i: usize = 0;
    while i < data.len()
        invariant
            i <= data@.len(),
            start.wf(),
            end.wf(),
            total == spec_count_in(data@.subrange(0, i as int), *start, *end),
        decreases data@.len() - i,
    {
        assert(data@.subrange(0, i + 1).drop_last() =~= data@.subrange(0, i as int));
        match timestamp_of_entry(&data[i]) {
            Some(t) => {
                if within_exec(&t, start, end) {
                    total = add_wrapping(total, count_of_entry(&data[i], 1));
                }
            },
            None => {},
        }
        i = i + 1;
    }
    assert(data@.subrange(0, data@.len() as int) =~= data@);
    total
}

/// The latest instant with a positive pulse count.
pub fn latest_active_pulse(data: &[JsonValue]) -> (r: Option<Timestamp>)
    ensures
        r == spec_latest_active(data@),
        r matches Some(t) ==> t.wf(),
{
    let mut best: Option<Timestamp> = None;
    let mut i: usize = 0;
    while i < data.len()
        invariant
            i <= data@.len(),
            best == spec_latest_active(data@.subrange(0, i as int)),
            best matches Some(t) ==> t.wf(),
        decreases data@.len() - i,
    {
        assert(data@.subrange(0, i + 1).drop_last() =~= data@.subrange(0, i as int));
        match time_of_entry(&data[i]) {
            Some(t) => {
                if count_of_entry(&data[i], 0) > 0 {
                    best = match best {
                        Some(p) => if p.is_before(&t) { Some(t) } else { Some(p) },
                        None => Some(t),
                    };
                }
            },
            None => {},
        }
        i = i + 1;
    }
    assert(data@.subrange(0, data@.len() as int) =~= data@);
    best
}

/// Whether the latest active pulse falls in `[start, end)`.
pub fn is_most_recent_with_activity(data: &[JsonValue], current_start: &Timestamp, current_end: &Timestamp) -> (r:
    bool)
    requires
        current_start.wf(),
        current_end.wf(),
    ensures
        r == match spec_latest_active(data@) {
            Some(t) => within(t, *current_start, *current_end),
            None => false,
        },
{
    match latest_active_pulse(data) {
        Some(t) => within_exec(&t, current_start, current_end),
        None => false,
    }
}

/// How many boxes a time range is shown with: 30 for `1h`, 24 for `1d`, 14
/// for `1w`, 30 for `1m` and for anything else.
pub open spec fn spec_box_count(range: Seq<char>) -> usize {
    if range == "1h"@ {
        30
    } else if range == "1d"@ {
        24
    } else if range == "1w"@ {
        14
    } else {
        30
    }
}

/// How many boxes a time range is shown with.
pub fn box_count(range: &str) -> (r: usize)
    ensures
        r == spec_box_count(range@),
{
    if str_equal(range, "1h") {
        30
    } else if str_equal(range, "1d") {
        24
    } else if str_equal(range, "1w") {
        14
    } else {
        30
    }
}

/// The width in seconds of one box, and the text of its label, for a time
/// range: two minutes for `1h`, an hour for `1d`, twelve hours for `1w`, a
/// day for `1m`; any other range is the single hour before `now`.
pub open spec fn spec_interval(range: Seq<char>, index: int, total: int, now: Timestamp) -> (Timestamp, Timestamp) {
    let back = total - index;
    if range == "1h"@ {
        let end = now.spec_shift(-(back * 2 - 2) * 60);
        (end.spec_shift(-120), end)
    } else if range == "1d"@ {
        let end = now.spec_shift(-(back - 1) * 3600);
        (end.spec_shift(-3600), end)
    } else if range == "1w"@ {
        let end = now.spec_shift(-(back * 12 - 12) * 3600);
        (end.spec_shift(-43200), end)
    } else if range == "1m"@ {
        let end = now.spec_shift(-(back - 1) * 86400);
        (end.spec_shift(-86400), end)
    } else {
        (now.spec_shift(-3600), now)
    }
}

/// The label of the interval starting at `start`: `H:MM` for `1h`, `H:00`
/// for `1d`, `dd/mm AM|PM` for `1w`, `dd/mm` for `1m`, `Unknown` otherwise.
pub open spec fn spec_interval_label(range: Seq<char>, start: Timestamp) -> Seq<char> {
    if range == "1h"@ {
        decimal(hour_of(start) as nat) + ":"@ + two_digits(minute_of(start) as nat)
    } else if range == "1d"@ {
        decimal(hour_of(start) as nat) + ":00"@
    } else if range == "1w"@ {
        formatted(start.secs, start.nanos, day_month_pattern()) + " "@ + (if hour_of(start) < 12 {
            "AM"@
        } else {
            "PM"@
        })
    } else if range == "1m"@ {
        formatted(start.secs, start.nanos, day_month_pattern())
    } else {
        "Unknown"@
    }
}

/// The width in seconds of one box of a named range: two minutes for `1h`,
/// an hour for `1d`, twelve hours for `1w`, a day for `1m`; an hour for any
/// other range.
pub open spec fn interval_width(range: Seq<char>) -> int {
    if range == "1h"@ {
        120
    } else if range == "1d"@ {
        3600
    } else if range == "1w"@ {
        43200
    } else if range == "1m"@ {
        86400
    } else {
        3600
    }
}

/// `total` boxes ending at `now` start no earlier than the earliest
/// representable instant (for a range other than the named ones, the one
/// hour before `now` does).  Outside this the date arithmetic overflows.
pub open spec fn intervals_fit(range: Seq<char>, total: int, now: Timestamp) -> bool {
    if range == "1h"@ || range == "1d"@ || range == "1w"@ || range == "1m"@ {
        MIN_SECONDS <= now.secs - total * interval_width(range)
    } else {
        MIN_SECONDS <= now.secs - 3600
    }
}

/// The boxes of a named range (`1h`, `1d`, `1w`, `1m`) tile it without
/// gaps or overlaps: every interval is one box width long and ends where
/// the next one starts, so the `n` boxes cover the `n` widths before `now`.
/// (Any other range shows the same hour in every box.)
pub proof fn intervals_are_contiguous(range: Seq<char>, i: int, n: int, now: Timestamp)
    requires
        range == "1h"@ || range == "1d"@ || range == "1w"@ || range == "1m"@,
        0 <= i,
        i + 1 < n,
        now.wf(),
        intervals_fit(range, n, now),
    ensures
        spec_interval(range, i, n, now).1 == spec_interval(range, i + 1, n, now).0,
        spec_interval(range, i, n, now).1.secs - spec_interval(range, i, n, now).0.secs
            == interval_width(range),
        spec_interval(range, i, n, now).0.nanos == now.nanos,
        spec_interval(range, i, n, now).1.nanos == now.nanos,
        spec_interval(range, i, n, now).0.secs == now.secs - (n - i) * interval_width(range),
{
}

/// The last box of every range ends at the current instant.
pub proof fn last_interval_ends_now(range: Seq<char>, n: int, now: Timestamp)
    requires
        n >= 1,
    ensures
        spec_interval(range, n - 1, n, now).1 == now,
{
}

/// The start, end and label of interval `index` of `total` boxes ending at
/// `now`.
pub fn calculate_interval_times(range: &str, index: usize, total: usize, now: &Timestamp) -> (r: (
    Timestamp,
    Timestamp,
    String,
))
    requires
        index < total,
        now.wf(),
        intervals_fit(range@, total as int, *now),
    ensures
        (r.0, r.1) == spec_interval(range@, index as int, total as int, *now),
        r.2@ == spec_interval_label(range@, r.0),
        (range@ == "1h"@ || range@ == "1d"@ || range@ == "1w"@ || range@ == "1m"@) ==> {
            &&& r.0.secs == now.secs - (total - index) * interval_width(range@)
            &&& r.1.secs == r.0.secs + interval_width(range@)
            &&& r.0.nanos == now.nanos && r.1.nanos == now.nanos
        },
        index + 1 == total ==> r.1 == *now,
        r.0.wf(),
        r.1.wf(),
{
    let back = (total - index) as i64;
    if str_equal(range, "1h") {
        let end = now.shift_seconds(-(back * 2 - 2) * 60);
        let start = end.shift_seconds(-120);
        let mut label = String::new();
        push_decimal(&mut label, hour(&start));
        push_str(&mut label, ":");
        push_two_digits(&mut label, minute(&start));
        (start, end, label)
    } else if str_equal(range, "1d") {
        let end = now.shift_seconds(-(back - 1) * 3600);
        let start = end.shift_seconds(-3600);
        let mut label = String::new();
        push_decimal(&mut label, hour(&start));
        push_str(&mut label, ":00");
        (start, end, label)
    } else if str_equal(range, "1w") {
        let end = now.shift_seconds(-(back * 12 - 12) * 3600);
        let start = end.shift_seconds(-43200);
        let mut label = format_day_month(&start);
        push_str(&mut label, " ");
        if hour(&start) < 12 {
            push_str(&mut label, "AM");
        } else {
            push_str(&mut label, "PM");
        }
        (start, end, label)
    } else if str_equal(range, "1m") {
        let end = now.shift_seconds(-(back - 1) * 86400);
        let start = end.shift_seconds(-86400);
        let label = format_day_month(&start);
        (start, end, label)
    } else {
        let start = now.shift_seconds(-3600);
        (start, *now, owned("Unknown"))
    }
}

} // verus!

verus! {

/// Colour of box `i` of `n`: red without pulses; green when it is the last
/// box or holds the latest activity; orange otherwise.
pub open spec fn spec_box_status(data: Seq<JsonValue>, range: Seq<char>, i: int, n: int, now: Timestamp) -> DominoStatus {
    let (s, e) = spec_interval(range, i, n, now);
    if spec_count_in(data, s, e) > 0 {
        let latest_here = match spec_latest_active(data) {
            Some(t) => within(t, s, e),
            None => false,
        };
        if i == n - 1 || latest_here {
            DominoStatus::Green
        } else {
            DominoStatus::Orange
        }
    } else {
        DominoStatus::Red
    }
}

/// Tooltip of box `i` of `n`: `Interval <i+1> (<label>): <count> pulse(s)`.
pub open spec fn spec_box_tooltip(data: Seq<JsonValue>, range: Seq<char>, i: int, n: int, now: Timestamp) -> Seq<char> {
    let (s, e) = spec_interval(range, i, n, now);
    let c = spec_count_in(data, s, e);
    "Interval "@ + decimal((i + 1) as nat) + " ("@ + spec_interval_label(range, s) + "): "@
        + signed_decimal(c as int) + " pulse"@ + (if c == 1 { ""@ } else { "s"@ })
}

/// Tooltip of box `i` when no history is loaded.
pub open spec fn spec_empty_box_tooltip(i: int) -> Seq<char> {
    "Interval "@ + decimal((i + 1) as nat) + ": No data available"@
}

/// The boxes for a time range at `now`: without history every box is grey;
/// with it, box `i` covers interval `i` and is coloured by its pulses.
/// Every label is empty.
pub fn domino_boxes_at(range: &str, history: Option<&[JsonValue]>, now: &Timestamp) -> (r: Vec<DominoBox>)
    requires
        now.wf(),
        intervals_fit(range@, spec_box_count(range@) as int, *now),
    ensures
        r@.len() == spec_box_count(range@),
        forall|i: int|
            0 <= i < r@.len() ==> (#[trigger] r@[i]).label@ == Seq::<char>::empty() && match history {
                None => r@[i].status == DominoStatus::Gray && r@[i].tooltip@ == spec_empty_box_tooltip(i),
                Some(data) => r@[i].status == spec_box_status(data@, range@, i, r@.len() as int, *now)
                    && r@[i].tooltip@ == spec_box_tooltip(data@, range@, i, r@.len() as int, *now),
            },
{
    let n = box_count(range);
    let mut boxes: Vec<DominoBox> = Vec::new();
    let mut i: usize = 0;
    while i < n
        invariant
            n == spec_box_count(range@),
            n <= 30,
            i <= n,
            now.wf(),
            intervals_fit(range@, n as int, *now),
            boxes@.len() == i,
            forall|k: int|
                0 <= k < i ==> (#[trigger] boxes@[k]).label@ == Seq::<char>::empty() && match history {
                    None => boxes@[k].status == DominoStatus::Gray && boxes@[k].tooltip@
                        == spec_empty_box_tooltip(k),
                    Some(data) => boxes@[k].status == spec_box_status(data@, range@, k, n as int, *now)
                        && boxes@[k].tooltip@ == spec_box_tooltip(data@, range@, k, n as int, *now),
                },
        decreases n - i,
    {
        let b = match history {
            None => {
                let mut tip = owned("Interval ");
                push_decimal(&mut tip, (i + 1) as u64);
                push_str(&mut tip, ": No data available");
                DominoBox { status: DominoStatus::Gray, tooltip: tip, label: String::new() }
            },
            Some(data) => {
                let (start, end, label) = calculate_interval_times(range, i, n, now);
                let count = count_pulses_in_interval(data, &start, &end);
                let status = if count > 0 {
                    if i == n - 1 || is_most_recent_with_activity(data, &start, &end) {
                        DominoStatus::Green
                    } else {
                        DominoStatus::Orange
                    }
                } else {
                    DominoStatus::Red
                };
                let mut tip = owned("Interval ");
                push_decimal(&mut tip, (i + 1) as u64);
                push_str(&mut tip, " (");
                push_str(&mut tip, label.as_str());
                push_str(&mut tip, "): ");
                push_signed_decimal(&mut tip, count);
                push_str(&mut tip, " pulse");
                if count != 1 {
                    push_str(&mut tip, "s");
                }
                proof {
                    if count == 1 {
                        assert(tip@ =~= tip@ + ""@) by {
                            reveal_strlit("");
                        }
                    }
                }
                DominoBox { status, tooltip: tip, label: String::new() }
            },
        };
        boxes.push(b);
        i = i + 1;
    }
    boxes
}

/// The boxes for a time range, judged at the current instant: without
/// history every box is grey with the tooltip `Interval <k>: No data
/// available`; with it, each box is coloured and described by its interval.
/// Every label is empty.
pub fn generate_domino_boxes(range: &str, history: Option<&[JsonValue]>) -> (r: Vec<DominoBox>)
    ensures
        r@.len() == spec_box_count(range@),
        exists|now: Timestamp|
            now.wf() && forall|i: int|
                0 <= i < r@.len() ==> (#[trigger] r@[i]).label@ == Seq::<char>::empty() && match history {
                    None => r@[i].status == DominoStatus::Gray && r@[i].tooltip@ == spec_empty_box_tooltip(
                        i,
                    ),
                    Some(data) => r@[i].status == spec_box_status(data@, range@, i, r@.len() as int, now)
                        && r@[i].tooltip@ == spec_box_tooltip(data@, range@, i, r@.len() as int, now),
                },
{
    let now = now();
    domino_boxes_at(range, history, &now)
}

} // verus!

verus! {

/// Summary of a pulse history.
#[derive(Debug)]
pub struct PulseStatistics {
    /// Sum of the counts (1 when absent) of entries with a readable time.
    pub total_pulses: i64,
    /// Number of intervals holding pulses.
    pub active_intervals: usize,
    /// Whole minutes from the first to the last pulse, and the number of
    /// gaps between pulses, when there are at least two; their quotient is
    /// the average time between pulses.
    pub pulse_spacing: Option<(i64, usize)>,
    /// How long ago the last pulse was, as `<m>m ago`, `<h>h ago` or
    /// `<d>d ago`.
    pub most_recent_pulse: Option<String>,
    /// Not computed.
    pub peak_activity_interval: Option<String>,
}

/// Sum, with wrap-around, of the counts (1 when absent) of timed entries.
pub open spec fn spec_total_pulses(data: Seq<JsonValue>) -> i64
    decreases data.len(),
{
    if data.len() == 0 {
        0
    } else {
        let rest = spec_total_pulses(data.drop_last());
        if entry_time(data.last()) is Some {
            wrapping_add_i64(rest, entry_count(data.last(), 1))
        } else {
            rest
        }
    }
}

/// Number of timed entries.
pub open spec fn spec_timed_count(data: Seq<JsonValue>) -> nat
    decreases data.len(),
{
    if data.len() == 0 {
        0
    } else {
        spec_timed_count(data.drop_last()) + if entry_time(data.last()) is Some { 1nat } else { 0nat }
    }
}

/// Earliest and latest times among timed entries.
pub open spec fn spec_time_bounds(data: Seq<JsonValue>) -> Option<(Timestamp, Timestamp)>
    decreases data.len(),
{
    if data.len() == 0 {
        None
    } else {
        let rest = spec_time_bounds(data.drop_last());
        match entry_time(data.last()) {
            Some(t) => match rest {
                Some((lo, hi)) => Some(
                    (
                        if t.total_nanos() < lo.total_nanos() { t } else { lo },
                        if hi.total_nanos() <= t.total_nanos() { t } else { hi },
                    ),
                ),
                None => Some((t, t)),
            },
            None => rest,
        }
    }
}

/// How long ago `last` was, at `now`: whole minutes under an hour, whole
/// hours under a day, whole days otherwise.
pub open spec fn spec_ago_minutes_hours_days(now: Timestamp, last: Timestamp) -> Seq<char> {
    let secs = elapsed_seconds(now, last);
    let m = div_toward_zero(secs, 60);
    let h = div_toward_zero(secs, 3600);
    let d = div_toward_zero(secs, 86400);
    if m < 60 {
        signed_decimal(m) + "m ago"@
    } else if h < 24 {
        signed_decimal(h) + "h ago"@
    } else {
        signed_decimal(d) + "d ago"@
    }
}

/// Number of the first `k` intervals that hold pulses.
pub open spec fn spec_active_intervals(data: Seq<JsonValue>, range: Seq<char>, n: int, now: Timestamp, k: int) -> nat
    decreases k,
{
    if k <= 0 {
        0
    } else {
        let (s, e) = spec_interval(range, k - 1, n, now);
        spec_active_intervals(data, range, n, now, k - 1) + if spec_count_in(data, s, e) > 0 {
            1nat
        } else {
            0nat
        }
    }
}

/// How long ago the last pulse was is shown in whole units, rounded toward
/// zero: in minutes under an hour, in hours under a day, in days from a
/// day on.  The number shown times the unit's length in seconds lies within
/// one unit of the elapsed time, on the side of zero.
pub proof fn recent_pulse_is_shown_in_whole_units(now: Timestamp, last: Timestamp)
    ensures
        ({
            let secs = elapsed_seconds(now, last);
            let text = spec_ago_minutes_hours_days(now, last);
            &&& secs < 3600 ==> exists|k: int|
                text == signed_decimal(k) + "m ago"@ && (if secs >= 0 {
                    0 <= secs - 60 * k < 60
                } else {
                    0 <= 60 * k - secs < 60
                })
            &&& 3600 <= secs < 86400 ==> exists|k: int|
                text == signed_decimal(k) + "h ago"@ && 0 <= secs - 3600 * k < 3600
            &&& 86400 <= secs ==> exists|k: int| text == signed_decimal(k) + "d ago"@ && 0 <= secs - 86400 * k < 86400
        }),
{
    let secs = elapsed_seconds(now, last);
    let text = spec_ago_minutes_hours_days(now, last);
    let m = div_toward_zero(secs, 60);
    let h = div_toward_zero(secs, 3600);
    let d = div_toward_zero(secs, 86400);
    if secs >= 0 {
        assert(0 <= secs - 60 * m < 60);
        assert(0 <= secs - 3600 * h < 3600);
        assert(0 <= secs - 86400 * d < 86400);
        if secs < 3600 {
            assert(m < 60);
            assert(text == signed_decimal(m) + "m ago"@);
        } else {
            assert(m >= 60);
            if secs < 86400 {
                assert(h < 24);
                assert(text == signed_decimal(h) + "h ago"@);
            } else {
                assert(h >= 24);
                assert(text == signed_decimal(d) + "d ago"@);
            }
        }
    } else {
        assert(0 <= 60 * m - secs < 60);
        assert(m < 60);
        assert(text == signed_decimal(m) + "m ago"@);
    }
}

fn ago_minutes_hours_days(now: &Timestamp, last: &Timestamp) -> (r: String)
    requires
        now.wf(),
        last.wf(),
    ensures
        r@ == spec_ago_minutes_hours_days(*now, *last),
{
    let secs = seconds_between(now, last);
    let m = crate::time::div_i64_toward_zero(secs, 60);
    let h = crate::time::div_i64_toward_zero(secs, 3600);
    let d = crate::time::div_i64_toward_zero(secs, 86400);
    let mut s = String::new();
    if m < 60 {
        push_signed_decimal(&mut s, m);
        push_str(&mut s, "m ago");
    } else if h < 24 {
        push_signed_decimal(&mut s, h);
        push_str(&mut s, "h ago");
    } else {
        push_signed_decimal(&mut s, d);
        push_str(&mut s, "d ago");
    }
    s
}

/// The statistics of a pulse history at `now`; without history everything
/// is zero or absent.
pub fn pulse_statistics_at(range: &str, history: Option<&[JsonValue]>, now: &Timestamp) -> (r: PulseStatistics)
    requires
        now.wf(),
        intervals_fit(range@, spec_box_count(range@) as int, *now),
    ensures
        r.peak_activity_interval is None,
        match history {
            None => r.total_pulses == 0 && r.active_intervals == 0 && r.pulse_spacing is None
                && r.most_recent_pulse is None,
            Some(data) => {
                &&& r.total_pulses == spec_total_pulses(data@)
                &&& r.active_intervals == spec_active_intervals(
                    data@,
                    range@,
                    spec_box_count(range@) as int,
                    *now,
                    spec_box_count(range@) as int,
                )
                &&& match spec_time_bounds(data@) {
                    None => r.pulse_spacing is None && r.most_recent_pulse is None,
                    Some((first, last)) => {
                        &&& r.most_recent_pulse matches Some(t) && t@ == spec_ago_minutes_hours_days(*now, last)
                        &&& if spec_timed_count(data@) > 1 {
                            r.pulse_spacing == Some(
                                (
                                    div_toward_zero(elapsed_seconds(last, first), 60) as i64,
                                    (spec_timed_count(data@) - 1) as usize,
                                ),
                            )
                        } else {
                            r.pulse_spacing is None
                        }
                    },
                }
            },
        },
{
    let data = match history {
        None => {
            return PulseStatistics {
                total_pulses: 0,
                active_intervals: 0,
                pulse_spacing: None,
                most_recent_pulse: None,
                peak_activity_interval: None,
            };
        },
        Some(d) => d,
    };
    let mut total: i64 = 0;
    let mut count: usize = 0;
    let mut bounds: Option<(Timestamp, Timestamp)> = None;
    let mut i: usize = 0;
    while i < data.len()
        invariant
            i <= data@.len(),
            total == spec_total_pulses(data@.subrange(0, i as int)),
            count == spec_timed_count(data@.subrange(0, i as int)),
            count <= i,
            bounds == spec_time_bounds(data@.subrange(0, i as int)),
            bounds matches Some((lo, hi)) ==> lo.wf() && hi.wf(),
            bounds is None <==> count == 0,
        decreases data@.len() - i,
    {
        assert(data@.subrange(0, i + 1).drop_last() =~= data@.subrange(0, i as int));
        match time_of_entry(&data[i]) {
            Some(t) => {
                total = add_wrapping(total, count_of_entry(&data[i], 1));
                count = count + 1;
                bounds = match bounds {
                    Some((lo, hi)) => Some(
                        (if t.is_before(&lo) { t } else { lo }, if !t.is_before(&hi) { t } else { hi }),
                    ),
                    None => Some((t, t)),
                };
            },
            None => {},
        }
        i = i + 1;
    }
    assert(data@.subrange(0, data@.len() as int) =~= data@);
    let n = box_count(range);
    let mut active: usize = 0;
    let mut k: usize = 0;
    while k < n
        invariant
            n == spec_box_count(range@),
            n <= 30,
            k <= n,
            now.wf(),
            intervals_fit(range@, n as int, *now),
            active <= k,
            active == spec_active_intervals(data@, range@, n as int, *now, k as int),
        decreases n - k,
    {
        let (start, end, _) = calculate_interval_times(range, k, n, now);
        if count_pulses_in_interval(data, &start, &end) > 0 {
            active = active + 1;
        }
        k = k + 1;
    }
    let (spacing, recent) = match bounds {
        None => (None, None),
        Some((first, last)) => {
            let spacing = if count > 1 {
                let span = seconds_between(&last, &first);
                Some((crate::time::div_i64_toward_zero(span, 60), count - 1))
            } else {
                None
            };
            (spacing, Some(ago_minutes_hours_days(now, &last)))
        },
    };
    PulseStatistics {
        total_pulses: total,
        active_intervals: active,
        pulse_spacing: spacing,
        most_recent_pulse: recent,
        peak_activity_interval: None,
    }
}

/// The statistics of a pulse history, judged at the current instant;
/// without history everything is zero or absent.
pub fn calculate_pulse_statistics(range: &str, history: Option<&[JsonValue]>) -> (r: PulseStatistics)
    ensures
        r.peak_activity_interval is None,
        match history {
            None => r.total_pulses == 0 && r.active_intervals == 0 && r.pulse_spacing is None
                && r.most_recent_pulse is None,
            Some(data) => exists|now: Timestamp|
                {
                    &&& now.wf()
                    &&& r.total_pulses == spec_total_pulses(data@)
                    &&& r.active_intervals == spec_active_intervals(
                        data@,
                        range@,
                        spec_box_count(range@) as int,
                        now,
                        spec_box_count(range@) as int,
                    )
                    &&& match spec_time_bounds(data@) {
                        None => r.pulse_spacing is None && r.most_recent_pulse is None,
                        Some((first, last)) => {
                            &&& r.most_recent_pulse matches Some(t) && t@ == spec_ago_minutes_hours_days(
                                now,
                                last,
                            )
                            &&& if spec_timed_count(data@) > 1 {
                                r.pulse_spacing == Some(
                                    (
                                        div_toward_zero(elapsed_seconds(last, first), 60) as i64,
                                        (spec_timed_count(data@) - 1) as usize,
                                    ),
                                )
                            } else {
                                r.pulse_spacing is None
                            }
                        },
                    }
                },
        },
{
    let now = now();
    pulse_statistics_at(range, history, &now)
}

/// The description shown for a time range.
pub fn get_time_range_description(range: &str) -> (r: String)
    ensures
        r@ == if range@ == "1h"@ {
            "30 boxes, 2-minute intervals"@
        } else if range@ == "1d"@ {
            "24 boxes, hourly intervals"@
        } else if range@ == "1w"@ {
            "14 boxes, 12-hour day/night intervals"@
        } else if range@ == "1m"@ {
            "30 boxes, daily intervals"@
        } else {
            "Time intervals"@
        },
{
    if str_equal(range, "1h") {
        owned("30 boxes, 2-minute intervals")
    } else if str_equal(range, "1d") {
        owned("24 boxes, hourly intervals")
    } else if str_equal(range, "1w") {
        owned("14 boxes, 12-hour day/night intervals")
    } else if str_equal(range, "1m") {
        owned("30 boxes, daily intervals")
    } else {
        owned("Time intervals")
    }
}

} // verus!
