//! Trigger history: the on/off states reported on a trigger topic, newest
//! first, and how long the trigger stayed on.
use vstd::prelude::*;
use crate::json::JsonValue;
use crate::order::{
    is_index_permutation, is_stable_sort, lemma_stable_sort_from_keys, newest_first_key, stable_order,
};
use crate::pulses::{entry_timestamp, timestamp_of_entry};
use crate::text::{push_signed_decimal, push_str, signed_decimal};
use crate::time::{
    div_i64_toward_zero, div_toward_zero, elapsed_seconds, now, seconds_between, Timestamp, MAX_SECONDS,
    MIN_SECONDS,
};

verus! {

/// A trigger's state and when it was reported.
#[derive(Clone, Copy, Debug, PartialEq, Eq, Structural)]
pub struct TriggerState {
    pub state: bool,
    pub timestamp: Timestamp,
}

/// The state an entry reports: its `timestamp` and the boolean under
/// `data.Trigger.state`.
pub open spec fn entry_trigger(e: JsonValue) -> Option<TriggerState> {
    match entry_timestamp(e) {
        Some(t) => match e.spec_get("data"@) {
            Some(d) => match d.spec_get("Trigger"@) {
                Some(tr) => match tr.spec_get("state"@) {
                    Some(JsonValue::Bool(b)) => Some(TriggerState { state: b, timestamp: t }),
                    _ => None,
                },
                None => None,
            },
            None => None,
        },
        None => None,
    }
}

/// The states reported by the entries that report one, in entry order.
pub open spec fn triggers_of(data: Seq<JsonValue>) -> Seq<TriggerState>
    decreases data.len(),
{
    if data.len() == 0 {
        Seq::empty()
    } else {
        let rest = triggers_of(data.drop_last());
        match entry_trigger(data.last()) {
            Some(s) => rest.push(s),
            None => rest,
        }
    }
}

/// `a` may be listed before `b`: it is no older.
pub open spec fn newest_first(a: TriggerState, b: TriggerState) -> bool {
    b.timestamp.total_nanos() <= a.timestamp.total_nanos()
}

/// Every state carries a well-formed instant.
pub open spec fn states_wf(s: Seq<TriggerState>) -> bool {
    forall|i: int| 0 <= i < s.len() ==> (#[trigger] s[i]).timestamp.wf()
}

/// Each state is no newer than the ones listed before it.
pub open spec fn newest_to_oldest(s: Seq<TriggerState>) -> bool {
    forall|i: int, j: int|
        0 <= i < j < s.len() ==> (#[trigger] s[j]).timestamp.total_nanos() <= (#[trigger] s[i]).timestamp.total_nanos()
}

fn trigger_of_entry(e: &JsonValue) -> (r: Option<TriggerState>)
    ensures
        r == entry_trigger(*e),
        r matches Some(s) ==> s.timestamp.wf(),
{
    let t = match timestamp_of_entry(e) {
        Some(t) => t,
        None => return None,
    };
    let d = match e.get("data") {
        Some(d) => d,
        None => return None,
    };
    let tr = match d.get("Trigger") {
        Some(tr) => tr,
        None => return None,
    };
    match tr.get("state") {
        Some(JsonValue::Bool(b)) => Some(TriggerState { state: *b, timestamp: t }),
        _ => None,
    }
}

/// The states reported in a trigger history, newest first; entries without
/// a readable `timestamp` or a boolean `data.Trigger.state` are skipped, and
/// states reported at the same instant keep their order.
pub fn parse_trigger_states(data: &[JsonValue]) -> (r: Vec<TriggerState>)
    ensures
        is_stable_sort(r@, triggers_of(data@), |a: TriggerState, b: TriggerState| newest_first(a, b)),
        states_wf(r@),
        newest_to_oldest(r@),
{
    let mut found: Vec<TriggerState> = Vec::new();
    let mut i: usize = 0;
    while i < data.len()
        invariant
            i <= data@.len(),
            found@ == triggers_of(data@.subrange(0, i as int)),
            states_wf(found@),
        decreases data@.len() - i,
    {
        assert(data@.subrange(0, i + 1).drop_last() =~= data@.subrange(0, i as int));
        match trigger_of_entry(&data[i]) {
            Some(s) => found.push(s),
            None => {},
        }
        i = i + 1;
    }
    assert(data@.subrange(0, data@.len() as int) =~= data@);
    let n = found.len();
    let mut keys: Vec<i128> = Vec::new();
    let mut j: usize = 0;
    while j < n
        invariant
            n == found@.len(),
            j <= n,
            states_wf(found@),
            keys@.len() == j,
            forall|k: int| 0 <= k < j ==> #[trigger] keys@[k] == -found@[k].timestamp.total_nanos(),
        decreases n - j,
    {
        assert(found@[j as int].timestamp.wf());
        keys.push(newest_first_key(&found[j].timestamp));
        j = j + 1;
    }
    let order = stable_order(&keys);
    let mut out: Vec<TriggerState> = Vec::new();
    let mut j: usize = 0;
    while j < n
        invariant
            n == found@.len(),
            is_index_permutation(order@, n as nat),
            j <= n,
            out@.len() == j,
            forall|k: int| 0 <= k < j ==> out@[k] == found@[#[trigger] order@[k] as int],
        decreases n - j,
    {
        out.push(found[order[j]]);
        j = j + 1;
    }
    proof {
        let le = |a: TriggerState, b: TriggerState| newest_first(a, b);
        lemma_stable_sort_from_keys(out@, found@, keys@, order@, le);
        assert forall|i: int| 0 <= i < out@.len() implies (#[trigger] out@[i]).timestamp.wf() by {
            assert(out@[i] == found@[order@[i] as int]);
        }
        assert forall|i: int, j: int| 0 <= i < j < out@.len() implies (#[trigger] out@[j]).timestamp.total_nanos()
            <= (#[trigger] out@[i]).timestamp.total_nanos() by {
            let w = choose|w: Seq<usize>|
                {
                    &&& is_index_permutation(w, found@.len())
                    &&& out@.len() == found@.len()
                    &&& forall|i: int| 0 <= i < out@.len() ==> out@[i] == found@[#[trigger] w[i] as int]
                    &&& forall|i: int, j: int| 0 <= i < j < out@.len() ==> le(#[trigger] out@[i], #[trigger] out@[j])
                    &&& forall|i: int, j: int|
                        0 <= i < j < out@.len() && le(out@[j], out@[i]) ==> #[trigger] w[i] < #[trigger] w[j]
                };
            assert(le(out@[i], out@[j]));
        }
    }
    out
}

} // verus!

verus! {

/// The largest span chrono's `TimeDelta` holds, in nanoseconds
/// (`i64::MAX` milliseconds, either way).
pub open spec fn max_delta_nanos() -> int {
    9_223_372_036_854_775_807_000_000
}

/// A span, in nanoseconds, that chrono's `TimeDelta` can hold.
pub open spec fn fits_time_delta(n: int) -> bool {
    -max_delta_nanos() <= n <= max_delta_nanos()
}

/// Nanoseconds the trigger was on between consecutive reports: for each
/// pair of neighbours, the gap between them when the older one is on.
pub open spec fn window_active_nanos(s: Seq<TriggerState>) -> int
    decreases s.len(),
{
    if s.len() < 2 {
        0
    } else {
        window_active_nanos(s.drop_last()) + if s.last().state {
            s[s.len() - 2].timestamp.total_nanos() - s.last().timestamp.total_nanos()
        } else {
            0
        }
    }
}

/// Nanoseconds the trigger was on, counting, when the newest report is on,
/// the time from it to `now`.
pub open spec fn active_nanos(s: Seq<TriggerState>, now: Timestamp) -> int {
    window_active_nanos(s) + if s.len() > 0 && s[0].state {
        now.total_nanos() - s[0].timestamp.total_nanos()
    } else {
        0
    }
}

/// The span of a history: from the last listed report to the first, or one
/// hour when there is a single report.
pub open spec fn span_nanos(s: Seq<TriggerState>) -> int {
    if s.len() > 1 {
        s[0].timestamp.total_nanos() - s.last().timestamp.total_nanos()
    } else {
        3_600_000_000_000
    }
}

/// Every running sum of the on-time between reports is a span chrono can
/// hold (the sums that the history's walk adds up).
pub open spec fn window_sums_fit(s: Seq<TriggerState>) -> bool {
    forall|k: int| 2 <= k <= s.len() ==> fits_time_delta(window_active_nanos(#[trigger] s.subrange(0, k)))
}

/// The figures behind a trigger history's statistics.  The share of time
/// on is `active_seconds / span_seconds` (none when `span_seconds` is not
/// positive), and the toggles per hour are `changes / span_hours` (none when
/// `span_hours` is not positive).
#[derive(Debug)]
pub struct TriggerStats {
    /// Whole seconds the trigger was on.
    pub active_seconds: i64,
    /// Whole seconds the history spans.
    pub span_seconds: i64,
    /// Whole hours the history spans.
    pub span_hours: i64,
    /// Number of reports after the first.
    pub changes: usize,
    /// How long the newest state has lasted, as [`format_duration`] writes
    /// it.
    pub current_state_duration: Option<String>,
}

/// A duration of `secs` whole seconds: seconds under a minute, minutes under
/// an hour, hours and minutes under a day, days and hours otherwise.
pub open spec fn duration_text(secs: int) -> Seq<char> {
    let m = div_toward_zero(secs, 60);
    let h = div_toward_zero(secs, 3600);
    let d = div_toward_zero(secs, 86400);
    if secs < 60 {
        signed_decimal(secs) + "s"@
    } else if m < 60 {
        signed_decimal(m) + "m"@
    } else if h < 24 {
        signed_decimal(h) + "h "@ + signed_decimal(m % 60) + "m"@
    } else {
        signed_decimal(d) + "d "@ + signed_decimal(h % 24) + "h"@
    }
}

/// How long ago `then` was, at `now`: seconds under a minute, minutes under
/// an hour, hours under a day, days otherwise.
pub open spec fn time_ago_text(now: Timestamp, then: Timestamp) -> Seq<char> {
    let secs = elapsed_seconds(now, then);
    let m = div_toward_zero(secs, 60);
    let h = div_toward_zero(secs, 3600);
    let d = div_toward_zero(secs, 86400);
    if secs < 60 {
        signed_decimal(secs) + "s ago"@
    } else if m < 60 {
        signed_decimal(m) + "m ago"@
    } else if h < 24 {
        signed_decimal(h) + "h ago"@
    } else {
        signed_decimal(d) + "d ago"@
    }
}

/// Writes a duration of `secs` whole seconds.
pub fn format_duration(secs: i64) -> (r: String)
    ensures
        r@ == duration_text(secs as int),
{
    let mut s = String::new();
    if secs < 60 {
        push_signed_decimal(&mut s, secs);
        push_str(&mut s, "s");
    } else {
        let u: u64 = secs as u64;
        let (m, h, d) = (u / 60, u / 3600, u / 86400);
        if m < 60 {
            push_signed_decimal(&mut s, m as i64);
            push_str(&mut s, "m");
        } else if h < 24 {
            push_signed_decimal(&mut s, h as i64);
            push_str(&mut s, "h ");
            push_signed_decimal(&mut s, (m % 60) as i64);
            push_str(&mut s, "m");
        } else {
            push_signed_decimal(&mut s, d as i64);
            push_str(&mut s, "d ");
            push_signed_decimal(&mut s, (h % 24) as i64);
            push_str(&mut s, "h");
        }
    }
    s
}

/// How long ago `then` was, judged at `now`.
pub fn time_ago_at(now: &Timestamp, then: &Timestamp) -> (r: String)
    requires
        now.wf(),
        then.wf(),
    ensures
        r@ == time_ago_text(*now, *then),
{
    let secs = seconds_between(now, then);
    let mut s = String::new();
    if secs < 60 {
        push_signed_decimal(&mut s, secs);
        push_str(&mut s, "s ago");
    } else {
        let u: u64 = secs as u64;
        let (m, h, d) = (u / 60, u / 3600, u / 86400);
        if m < 60 {
            push_signed_decimal(&mut s, m as i64);
            push_str(&mut s, "m ago");
        } else if h < 24 {
            push_signed_decimal(&mut s, h as i64);
            push_str(&mut s, "h ago");
        } else {
            push_signed_decimal(&mut s, d as i64);
            push_str(&mut s, "d ago");
        }
    }
    s
}

/// How long ago `then` was, judged at the current instant.
pub fn format_time_ago(then: &Timestamp) -> (r: String)
    requires
        then.wf(),
    ensures
        exists|now: Timestamp| now.wf() && r@ == time_ago_text(now, *then),
{
    let now = now();
    time_ago_at(&now, then)
}

fn nanos_between(a: &Timestamp, b: &Timestamp) -> (r: i128)
    requires
        a.wf(),
        b.wf(),
    ensures
        r == a.total_nanos() - b.total_nanos(),
{
    (a.secs as i128 - b.secs as i128) * 1_000_000_000i128 + (a.nanos as i128 - b.nanos as i128)
}

proof fn lemma_nanos_gap_bound(a: Timestamp, b: Timestamp)
    requires
        a.wf(),
        b.wf(),
    ensures
        -16_544_868_192_000_000_000_000 <= a.total_nanos() - b.total_nanos() <= 16_544_868_192_000_000_000_000,
{
}

fn nanos_to_seconds(n: i128) -> (r: i64)
    requires
        fits_time_delta(n as int),
    ensures
        r == div_toward_zero(n as int, 1_000_000_000),
{
    let q: i128 = if n >= 0 { n / 1_000_000_000i128 } else { -((-n) / 1_000_000_000i128) };
    q as i64
}

/// The statistics of a trigger history listed newest first, judged at
/// `now`: the on-time, the span, the number of changes, and how long the
/// newest state has lasted.  An empty history gives zeros and no duration.
pub fn trigger_stats_at(states: &[TriggerState], now: &Timestamp) -> (r: TriggerStats)
    requires
        now.wf(),
        states_wf(states@),
        window_sums_fit(states@),
        fits_time_delta(active_nanos(states@, *now)),
    ensures
        states@.len() == 0 ==> {
            &&& r.active_seconds == 0
            &&& r.span_seconds == 0
            &&& r.span_hours == 0
            &&& r.changes == 0
            &&& r.current_state_duration is None
        },
        states@.len() > 0 ==> {
            &&& r.active_seconds == div_toward_zero(active_nanos(states@, *now), 1_000_000_000)
            &&& r.span_seconds == div_toward_zero(span_nanos(states@), 1_000_000_000)
            &&& r.span_hours == div_toward_zero(r.span_seconds as int, 3600)
            &&& r.changes == states@.len() - 1
            &&& r.current_state_duration matches Some(d) && d@ == duration_text(
                elapsed_seconds(*now, states@[0].timestamp),
            )
        },
{
    let n = states.len();
    if n == 0 {
        return TriggerStats {
            active_seconds: 0,
            span_seconds: 0,
            span_hours: 0,
            changes: 0,
            current_state_duration: None,
        };
    }
    proof {
        assert(states@[0].timestamp.wf());
        assert(states@[n - 1].timestamp.wf());
        lemma_nanos_gap_bound(states@[0].timestamp, states@[n - 1].timestamp);
    }
    let span: i128 = if n > 1 {
        nanos_between(&states[0].timestamp, &states[n - 1].timestamp)
    } else {
        3_600_000_000_000i128
    };
    let mut active: i128 = 0;
    let mut i: usize = 1;
    while i < n
        invariant
            n == states@.len(),
            1 <= i <= n,
            states_wf(states@),
            window_sums_fit(states@),
            active == window_active_nanos(states@.subrange(0, i as int)),
            fits_time_delta(active as int),
        decreases n - i,
    {
        let ghost prefix = states@.subrange(0, i + 1);
        assert(prefix.drop_last() =~= states@.subrange(0, i as int));
        assert(prefix[prefix.len() - 2] == states@[i - 1]);
        assert(states@[i as int].timestamp.wf() && states@[i - 1].timestamp.wf());
        proof {
            lemma_nanos_gap_bound(states@[i - 1].timestamp, states@[i as int].timestamp);
        }
        if states[i].state {
            active = active + nanos_between(&states[i - 1].timestamp, &states[i].timestamp);
        }
        assert(fits_time_delta(window_active_nanos(states@.subrange(0, i + 1))));
        i = i + 1;
    }
    assert(states@.subrange(0, n as int) =~= states@);
    proof {
        lemma_nanos_gap_bound(*now, states@[0].timestamp);
    }
    if states[0].state {
        active = active + nanos_between(now, &states[0].timestamp);
    }
    let span_seconds = nanos_to_seconds(span);
    let since = seconds_between(now, &states[0].timestamp);
    TriggerStats {
        active_seconds: nanos_to_seconds(active),
        span_seconds,
        span_hours: div_i64_toward_zero(span_seconds, 3600),
        changes: n - 1,
        current_state_duration: Some(format_duration(since)),
    }
}

proof fn lemma_ordered_window_bound(s: Seq<TriggerState>, k: int)
    requires
        1 <= k <= s.len(),
        newest_to_oldest(s),
    ensures
        0 <= window_active_nanos(s.subrange(0, k)) <= s[0].timestamp.total_nanos() - s[k - 1].timestamp.total_nanos(),
    decreases k,
{
    if k >= 2 {
        lemma_ordered_window_bound(s, k - 1);
        assert(s.subrange(0, k).drop_last() =~= s.subrange(0, k - 1));
        assert(s[k - 1].timestamp.total_nanos() <= s[k - 2].timestamp.total_nanos());
        assert(s[k - 2].timestamp.total_nanos() <= s[0].timestamp.total_nanos() || k - 2 == 0);
    }
}

/// A history listed newest to oldest meets what [`trigger_stats_at`] needs,
/// whatever well-formed instant `now` is.
proof fn lemma_ordered_history_fits(s: Seq<TriggerState>, now: Timestamp)
    requires
        now.wf(),
        states_wf(s),
        newest_to_oldest(s),
    ensures
        window_sums_fit(s),
        fits_time_delta(active_nanos(s, now)),
{
    assert forall|k: int| 2 <= k <= s.len() implies fits_time_delta(window_active_nanos(#[trigger] s.subrange(0, k))) by {
        lemma_ordered_window_bound(s, k);
        assert(s[0].timestamp.wf() && s[k - 1].timestamp.wf());
        lemma_nanos_gap_bound(s[0].timestamp, s[k - 1].timestamp);
    }
    if s.len() > 0 {
        lemma_ordered_window_bound(s, s.len() as int);
        assert(s.subrange(0, s.len() as int) =~= s);
        assert(s[0].timestamp.wf() && s[s.len() - 1].timestamp.wf());
        lemma_nanos_gap_bound(s[0].timestamp, s[s.len() - 1].timestamp);
        lemma_nanos_gap_bound(now, s[0].timestamp);
    }
}

/// What a trigger history shows at the current instant: its states, newest
/// first, and their statistics.
pub fn trigger_summary(data: &[JsonValue]) -> (r: (Vec<TriggerState>, TriggerStats))
    ensures
        is_stable_sort(r.0@, triggers_of(data@), |a: TriggerState, b: TriggerState| newest_first(a, b)),
        r.0@.len() == 0 ==> r.1.changes == 0 && r.1.span_seconds == 0 && r.1.current_state_duration is None,
        exists|now: Timestamp|
            {
                &&& now.wf()
                &&& r.0@.len() > 0 ==> {
                    &&& r.1.active_seconds == div_toward_zero(active_nanos(r.0@, now), 1_000_000_000)
                    &&& r.1.span_seconds == div_toward_zero(span_nanos(r.0@), 1_000_000_000)
                    &&& r.1.span_hours == div_toward_zero(r.1.span_seconds as int, 3600)
                    &&& r.1.changes == r.0@.len() - 1
                    &&& r.1.current_state_duration matches Some(d) && d@ == duration_text(
                        elapsed_seconds(now, r.0@[0].timestamp),
                    )
                }
            },
{
    let states = parse_trigger_states(data);
    let now = now();
    proof {
        lemma_ordered_history_fits(states@, now);
    }
    let stats = trigger_stats_at(states.as_slice(), &now);
    (states, stats)
}

} // verus!
