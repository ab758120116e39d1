//! Event history: messages reported on an event topic, newest first, each
//! sorted into a category by the words it contains.
use vstd::prelude::*;
use crate::json::JsonValue;
use crate::order::{
    is_index_permutation, is_stable_sort, lemma_stable_sort_from_keys, newest_first_key, stable_order,
};
use crate::pulses::{entry_timestamp, timestamp_of_entry};
use crate::text::{chars_of, contains_word, has_infix, has_prefix, lowercase, str_starts_with, to_lowercase};
use crate::time::Timestamp;

verus! {

/// The kind of an event message.
#[derive(Clone, Copy, Debug, PartialEq, Eq, Structural)]
pub enum EventCategory {
    Info,
    Warning,
    Error,
    Success,
    Debug,
}

/// An event message, when it was reported, and its category.
#[derive(Debug)]
pub struct EventEntry {
    pub message: String,
    pub timestamp: Timestamp,
    pub category: EventCategory,
}

/// An event entry with its message as text.
pub struct EventEntryView {
    pub message: Seq<char>,
    pub timestamp: Timestamp,
    pub category: EventCategory,
}

impl View for EventEntry {
    type V = EventEntryView;

    open spec fn view(&self) -> EventEntryView {
        EventEntryView { message: self.message@, timestamp: self.timestamp, category: self.category }
    }
}

/// The views of a sequence of event entries.
pub open spec fn events_view(events: Seq<EventEntry>) -> Seq<EventEntryView> {
    events.map_values(|e: EventEntry| e@)
}

/// The category of a message, judged on its lowercase form: `Error` when it
/// mentions `error`, `fail` or `critical`; else `Warning` for `warn`,
/// `caution` or `alert`; else `Success` for `success`, `complete` or `ok`;
/// else `Debug` for `debug` or `trace` (or a leading `[debug]`); else
/// `Info`.
pub open spec fn category_of(message: Seq<char>) -> EventCategory {
    let l = lowercase(message);
    if has_infix(l, "error"@) || has_infix(l, "fail"@) || has_infix(l, "critical"@) {
        EventCategory::Error
    } else if has_infix(l, "warn"@) || has_infix(l, "caution"@) || has_infix(l, "alert"@) {
        EventCategory::Warning
    } else if has_infix(l, "success"@) || has_infix(l, "complete"@) || has_infix(l, "ok"@) {
        EventCategory::Success
    } else if has_infix(l, "debug"@) || has_infix(l, "trace"@) || has_prefix(l, "[debug]"@) {
        EventCategory::Debug
    } else {
        EventCategory::Info
    }
}

/// Sorts a message into its category.
pub fn categorize_message(message: &str) -> (r: EventCategory)
    ensures
        r == category_of(message@),
{
    let lower = to_lowercase(message);
    let l = chars_of(lower.as_str());
    let s = l.as_slice();
    if contains_word(s, "error") || contains_word(s, "fail") || contains_word(s, "critical") {
        EventCategory::Error
    } else if contains_word(s, "warn") || contains_word(s, "caution") || contains_word(s, "alert") {
        EventCategory::Warning
    } else if contains_word(s, "success") || contains_word(s, "complete") || contains_word(s, "ok") {
        EventCategory::Success
    } else if contains_word(s, "debug") || contains_word(s, "trace") || str_starts_with(
        lower.as_str(),
        "[debug]",
    ) {
        EventCategory::Debug
    } else {
        EventCategory::Info
    }
}

/// The style class of a category.
pub fn get_category_class(category: &EventCategory) -> (r: &'static str)
    ensures
        r@ == match *category {
            EventCategory::Info => "info"@,
            EventCategory::Warning => "warning"@,
            EventCategory::Error => "error"@,
            EventCategory::Success => "success"@,
            EventCategory::Debug => "debug"@,
        },
{
    match category {
        EventCategory::Info => "info",
        EventCategory::Warning => "warning",
        EventCategory::Error => "error",
        EventCategory::Success => "success",
        EventCategory::Debug => "debug",
    }
}

/// The marker shown beside a category: blue, yellow, red, green or white.
pub fn get_category_icon(category: &EventCategory) -> (r: &'static str)
    ensures
        r@ == match *category {
            EventCategory::Info => "\u{1F535}"@,
            EventCategory::Warning => "\u{1F7E1}"@,
            EventCategory::Error => "\u{1F534}"@,
            EventCategory::Success => "\u{1F7E2}"@,
            EventCategory::Debug => "\u{26AA}"@,
        },
{
    match category {
        EventCategory::Info => "\u{1F535}",
        EventCategory::Warning => "\u{1F7E1}",
        EventCategory::Error => "\u{1F534}",
        EventCategory::Success => "\u{1F7E2}",
        EventCategory::Debug => "\u{26AA}",
    }
}

/// The event an entry reports: its `timestamp` and the string under
/// `data.Event.message`, categorized.
pub open spec fn entry_event(e: JsonValue) -> Option<EventEntryView> {
    match entry_timestamp(e) {
        Some(t) => match e.spec_get("data"@) {
            Some(d) => match d.spec_get("Event"@) {
                Some(ev) => match ev.spec_get("message"@) {
                    Some(JsonValue::String(m)) => Some(
                        EventEntryView { message: m@, timestamp: t, category: category_of(m@) },
                    ),
                    _ => None,
                },
                None => None,
            },
            None => None,
        },
        None => None,
    }
}

/// The events reported by the entries that report one, in entry order.
pub open spec fn events_of(data: Seq<JsonValue>) -> Seq<EventEntryView>
    decreases data.len(),
{
    if data.len() == 0 {
        Seq::empty()
    } else {
        let rest = events_of(data.drop_last());
        match entry_event(data.last()) {
            Some(v) => rest.push(v),
            None => rest,
        }
    }
}

/// `a` may be listed before `b`: it is no older.
pub open spec fn event_newest_first(a: EventEntryView, b: EventEntryView) -> bool {
    b.timestamp.total_nanos() <= a.timestamp.total_nanos()
}

fn event_of_entry(e: &JsonValue) -> (r: Option<EventEntry>)
    ensures
        match r {
            Some(ev) => entry_event(*e) == Some(ev@) && ev.timestamp.wf(),
            None => entry_event(*e) is None,
        },
{
    let t = match timestamp_of_entry(e) {
        Some(t) => t,
        None => return None,
    };
    let d = match e.get("data") {
        Some(d) => d,
        None => return None,
    };
    let ev = match d.get("Event") {
        Some(ev) => ev,
        None => return None,
    };
    match ev.get("message") {
        Some(JsonValue::String(m)) => {
            let category = categorize_message(m.as_str());
            Some(EventEntry { message: m.clone(), timestamp: t, category })
        },
        _ => None,
    }
}

fn copy_event(e: &EventEntry) -> (r: EventEntry)
    ensures
        r == *e,
{
    EventEntry { message: e.message.clone(), timestamp: e.timestamp, category: e.category }
}

/// The events reported in an event history, newest first; entries without
/// a readable `timestamp` or a string `data.Event.message` are skipped, and
/// events reported at the same instant keep their order.
pub fn parse_event_entries(data: &[JsonValue]) -> (r: Vec<EventEntry>)
    ensures
        is_stable_sort(
            events_view(r@),
            events_of(data@),
            |a: EventEntryView, b: EventEntryView| event_newest_first(a, b),
        ),
        forall|i: int| 0 <= i < r@.len() ==> (#[trigger] r@[i]).timestamp.wf(),
{
    let mut found: Vec<EventEntry> = Vec::new();
    let mut i: usize = 0;
    while i < data.len()
        invariant
            i <= data@.len(),
            events_view(found@) == events_of(data@.subrange(0, i as int)),
            forall|k: int| 0 <= k < found@.len() ==> (#[trigger] found@[k]).timestamp.wf(),
        decreases data@.len() - i,
    {
        assert(data@.subrange(0, i + 1).drop_last() =~= data@.subrange(0, i as int));
        match event_of_entry(&data[i]) {
            Some(ev) => {
                found.push(ev);
            },
            None => {},
        }
        assert(events_view(found@) =~= events_of(data@.subrange(0, i + 1)));
        i = i + 1;
    }
    assert(data@.subrange(0, data@.len() as int) =~= data@);
    let n = found.len();
    let mut keys: Vec<i128> = Vec::new();
    let mut j: usize = 0;
    while j < n
        invariant
            n == found@.len(),
            j <= n,
            forall|k: int| 0 <= k < found@.len() ==> (#[trigger] found@[k]).timestamp.wf(),
            keys@.len() == j,
            forall|k: int| 0 <= k < j ==> #[trigger] keys@[k] == -found@[k].timestamp.total_nanos(),
        decreases n - j,
    {
        assert(found@[j as int].timestamp.wf());
        keys.push(newest_first_key(&found[j].timestamp));
        j = j + 1;
    }
    let order = stable_order(&keys);
    let mut out: Vec<EventEntry> = Vec::new();
    let mut j: usize = 0;
    while j < n
        invariant
            n == found@.len(),
            is_index_permutation(order@, n as nat),
            j <= n,
            out@.len() == j,
            forall|k: int| 0 <= k < j ==> out@[k] == found@[#[trigger] order@[k] as int],
        decreases n - j,
    {
        out.push(copy_event(&found[order[j]]));
        j = j + 1;
    }
    proof {
        let le = |a: EventEntryView, b: EventEntryView| event_newest_first(a, b);
        let vin = events_view(found@);
        let vout = events_view(out@);
        assert forall|k: int| 0 <= k < vout.len() implies vout[k] == vin[#[trigger] order@[k] as int] by {
            assert(out@[k] == found@[order@[k] as int]);
        }
        lemma_stable_sort_from_keys(vout, vin, keys@, order@, le);
        assert forall|k: int| 0 <= k < out@.len() implies (#[trigger] out@[k]).timestamp.wf() by {
            assert(out@[k] == found@[order@[k] as int]);
        }
    }
    out
}

/// The events shown when a category is selected: those of that category,
/// in their order; all events when none is selected.
pub fn events_in_category(events: &[EventEntry], category: Option<EventCategory>) -> (r: Vec<EventEntry>)
    ensures
        match category {
            None => r@ == events@,
            Some(c) => r@ == events@.filter(|e: EventEntry| e.category == c),
        },
{
    let ghost pred = |e: EventEntry|
        match category {
            None => true,
            Some(c) => e.category == c,
        };
    let mut out: Vec<EventEntry> = Vec::new();
    let mut i: usize = 0;
    while i < events.len()
        invariant
            i <= events@.len(),
            pred == (|e: EventEntry|
                match category {
                    None => true,
                    Some(c) => e.category == c,
                }),
            out@ == events@.subrange(0, i as int).filter(pred),
        decreases events@.len() - i,
    {
        proof {
            reveal(Seq::filter);
            assert(events@.subrange(0, i + 1).drop_last() =~= events@.subrange(0, i as int));
        }
        let keep = match category {
            None => true,
            Some(c) => events[i].category == c,
        };
        if keep {
            out.push(copy_event(&events[i]));
        }
        i = i + 1;
    }
    assert(events@.subrange(0, events@.len() as int) =~= events@);
    proof {
        match category {
            None => {
                assert(events@.filter(pred) =~= events@) by {
                    assert forall|k: int| 0 <= k < events@.len() implies pred(#[trigger] events@[k]) by {}
                    lemma_filter_everything(events@, pred);
                }
            },
            Some(c) => {
                assert(pred == (|e: EventEntry| e.category == c));
            },
        }
    }
    out
}

/// Filtering by a predicate that holds of every element keeps the sequence.
proof fn lemma_filter_everything(s: Seq<EventEntry>, pred: spec_fn(EventEntry) -> bool)
    requires
        forall|k: int| 0 <= k < s.len() ==> pred(#[trigger] s[k]),
    ensures
        s.filter(pred) == s,
    decreases s.len(),
{
    reveal(Seq::filter);
    if s.len() > 0 {
        lemma_filter_everything(s.drop_last(), pred);
        assert(s.drop_last().push(s.last()) =~= s);
    } else {
        assert(s.filter(pred) =~= s);
    }
}

/// How many events belong to a category.
pub fn category_count(events: &[EventEntry], category: EventCategory) -> (r: usize)
    ensures
        r == events@.filter(|e: EventEntry| e.category == category).len(),
{
    let ghost pred = |e: EventEntry| e.category == category;
    let mut n: usize = 0;
    let mut i: usize = 0;
    while i < events.len()
        invariant
            i <= events@.len(),
            n <= i,
            pred == (|e: EventEntry| e.category == category),
            n == events@.subrange(0, i as int).filter(pred).len(),
        decreases events@.len() - i,
    {
        proof {
            reveal(Seq::filter);
            assert(events@.subrange(0, i + 1).drop_last() =~= events@.subrange(0, i as int));
        }
        if events[i].category == category {
            n = n + 1;
        }
        i = i + 1;
    }
    assert(events@.subrange(0, events@.len() as int) =~= events@);
    n
}

/// A message that mentions `error`, `fail` or `critical`, in any case, is
/// an error, whatever else it says.
pub proof fn error_words_make_errors(message: Seq<char>)
    requires
        has_infix(lowercase(message), "error"@) || has_infix(lowercase(message), "fail"@) || has_infix(
            lowercase(message),
            "critical"@,
        ),
    ensures
        category_of(message) == EventCategory::Error,
{
}

/// A message without error words that mentions `warn`, `caution` or
/// `alert`, in any case, is a warning.
pub proof fn warning_words_make_warnings(message: Seq<char>)
    requires
        !has_infix(lowercase(message), "error"@),
        !has_infix(lowercase(message), "fail"@),
        !has_infix(lowercase(message), "critical"@),
        has_infix(lowercase(message), "warn"@) || has_infix(lowercase(message), "caution"@) || has_infix(
            lowercase(message),
            "alert"@,
        ),
    ensures
        category_of(message) == EventCategory::Warning,
{
}

/// A message that mentions none of the category words is information.
pub proof fn plain_messages_are_information(message: Seq<char>)
    requires
        forall|w: Seq<char>|
            #![trigger has_infix(lowercase(message), w)]
            w == "error"@ || w == "fail"@ || w == "critical"@ || w == "warn"@ || w == "caution"@ || w
                == "alert"@ || w == "success"@ || w == "complete"@ || w == "ok"@ || w == "debug"@ || w
                == "trace"@ ==> !has_infix(lowercase(message), w),
        !has_prefix(lowercase(message), "[debug]"@),
    ensures
        category_of(message) == EventCategory::Info,
{
    let l = lowercase(message);
    assert(!has_infix(l, "error"@));
    assert(!has_infix(l, "fail"@));
    assert(!has_infix(l, "critical"@));
    assert(!has_infix(l, "warn"@));
    assert(!has_infix(l, "caution"@));
    assert(!has_infix(l, "alert"@));
    assert(!has_infix(l, "success"@));
    assert(!has_infix(l, "complete"@));
    assert(!has_infix(l, "ok"@));
    assert(!has_infix(l, "debug"@));
    assert(!has_infix(l, "trace"@));
}

/// A message without error or warning words that mentions `success`,
/// `complete` or `ok`, in any case, is a success.
pub proof fn success_words_make_successes(message: Seq<char>)
    requires
        !has_infix(lowercase(message), "error"@),
        !has_infix(lowercase(message), "fail"@),
        !has_infix(lowercase(message), "critical"@),
        !has_infix(lowercase(message), "warn"@),
        !has_infix(lowercase(message), "caution"@),
        !has_infix(lowercase(message), "alert"@),
        has_infix(lowercase(message), "success"@) || has_infix(lowercase(message), "complete"@) || has_infix(
            lowercase(message),
            "ok"@,
        ),
    ensures
        category_of(message) == EventCategory::Success,
{
}

/// A message without error, warning or success words that mentions
/// `debug` or `trace`, in any case, is a debug message.
pub proof fn debug_words_make_debug_messages(message: Seq<char>)
    requires
        !has_infix(lowercase(message), "error"@),
        !has_infix(lowercase(message), "fail"@),
        !has_infix(lowercase(message), "critical"@),
        !has_infix(lowercase(message), "warn"@),
        !has_infix(lowercase(message), "caution"@),
        !has_infix(lowercase(message), "alert"@),
        !has_infix(lowercase(message), "success"@),
        !has_infix(lowercase(message), "complete"@),
        !has_infix(lowercase(message), "ok"@),
        has_infix(lowercase(message), "debug"@) || has_infix(lowercase(message), "trace"@),
    ensures
        category_of(message) == EventCategory::Debug,
{
}

} // verus!
