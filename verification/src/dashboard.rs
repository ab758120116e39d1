//! What the dashboard decides about devices and topics: status styles, the
//! wording of ages and times, the view opened for a topic, and topic
//! selection.
use vstd::prelude::*;
use crate::datatype::{spec_type_name, DataTypeView};
use crate::text::{owned, push_signed_decimal, push_str, signed_decimal, str_equal};
use crate::time::{
    day_month_year_time_pattern, format_day_month_year_time, formatted, local_instant_of, parse_rfc3339_local,
    rfc3339_parts,
};

verus! {

/// The style class of a device status.
pub fn get_device_status_class(status: &str) -> (r: &'static str)
    ensures
        r@ == if status@ == "Online"@ {
            "online"@
        } else if status@ == "Warning"@ {
            "warning"@
        } else if status@ == "Offline"@ {
            "offline"@
        } else {
            "unknown"@
        },
{
    if str_equal(status, "Online") {
        "online"
    } else if str_equal(status, "Warning") {
        "warning"
    } else if str_equal(status, "Offline") {
        "offline"
    } else {
        "unknown"
    }
}

/// The style class of a topic status: `Active` shows as online, `Recent`
/// as warning, `Stale` and `Inactive` as offline.
pub fn get_topic_status_class(status: &str) -> (r: &'static str)
    ensures
        r@ == if status@ == "Active"@ {
            "online"@
        } else if status@ == "Recent"@ {
            "warning"@
        } else if status@ == "Stale"@ || status@ == "Inactive"@ {
            "offline"@
        } else {
            "unknown"@
        },
{
    if str_equal(status, "Active") {
        "online"
    } else if str_equal(status, "Recent") {
        "warning"
    } else if str_equal(status, "Stale") || str_equal(status, "Inactive") {
        "offline"
    } else {
        "unknown"
    }
}

/// How long ago something was, from the whole seconds elapsed since.
pub open spec fn relative_time_text(secs: int) -> Seq<char> {
    if secs < 1 {
        "just now"@
    } else if secs < 60 {
        signed_decimal(secs) + "s ago"@
    } else if secs < 3600 {
        signed_decimal(secs / 60) + "m ago"@
    } else if secs < 86400 {
        signed_decimal(secs / 3600) + "h ago"@
    } else {
        signed_decimal(secs / 86400) + "d ago"@
    }
}

/// Writes how long ago something was, `secs` whole seconds back.
pub fn format_relative_seconds(secs: i64) -> (r: String)
    ensures
        r@ == relative_time_text(secs as int),
{
    if secs < 1 {
        return owned("just now");
    }
    let mut s = String::new();
    if secs < 60 {
        push_signed_decimal(&mut s, secs);
        push_str(&mut s, "s ago");
    } else if secs < 3600 {
        push_signed_decimal(&mut s, secs / 60);
        push_str(&mut s, "m ago");
    } else if secs < 86400 {
        push_signed_decimal(&mut s, secs / 3600);
        push_str(&mut s, "h ago");
    } else {
        push_signed_decimal(&mut s, secs / 86400);
        push_str(&mut s, "d ago");
    }
    s
}

/// An RFC 3339 date-time written as `dd/mm/yyyy HH:MM:SS` in the offset it
/// was given in; `None` when the text is not one.
pub fn format_exact_time(text: &str) -> (r: Option<String>)
    ensures
        match local_instant_of(rfc3339_parts(text@)) {
            Some(t) => r matches Some(s) && s@ == formatted(t.secs, t.nanos, day_month_year_time_pattern()),
            None => r is None,
        },
{
    match parse_rfc3339_local(text) {
        Some(t) => Some(format_day_month_year_time(&t)),
        None => None,
    }
}

/// The view opened for a topic, by the kind of data it carries.
#[derive(Clone, Copy, Debug, PartialEq, Eq, Structural)]
pub enum TopicView {
    Pulse,
    Location,
    Sensor,
    Trigger,
    Event,
    Image,
    /// No view exists for this kind yet.
    Unsupported,
}

/// The view for a topic's data kind: `pulse`, `gps`, `sensor`, `trigger`,
/// `event` and `image` each have one.
pub open spec fn spec_topic_view(data_type: Seq<char>) -> TopicView {
    if data_type == "pulse"@ {
        TopicView::Pulse
    } else if data_type == "gps"@ {
        TopicView::Location
    } else if data_type == "sensor"@ {
        TopicView::Sensor
    } else if data_type == "trigger"@ {
        TopicView::Trigger
    } else if data_type == "event"@ {
        TopicView::Event
    } else if data_type == "image"@ {
        TopicView::Image
    } else {
        TopicView::Unsupported
    }
}

/// The view made for each kind of data.
pub open spec fn view_for_kind(d: DataTypeView) -> TopicView {
    match d {
        DataTypeView::Pulse => TopicView::Pulse,
        DataTypeView::GPS { .. } => TopicView::Location,
        DataTypeView::Sensor { .. } => TopicView::Sensor,
        DataTypeView::Trigger { .. } => TopicView::Trigger,
        DataTypeView::Event { .. } => TopicView::Event,
        DataTypeView::Image { .. } => TopicView::Image,
    }
}

/// Every kind of data a topic can store opens its own view: the name stored
/// for a kind selects that kind's view, and never the unsupported one.
pub proof fn every_stored_kind_has_its_view(d: DataTypeView)
    ensures
        spec_topic_view(spec_type_name(d)) == view_for_kind(d),
        spec_topic_view(spec_type_name(d)) != TopicView::Unsupported,
{
    reveal_strlit("pulse");
    reveal_strlit("gps");
    reveal_strlit("sensor");
    reveal_strlit("trigger");
    reveal_strlit("event");
    reveal_strlit("image");
    assert("pulse"@.len() == 5 && "gps"@.len() == 3 && "sensor"@.len() == 6 && "trigger"@.len() == 7
        && "event"@.len() == 5 && "image"@.len() == 5);
    assert("event"@ != "pulse"@) by {
        assert("event"@[0] != "pulse"@[0]);
    }
    assert("image"@ != "pulse"@) by {
        assert("image"@[0] != "pulse"@[0]);
    }
    assert("image"@ != "event"@) by {
        assert("image"@[0] != "event"@[0]);
    }
    match d {
        DataTypeView::Pulse => {},
        DataTypeView::GPS { .. } => {},
        DataTypeView::Sensor { .. } => {},
        DataTypeView::Trigger { .. } => {},
        DataTypeView::Event { .. } => {},
        DataTypeView::Image { .. } => {},
    }
}

/// Picks the view for a topic's data kind.
pub fn topic_view(data_type: &str) -> (r: TopicView)
    ensures
        r == spec_topic_view(data_type@),
{
    if str_equal(data_type, "pulse") {
        TopicView::Pulse
    } else if str_equal(data_type, "gps") {
        TopicView::Location
    } else if str_equal(data_type, "sensor") {
        TopicView::Sensor
    } else if str_equal(data_type, "trigger") {
        TopicView::Trigger
    } else if str_equal(data_type, "event") {
        TopicView::Event
    } else if str_equal(data_type, "image") {
        TopicView::Image
    } else {
        TopicView::Unsupported
    }
}

/// The opt-in view of an optional string.
pub open spec fn opt_text(o: Option<String>) -> Option<Seq<char>> {
    match o {
        Some(s) => Some(s@),
        None => None,
    }
}

/// The topic selected after `clicked` is clicked: clicking the selected
/// topic closes it, clicking another opens that one.
pub fn select_topic(current: Option<String>, clicked: String) -> (r: Option<String>)
    ensures
        opt_text(r) == if opt_text(current) == Some(clicked@) { None } else { Some(clicked@) },
{
    match current {
        Some(c) => {
            if str_equal(c.as_str(), clicked.as_str()) {
                None
            } else {
                Some(clicked)
            }
        },
        None => Some(clicked),
    }
}

} // verus!
