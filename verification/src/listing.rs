//! Device and topic listings: ages, status filters, orderings and summaries.
use vstd::prelude::*;
use crate::order::{
    count_before, count_before_orders_names, is_index_permutation, is_stable_sort,
    lemma_stable_sort_from_keys, lex_less, name_ranks, newest_first_key, stable_order,
};
use crate::status::{DeviceStatus, TopicStatus};
use crate::text::{chars_of, decimal, push_decimal, push_signed_decimal, push_str, signed_decimal};
use crate::time::{elapsed_seconds, now, seconds_between, Timestamp};

verus! {

/// Which statuses a listing keeps.
#[derive(Clone, Copy, Debug, PartialEq, Eq, Structural)]
pub enum StatusFilter {
    Online,
    Warning,
    Offline,
    Active,
    Recent,
    Stale,
    Inactive,
}

/// How a listing is printed.
#[derive(Clone, Copy, Debug, PartialEq, Eq, Structural)]
pub enum OutputFormat {
    Table,
    Json,
    Compact,
}

/// How a listing is ordered.
#[derive(Clone, Copy, Debug, PartialEq, Eq, Structural)]
pub enum SortBy {
    LastSeen,
    Name,
    Status,
    TopicCount,
    PingCount,
}

/// A device and when it was last seen, with the status the server gave it.
#[derive(Debug)]
pub struct DeviceInfo {
    pub device_id: String,
    pub last_seen: Timestamp,
    pub status: DeviceStatus,
}

/// A topic of a device and when it was last seen, with its status and the
/// kinds of data recorded on it.
#[derive(Debug)]
pub struct TopicInfo {
    pub topic: String,
    pub last_seen: Timestamp,
    pub status: TopicStatus,
    pub data_types: Vec<String>,
}

/// A [`TopicInfo`] with its text as character sequences.
pub struct TopicInfoView {
    pub topic: Seq<char>,
    pub last_seen: Timestamp,
    pub status: TopicStatus,
    pub data_types: Seq<Seq<char>>,
}

impl View for TopicInfo {
    type V = TopicInfoView;

    open spec fn view(&self) -> TopicInfoView {
        TopicInfoView {
            topic: self.topic@,
            last_seen: self.last_seen,
            status: self.status,
            data_types: self.data_types@.map_values(|s: String| s@),
        }
    }
}

/// The views of a sequence of topics.
pub open spec fn topics_view(topics: Seq<TopicInfo>) -> Seq<TopicInfoView> {
    topics.map_values(|t: TopicInfo| t@)
}

/// Every device's last-seen instant is well formed.
pub open spec fn devices_wf(devices: Seq<DeviceInfo>) -> bool {
    forall|i: int| 0 <= i < devices.len() ==> (#[trigger] devices[i]).last_seen.wf()
}

/// Every topic's last-seen instant is well formed.
pub open spec fn topics_wf(topics: Seq<TopicInfo>) -> bool {
    forall|i: int| 0 <= i < topics.len() ==> (#[trigger] topics[i]).last_seen.wf()
}

/// The colour of the dot shown beside a status.
#[derive(Clone, Copy, Debug, PartialEq, Eq, Structural)]
pub enum IndicatorColor {
    Green,
    Yellow,
    BrightRed,
    Red,
}

/// The dot colour for a device status: green online, yellow on warning,
/// red offline.
pub fn device_indicator_color(status: &DeviceStatus) -> (r: IndicatorColor)
    ensures
        r == match *status {
            DeviceStatus::Online => IndicatorColor::Green,
            DeviceStatus::Warning => IndicatorColor::Yellow,
            DeviceStatus::Offline => IndicatorColor::Red,
        },
{
    match status {
        DeviceStatus::Online => IndicatorColor::Green,
        DeviceStatus::Warning => IndicatorColor::Yellow,
        DeviceStatus::Offline => IndicatorColor::Red,
    }
}

/// The dot colour for a topic status: green active, yellow recent, bright
/// red stale, red inactive.
pub fn topic_indicator_color(status: &TopicStatus) -> (r: IndicatorColor)
    ensures
        r == match *status {
            TopicStatus::Active => IndicatorColor::Green,
            TopicStatus::Recent => IndicatorColor::Yellow,
            TopicStatus::Stale => IndicatorColor::BrightRed,
            TopicStatus::Inactive => IndicatorColor::Red,
        },
{
    match status {
        TopicStatus::Active => IndicatorColor::Green,
        TopicStatus::Recent => IndicatorColor::Yellow,
        TopicStatus::Stale => IndicatorColor::BrightRed,
        TopicStatus::Inactive => IndicatorColor::Red,
    }
}

/// An identical copy of a device entry.
pub fn copy_device(d: &DeviceInfo) -> (r: DeviceInfo)
    ensures
        r == *d,
{
    DeviceInfo { device_id: d.device_id.clone(), last_seen: d.last_seen, status: d.status }
}

/// An identical copy of a topic entry.
pub fn copy_topic(t: &TopicInfo) -> (r: TopicInfo)
    ensures
        r@ == t@,
{
    let mut kinds: Vec<String> = Vec::new();
    let mut i: usize = 0;
    while i < t.data_types.len()
        invariant
            i <= t.data_types@.len(),
            kinds@ == t.data_types@.subrange(0, i as int),
        decreases t.data_types@.len() - i,
    {
        kinds.push(t.data_types[i].clone());
        i = i + 1;
    }
    assert(t.data_types@.subrange(0, t.data_types@.len() as int) =~= t.data_types@);
    let r = TopicInfo { topic: t.topic.clone(), last_seen: t.last_seen, status: t.status, data_types: kinds };
    assert(r.data_types@.map_values(|s: String| s@) =~= t.data_types@.map_values(|s: String| s@));
    r
}

/// An age in seconds as `<n>s`, `<n>m`, `<n>h` or `<n>d`, in the largest
/// unit it reaches (whole units, rounded down).
pub open spec fn spec_format_age(secs: int) -> Seq<char> {
    if secs < 60 {
        signed_decimal(secs) + "s"@
    } else if secs < 3600 {
        decimal((secs / 60) as nat) + "m"@
    } else if secs < 86400 {
        decimal((secs / 3600) as nat) + "h"@
    } else {
        decimal((secs / 86400) as nat) + "d"@
    }
}

/// The unit an age is shown in: `s` under a minute, `m` under an hour, `h`
/// under a day, `d` otherwise.
pub open spec fn age_unit(secs: int) -> char {
    if secs < 60 {
        's'
    } else if secs < 3600 {
        'm'
    } else if secs < 86400 {
        'h'
    } else {
        'd'
    }
}

/// The number an age is shown with: whole seconds, minutes, hours or days.
pub open spec fn age_amount(secs: int) -> int {
    if secs < 60 {
        secs
    } else if secs < 3600 {
        secs / 60
    } else if secs < 86400 {
        secs / 3600
    } else {
        secs / 86400
    }
}

/// The rank of an age unit: seconds, then minutes, hours and days.
pub open spec fn unit_rank(c: char) -> int {
    if c == 's' {
        0
    } else if c == 'm' {
        1
    } else if c == 'h' {
        2
    } else {
        3
    }
}

/// A formatted age is its number followed by its unit, and ages keep their
/// order: for `a <= b`, the unit of `a` ranks below that of `b`, or the
/// units agree and the number of `a` is no larger.
pub proof fn format_age_is_ordered(a: int, b: int)
    requires
        a <= b,
    ensures
        spec_format_age(a) == signed_decimal(age_amount(a)).push(age_unit(a)),
        spec_format_age(b) == signed_decimal(age_amount(b)).push(age_unit(b)),
        unit_rank(age_unit(a)) < unit_rank(age_unit(b)) || (age_unit(a) == age_unit(b) && age_amount(a)
            <= age_amount(b)),
{
    reveal_strlit("s");
    reveal_strlit("m");
    reveal_strlit("h");
    reveal_strlit("d");
    assert(spec_format_age(a) =~= signed_decimal(age_amount(a)).push(age_unit(a)));
    assert(spec_format_age(b) =~= signed_decimal(age_amount(b)).push(age_unit(b)));
    if age_unit(a) == age_unit(b) {
        if a >= 60 {
            assert(a / 60 <= b / 60) by (nonlinear_arith)
                requires
                    0 <= a <= b,
            ;
            assert(a / 3600 <= b / 3600) by (nonlinear_arith)
                requires
                    0 <= a <= b,
            ;
            assert(a / 86400 <= b / 86400) by (nonlinear_arith)
                requires
                    0 <= a <= b,
            ;
        }
    }
}

/// Formats an age in seconds as `<n>s`, `<n>m`, `<n>h` or `<n>d`.
pub fn format_age(secs: i64) -> (r: String)
    ensures
        r@ == spec_format_age(secs as int),
{
    let mut s = String::new();
    if secs < 60 {
        push_signed_decimal(&mut s, secs);
        push_str(&mut s, "s");
    } else if secs < 3600 {
        push_decimal(&mut s, (secs / 60) as u64);
        push_str(&mut s, "m");
    } else if secs < 86400 {
        push_decimal(&mut s, (secs / 3600) as u64);
        push_str(&mut s, "h");
    } else {
        push_decimal(&mut s, (secs / 86400) as u64);
        push_str(&mut s, "d");
    }
    s
}

/// `a` may be listed before `b` when devices are ordered by `by`, judged at
/// `now`: newest first by default, by identifier for `Name`, and from online
/// to offline for `Status`.
pub open spec fn device_order_le(by: SortBy, now: Timestamp, a: DeviceInfo, b: DeviceInfo) -> bool {
    match by {
        SortBy::Name => !lex_less(b.device_id@, a.device_id@),
        SortBy::Status => DeviceStatus::spec_from_age(elapsed_seconds(now, a.last_seen)).spec_rank()
            <= DeviceStatus::spec_from_age(elapsed_seconds(now, b.last_seen)).spec_rank(),
        _ => b.last_seen.total_nanos() <= a.last_seen.total_nanos(),
    }
}

/// `a` may be listed before `b` when topics are ordered by `by`, judged at
/// `now`.
pub open spec fn topic_order_le(by: SortBy, now: Timestamp, a: TopicInfoView, b: TopicInfoView) -> bool {
    match by {
        SortBy::Name => !lex_less(b.topic, a.topic),
        SortBy::Status => TopicStatus::spec_from_age(elapsed_seconds(now, a.last_seen)).spec_rank()
            <= TopicStatus::spec_from_age(elapsed_seconds(now, b.last_seen)).spec_rank(),
        _ => b.last_seen.total_nanos() <= a.last_seen.total_nanos(),
    }
}

/// Orders devices as [`sort_devices`] does, judging statuses at `at`.
pub fn sort_devices_at(devices: &mut Vec<DeviceInfo>, sort_by: &SortBy, at: &Timestamp)
    requires
        devices_wf(old(devices)@),
        at.wf(),
    ensures
        is_stable_sort(
            final(devices)@,
            old(devices)@,
            |a: DeviceInfo, b: DeviceInfo| device_order_le(*sort_by, *at, a, b),
        ),
{
    let now = *at;
    let n = devices.len();
    let mut keys: Vec<i128> = Vec::new();
    match sort_by {
        SortBy::Name => {
            let mut names: Vec<Vec<char>> = Vec::new();
            let mut i: usize = 0;
            while i < n
                invariant
                    n == devices@.len(),
                    i <= n,
                    names@.len() == i,
                    forall|k: int| 0 <= k < i ==> (#[trigger] names@[k])@ == devices@[k].device_id@,
                decreases n - i,
            {
                names.push(chars_of(devices[i].device_id.as_str()));
                i = i + 1;
            }
            keys = name_ranks(&names);
            proof {
                let all = names@.map_values(|v: Vec<char>| v@);
                assert forall|a: int, b: int| 0 <= a < n && 0 <= b < n implies (device_order_le(
                    *sort_by,
                    now,
                    devices@[a],
                    devices@[b],
                ) <==> keys@[a] <= keys@[b]) by {
                    assert(all[a] == devices@[a].device_id@);
                    assert(all[b] == devices@[b].device_id@);
                    count_before_orders_names(all, a, b);
                }
            }
        },
        SortBy::Status => {
            let mut i: usize = 0;
            while i < n
                invariant
                    n == devices@.len(),
                    i <= n,
                    now.wf(),
                    devices_wf(devices@),
                    keys@.len() == i,
                    forall|k: int|
                        0 <= k < i ==> #[trigger] keys@[k] == DeviceStatus::spec_from_age(
                            elapsed_seconds(now, devices@[k].last_seen),
                        ).spec_rank(),
                decreases n - i,
            {
                assert(devices@[i as int].last_seen.wf());
                let st = DeviceStatus::at(&now, &devices[i].last_seen);
                keys.push(st.rank() as i128);
                i = i + 1;
            }
        },
        _ => {
            let mut i: usize = 0;
            while i < n
                invariant
                    n == devices@.len(),
                    i <= n,
                    devices_wf(devices@),
                    keys@.len() == i,
                    forall|k: int| 0 <= k < i ==> #[trigger] keys@[k] == -devices@[k].last_seen.total_nanos(),
                decreases n - i,
            {
                assert(devices@[i as int].last_seen.wf());
                keys.push(newest_first_key(&devices[i].last_seen));
                i = i + 1;
            }
        },
    }
    let order = stable_order(&keys);
    let mut out: Vec<DeviceInfo> = Vec::new();
    let mut j: usize = 0;
    while j < n
        invariant
            n == devices@.len(),
            is_index_permutation(order@, n as nat),
            j <= n,
            out@.len() == j,
            forall|k: int| 0 <= k < j ==> out@[k] == devices@[#[trigger] order@[k] as int],
        decreases n - j,
    {
        out.push(copy_device(&devices[order[j]]));
        j = j + 1;
    }
    proof {
        let le = |a: DeviceInfo, b: DeviceInfo| device_order_le(*sort_by, now, a, b);
        lemma_stable_sort_from_keys(out@, devices@, keys@, order@, le);
    }
    *devices = out;
}

/// Orders devices: newest first for `LastSeen` (and for the counts, which
/// devices do not carry), by identifier for `Name`, online before warning
/// before offline for `Status` (judged at one reading of the clock).  The
/// order is stable.
pub fn sort_devices(devices: &mut Vec<DeviceInfo>, sort_by: &SortBy)
    requires
        devices_wf(old(devices)@),
    ensures
        exists|now: Timestamp|
            now.wf() && is_stable_sort(
                final(devices)@,
                old(devices)@,
                |a: DeviceInfo, b: DeviceInfo| device_order_le(*sort_by, now, a, b),
            ),
{
    let now = now();
    sort_devices_at(devices, sort_by, &now);
}

/// Orders topics as [`sort_topics`] does, judging statuses at `at`.
pub fn sort_topics_at(topics: &mut Vec<TopicInfo>, sort_by: &SortBy, at: &Timestamp)
    requires
        topics_wf(old(topics)@),
        at.wf(),
    ensures
        is_stable_sort(
            topics_view(final(topics)@),
            topics_view(old(topics)@),
            |a: TopicInfoView, b: TopicInfoView| topic_order_le(*sort_by, *at, a, b),
        ),
{
    let now = *at;
    let n = topics.len();
    let mut keys: Vec<i128> = Vec::new();
    match sort_by {
        SortBy::Name => {
            let mut names: Vec<Vec<char>> = Vec::new();
            let mut i: usize = 0;
            while i < n
                invariant
                    n == topics@.len(),
                    i <= n,
                    names@.len() == i,
                    forall|k: int| 0 <= k < i ==> (#[trigger] names@[k])@ == topics@[k].topic@,
                decreases n - i,
            {
                names.push(chars_of(topics[i].topic.as_str()));
                i = i + 1;
            }
            keys = name_ranks(&names);
            proof {
                let all = names@.map_values(|v: Vec<char>| v@);
                assert forall|a: int, b: int| 0 <= a < n && 0 <= b < n implies (topic_order_le(
                    *sort_by,
                    now,
                    topics@[a]@,
                    topics@[b]@,
                ) <==> keys@[a] <= keys@[b]) by {
                    assert(all[a] == topics@[a].topic@);
                    assert(all[b] == topics@[b].topic@);
                    count_before_orders_names(all, a, b);
                }
            }
        },
        SortBy::Status => {
            let mut i: usize = 0;
            while i < n
                invariant
                    n == topics@.len(),
                    i <= n,
                    now.wf(),
                    topics_wf(topics@),
                    keys@.len() == i,
                    forall|k: int|
                        0 <= k < i ==> #[trigger] keys@[k] == TopicStatus::spec_from_age(
                            elapsed_seconds(now, topics@[k].last_seen),
                        ).spec_rank(),
                decreases n - i,
            {
                assert(topics@[i as int].last_seen.wf());
                let st = TopicStatus::at(&now, &topics[i].last_seen);
                keys.push(st.rank() as i128);
                i = i + 1;
            }
        },
        _ => {
            let mut i: usize = 0;
            while i < n
                invariant
                    n == topics@.len(),
                    i <= n,
                    topics_wf(topics@),
                    keys@.len() == i,
                    forall|k: int| 0 <= k < i ==> #[trigger] keys@[k] == -topics@[k].last_seen.total_nanos(),
                decreases n - i,
            {
                assert(topics@[i as int].last_seen.wf());
                keys.push(newest_first_key(&topics[i].last_seen));
                i = i + 1;
            }
        },
    }
    let order = stable_order(&keys);
    let mut out: Vec<TopicInfo> = Vec::new();
    let mut j: usize = 0;
    while j < n
        invariant
            n == topics@.len(),
            is_index_permutation(order@, n as nat),
            j <= n,
            out@.len() == j,
            forall|k: int| 0 <= k < j ==> out@[k]@ == topics@[#[trigger] order@[k] as int]@,
        decreases n - j,
    {
        out.push(copy_topic(&topics[order[j]]));
        j = j + 1;
    }
    proof {
        let le = |a: TopicInfoView, b: TopicInfoView| topic_order_le(*sort_by, now, a, b);
        let vo = topics_view(out@);
        let vi = topics_view(topics@);
        assert forall|k: int| 0 <= k < vo.len() implies vo[k] == vi[#[trigger] order@[k] as int] by {}
        lemma_stable_sort_from_keys(vo, vi, keys@, order@, le);
    }
    *topics = out;
}

/// Orders topics the way [`sort_devices`] orders devices, by topic name for
/// `Name`.
pub fn sort_topics(topics: &mut Vec<TopicInfo>, sort_by: &SortBy)
    requires
        topics_wf(old(topics)@),
    ensures
        exists|now: Timestamp|
            now.wf() && is_stable_sort(
                topics_view(final(topics)@),
                topics_view(old(topics)@),
                |a: TopicInfoView, b: TopicInfoView| topic_order_le(*sort_by, now, a, b),
            ),
{
    let now = now();
    sort_topics_at(topics, sort_by, &now);
}

} // verus!

verus! {

/// A device passes the filter at `now`: its status (by the fixed
/// thresholds) is the one named; filters that name topic statuses keep
/// every device.
pub open spec fn device_passes(f: StatusFilter, now: Timestamp, d: DeviceInfo) -> bool {
    let st = DeviceStatus::spec_from_age(elapsed_seconds(now, d.last_seen));
    match f {
        StatusFilter::Online => st == DeviceStatus::Online,
        StatusFilter::Warning => st == DeviceStatus::Warning,
        StatusFilter::Offline => st == DeviceStatus::Offline,
        _ => true,
    }
}

/// A topic passes the filter at `now`: its status (by the fixed thresholds)
/// is the one named; filters that name device statuses keep every topic.
pub open spec fn topic_passes(f: StatusFilter, now: Timestamp, t: TopicInfoView) -> bool {
    let st = TopicStatus::spec_from_age(elapsed_seconds(now, t.last_seen));
    match f {
        StatusFilter::Active => st == TopicStatus::Active,
        StatusFilter::Recent => st == TopicStatus::Recent,
        StatusFilter::Stale => st == TopicStatus::Stale,
        StatusFilter::Inactive => st == TopicStatus::Inactive,
        _ => true,
    }
}

fn device_passes_exec(f: StatusFilter, now: &Timestamp, d: &DeviceInfo) -> (r: bool)
    requires
        now.wf(),
        d.last_seen.wf(),
    ensures
        r == device_passes(f, *now, *d),
{
    let st = DeviceStatus::at(now, &d.last_seen);
    match f {
        StatusFilter::Online => st == DeviceStatus::Online,
        StatusFilter::Warning => st == DeviceStatus::Warning,
        StatusFilter::Offline => st == DeviceStatus::Offline,
        _ => true,
    }
}

fn topic_passes_exec(f: StatusFilter, now: &Timestamp, t: &TopicInfo) -> (r: bool)
    requires
        now.wf(),
        t.last_seen.wf(),
    ensures
        r == topic_passes(f, *now, t@),
{
    let st = TopicStatus::at(now, &t.last_seen);
    match f {
        StatusFilter::Active => st == TopicStatus::Active,
        StatusFilter::Recent => st == TopicStatus::Recent,
        StatusFilter::Stale => st == TopicStatus::Stale,
        StatusFilter::Inactive => st == TopicStatus::Inactive,
        _ => true,
    }
}

/// The devices whose status at `at` matches the filter, in their original
/// order; all devices when there is no filter.
pub fn filter_devices_at(devices: Vec<DeviceInfo>, status_filter: &Option<StatusFilter>, at: &Timestamp) -> (r:
    Vec<DeviceInfo>)
    requires
        devices_wf(devices@),
        at.wf(),
    ensures
        match status_filter {
            None => r@ == devices@,
            Some(f) => r@ == devices@.filter(|d: DeviceInfo| device_passes(*f, *at, d)),
        },
{
    match status_filter {
        None => devices,
        Some(f) => {
            let f = *f;
            let now = *at;
            let ghost pred = |d: DeviceInfo| device_passes(f, now, d);
            let mut out: Vec<DeviceInfo> = Vec::new();
            let mut i: usize = 0;
            while i < devices.len()
                invariant
                    i <= devices@.len(),
                    now.wf(),
                    devices_wf(devices@),
                    pred == (|d: DeviceInfo| device_passes(f, now, d)),
                    out@ == devices@.subrange(0, i as int).filter(pred),
                decreases devices@.len() - i,
            {
                proof {
                    reveal(Seq::filter);
                    assert(devices@.subrange(0, i + 1).drop_last() =~= devices@.subrange(0, i as int));
                }
                assert(devices@[i as int].last_seen.wf());
                if device_passes_exec(f, &now, &devices[i]) {
                    out.push(copy_device(&devices[i]));
                }
                i = i + 1;
            }
            assert(devices@.subrange(0, devices@.len() as int) =~= devices@);
            out
        },
    }
}

/// The devices whose status matches the filter, in their original order,
/// judged at one reading of the clock; all devices when there is no filter.
pub fn filter_devices(devices: Vec<DeviceInfo>, status_filter: &Option<StatusFilter>) -> (r: Vec<DeviceInfo>)
    requires
        devices_wf(devices@),
    ensures
        match status_filter {
            None => r@ == devices@,
            Some(f) => exists|now: Timestamp|
                now.wf() && r@ == devices@.filter(|d: DeviceInfo| device_passes(*f, now, d)),
        },
{
    let now = now();
    filter_devices_at(devices, status_filter, &now)
}

/// The topics whose status at `at` matches the filter, in their original
/// order; all topics when there is no filter.
pub fn filter_topics_at(topics: Vec<TopicInfo>, status_filter: &Option<StatusFilter>, at: &Timestamp) -> (r:
    Vec<TopicInfo>)
    requires
        topics_wf(topics@),
        at.wf(),
    ensures
        match status_filter {
            None => r@ == topics@,
            Some(f) => topics_view(r@) == topics_view(topics@).filter(
                |t: TopicInfoView| topic_passes(*f, *at, t),
            ),
        },
{
    match status_filter {
        None => topics,
        Some(f) => {
            let f = *f;
            let now = *at;
            let ghost pred = |t: TopicInfoView| topic_passes(f, now, t);
            let mut out: Vec<TopicInfo> = Vec::new();
            let mut i: usize = 0;
            while i < topics.len()
                invariant
                    i <= topics@.len(),
                    now.wf(),
                    topics_wf(topics@),
                    pred == (|t: TopicInfoView| topic_passes(f, now, t)),
                    topics_view(out@) == topics_view(topics@.subrange(0, i as int)).filter(pred),
                decreases topics@.len() - i,
            {
                proof {
                    reveal(Seq::filter);
                    assert(topics_view(topics@.subrange(0, i + 1)).drop_last() =~= topics_view(
                        topics@.subrange(0, i as int),
                    ));
                }
                assert(topics@[i as int].last_seen.wf());
                let ghost before = out@;
                if topic_passes_exec(f, &now, &topics[i]) {
                    out.push(copy_topic(&topics[i]));
                    assert(topics_view(out@) =~= topics_view(before).push(topics@[i as int]@));
                }
                i = i + 1;
            }
            assert(topics@.subrange(0, topics@.len() as int) =~= topics@);
            out
        },
    }
}

/// The topics whose status matches the filter, in their original order,
/// judged at one reading of the clock; all topics when there is no filter.
pub fn filter_topics(topics: Vec<TopicInfo>, status_filter: &Option<StatusFilter>) -> (r: Vec<TopicInfo>)
    requires
        topics_wf(topics@),
    ensures
        match status_filter {
            None => r@ == topics@,
            Some(f) => exists|now: Timestamp|
                now.wf() && topics_view(r@) == topics_view(topics@).filter(
                    |t: TopicInfoView| topic_passes(*f, now, t),
                ),
        },
{
    let now = now();
    filter_topics_at(topics, status_filter, &now)
}

/// How many devices have each status at `now`: online, warning, offline.
pub open spec fn spec_status_counts(devices: Seq<DeviceInfo>, now: Timestamp) -> (nat, nat, nat)
    decreases devices.len(),
{
    if devices.len() == 0 {
        (0, 0, 0)
    } else {
        let (o, w, f) = spec_status_counts(devices.drop_last(), now);
        match DeviceStatus::spec_from_age(elapsed_seconds(now, devices.last().last_seen)) {
            DeviceStatus::Online => (o + 1, w, f),
            DeviceStatus::Warning => (o, w + 1, f),
            DeviceStatus::Offline => (o, w, f + 1),
        }
    }
}

/// The three counts always add up to the number of devices.
pub proof fn status_counts_cover_all(devices: Seq<DeviceInfo>, now: Timestamp)
    ensures
        spec_status_counts(devices, now).0 + spec_status_counts(devices, now).1 + spec_status_counts(
            devices,
            now,
        ).2 == devices.len(),
    decreases devices.len(),
{
    if devices.len() > 0 {
        status_counts_cover_all(devices.drop_last(), now);
    }
}

/// Counts the online, warning and offline devices at `at`.
pub fn status_summary_at(devices: &Vec<DeviceInfo>, at: &Timestamp) -> (r: (usize, usize, usize))
    requires
        devices_wf(devices@),
        at.wf(),
    ensures
        (r.0 as nat, r.1 as nat, r.2 as nat) == spec_status_counts(devices@, *at),
        r.0 + r.1 + r.2 == devices@.len(),
{
    let now = *at;
    let mut online: usize = 0;
    let mut warning: usize = 0;
    let mut offline: usize = 0;
    let mut i: usize = 0;
    while i < devices.len()
        invariant
            i <= devices@.len(),
            now.wf(),
            devices_wf(devices@),
            (online as nat, warning as nat, offline as nat) == spec_status_counts(
                devices@.subrange(0, i as int),
                now,
            ),
            online + warning + offline == i,
        decreases devices@.len() - i,
    {
        assert(devices@.subrange(0, i + 1).drop_last() =~= devices@.subrange(0, i as int));
        assert(devices@[i as int].last_seen.wf());
        match DeviceStatus::at(&now, &devices[i].last_seen) {
            DeviceStatus::Online => {
                online = online + 1;
            },
            DeviceStatus::Warning => {
                warning = warning + 1;
            },
            DeviceStatus::Offline => {
                offline = offline + 1;
            },
        }
        i = i + 1;
    }
    assert(devices@.subrange(0, devices@.len() as int) =~= devices@);
    (online, warning, offline)
}

/// Counts the online, warning and offline devices at one reading of the
/// clock, as the extended table's summary line shows them.
pub fn status_summary(devices: &Vec<DeviceInfo>) -> (r: (usize, usize, usize))
    requires
        devices_wf(devices@),
    ensures
        exists|now: Timestamp|
            now.wf() && r.0 == spec_status_counts(devices@, now).0 && r.1 == spec_status_counts(
                devices@,
                now,
            ).1 && r.2 == spec_status_counts(devices@, now).2,
        r.0 + r.1 + r.2 == devices@.len(),
{
    let now = now();
    status_summary_at(devices, &now)
}

/// The value a `u64` takes when converted to `i64` with `as`.
pub open spec fn as_i64_bits(x: int) -> int {
    if x > i64::MAX { x - 0x1_0000_0000_0000_0000 } else { x }
}

/// A device is stale at `now` when more whole seconds than the threshold
/// (converted to `i64` with `as`) have passed since it was last seen.
pub open spec fn is_stale(threshold: u64, now: Timestamp, d: DeviceInfo) -> bool {
    elapsed_seconds(now, d.last_seen) > as_i64_bits(threshold as int)
}

/// The devices not seen for more than `threshold` seconds at `at`, in
/// their original order.
pub fn stale_devices_at(devices: Vec<DeviceInfo>, threshold: u64, at: &Timestamp) -> (r: Vec<DeviceInfo>)
    requires
        devices_wf(devices@),
        at.wf(),
    ensures
        r@ == devices@.filter(|d: DeviceInfo| is_stale(threshold, *at, d)),
{
    let now = *at;
    let limit: i64 = if threshold > i64::MAX as u64 {
        ((threshold - 9_223_372_036_854_775_808u64) as i64) - i64::MAX - 1
    } else {
        threshold as i64
    };
    assert(limit == as_i64_bits(threshold as int));
    let ghost pred = |d: DeviceInfo| is_stale(threshold, now, d);
    let mut out: Vec<DeviceInfo> = Vec::new();
    let mut i: usize = 0;
    while i < devices.len()
        invariant
            i <= devices@.len(),
            now.wf(),
            devices_wf(devices@),
            limit == as_i64_bits(threshold as int),
            pred == (|d: DeviceInfo| is_stale(threshold, now, d)),
            out@ == devices@.subrange(0, i as int).filter(pred),
        decreases devices@.len() - i,
    {
        proof {
            reveal(Seq::filter);
            assert(devices@.subrange(0, i + 1).drop_last() =~= devices@.subrange(0, i as int));
        }
        assert(devices@[i as int].last_seen.wf());
        if seconds_between(&now, &devices[i].last_seen) > limit {
            out.push(copy_device(&devices[i]));
        }
        i = i + 1;
    }
    assert(devices@.subrange(0, devices@.len() as int) =~= devices@);
    out
}

/// The devices not seen for more than `threshold` seconds, in their original
/// order, judged at one reading of the clock.
pub fn stale_devices(devices: Vec<DeviceInfo>, threshold: u64) -> (r: Vec<DeviceInfo>)
    requires
        devices_wf(devices@),
    ensures
        exists|now: Timestamp|
            now.wf() && r@ == devices@.filter(|d: DeviceInfo| is_stale(threshold, now, d)),
{
    let now = now();
    stale_devices_at(devices, threshold, &now)
}

} // verus!
