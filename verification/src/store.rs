//! The key layout of the embedded key-value store, and what is read back
//! from a scan of it: the latest ping of each device, the topics of one
//! device, and the registered users with their roles.
use vstd::prelude::*;
use vstd::utf8::{decode_utf8, encode_utf8, valid_utf8};
use crate::text::{
    chars_of, has_prefix, owned, push_str, split_at_first, split_once_str, str_equal, str_starts_with,
    lemma_split_joined,
};
use crate::time::{instant_of, parse_rfc3339, rfc3339_parts, Timestamp};

verus! {

/// The key holding a user's password: `user:<name>`.
pub open spec fn user_key_text(name: Seq<char>) -> Seq<char> {
    "user:"@ + name
}

/// The key holding a user's role: `role:<name>`.
pub open spec fn role_key_text(name: Seq<char>) -> Seq<char> {
    "role:"@ + name
}

/// The key holding the owner of a session token: `token:<token>`.
pub open spec fn token_key_text(token: Seq<char>) -> Seq<char> {
    "token:"@ + token
}

/// The key holding the latest ping of a topic: `<device>|<topic>`.
pub open spec fn ping_key_text(device: Seq<char>, topic: Seq<char>) -> Seq<char> {
    device + seq!['|'] + topic
}

fn prefixed(prefix: &str, rest: &str) -> (r: String)
    ensures
        r@ == prefix@ + rest@,
{
    let mut s = owned(prefix);
    push_str(&mut s, rest);
    s
}

/// The key of a user's password.
pub fn user_key(name: &str) -> (r: String)
    ensures
        r@ == user_key_text(name@),
{
    prefixed("user:", name)
}

/// The key of a user's role.
pub fn role_key(name: &str) -> (r: String)
    ensures
        r@ == role_key_text(name@),
{
    prefixed("role:", name)
}

/// The key of a session token.
pub fn token_key(token: &str) -> (r: String)
    ensures
        r@ == token_key_text(token@),
{
    prefixed("token:", token)
}

/// The key of a topic's latest ping.
pub fn ping_key(device: &str, topic: &str) -> (r: String)
    ensures
        r@ == ping_key_text(device@, topic@),
{
    let mut s = owned(device);
    push_str(&mut s, "|");
    push_str(&mut s, topic);
    proof {
        reveal_strlit("|");
    }
    assert(s@ =~= ping_key_text(device@, topic@));
    s
}

/// A ping key is read back as the device and topic it was written for,
/// when the device name holds no `|`.
pub proof fn ping_key_reads_back(device: Seq<char>, topic: Seq<char>)
    requires
        !device.contains('|'),
    ensures
        split_at_first(ping_key_text(device, topic), '|') == Some((device, topic)),
{
    lemma_split_joined(device, '|', topic);
}

/// The text that strict UTF-8 decoding gives for `bytes`.
pub open spec fn utf8_text(bytes: Seq<u8>) -> Option<Seq<char>> {
    if valid_utf8(bytes) {
        Some(decode_utf8(bytes))
    } else {
        None
    }
}

/// Decodes bytes as UTF-8 with `std::str::from_utf8`, which accepts exactly
/// the well-formed UTF-8 sequences and reads their characters.
#[verifier::external_body]
fn decode_text<'a>(bytes: &'a [u8]) -> (r: Option<&'a str>)
    ensures
        match utf8_text(bytes@) {
            Some(t) => r matches Some(s) && s@ == t,
            None => r is None,
        },
{
    std::str::from_utf8(bytes).ok()
}

/// What `String::from_utf8_lossy` gives for `bytes` (invalid sequences
/// replaced by U+FFFD).
pub uninterp spec fn lossy_text(bytes: Seq<u8>) -> Seq<char>;

/// Decodes bytes with `String::from_utf8_lossy`.  Only the naming of the
/// result is claimed.
#[verifier::external_body]
fn decode_lossy(bytes: &[u8]) -> (r: String)
    ensures
        r@ == lossy_text(bytes@),
{
    String::from_utf8_lossy(bytes).into_owned()
}

/// A ping read from a store entry: the device and topic of a key of the
/// form `<device>|<topic>` (split at the first `|`) and the RFC 3339
/// instant its value holds; nothing when either is not UTF-8 or does not
/// have that form.
pub open spec fn entry_ping(e: (Vec<u8>, Vec<u8>)) -> Option<(Seq<char>, Seq<char>, Timestamp)> {
    match (utf8_text(e.0@), utf8_text(e.1@)) {
        (Some(k), Some(v)) => match split_at_first(k, '|') {
            Some((d, t)) => match instant_of(rfc3339_parts(v)) {
                Some(ts) => Some((d, t, ts)),
                None => None,
            },
            None => None,
        },
        _ => None,
    }
}

fn ping_of_entry(e: &(Vec<u8>, Vec<u8>)) -> (r: Option<(String, String, Timestamp)>)
    ensures
        match entry_ping(*e) {
            Some((d, t, ts)) => r matches Some((a, b, c)) && a@ == d && b@ == t && c == ts && ts.wf(),
            None => r is None,
        },
{
    let k = match decode_text(e.0.as_slice()) {
        Some(k) => k,
        None => return None,
    };
    let v = match decode_text(e.1.as_slice()) {
        Some(v) => v,
        None => return None,
    };
    match split_once_str(k, '|') {
        Some((d, t)) => match parse_rfc3339(v) {
            Some(ts) => Some((d, t, ts)),
            None => None,
        },
        None => None,
    }
}

/// The latest ping instant of each device over a scan of the store.
pub open spec fn latest_seen(entries: Seq<(Vec<u8>, Vec<u8>)>) -> Map<Seq<char>, Timestamp>
    decreases entries.len(),
{
    if entries.len() == 0 {
        Map::empty()
    } else {
        let m = latest_seen(entries.drop_last());
        match entry_ping(entries.last()) {
            Some((d, _, ts)) => if m.contains_key(d) && ts.total_nanos() <= m[d].total_nanos() {
                m
            } else {
                m.insert(d, ts)
            },
            None => m,
        }
    }
}

/// The instant listed for a device is its latest ping: every ping the
/// scan holds for the device is no later, and the listed instant is one of
/// them.
pub proof fn latest_is_latest(entries: Seq<(Vec<u8>, Vec<u8>)>, k: int)
    requires
        0 <= k < entries.len(),
        entry_ping(entries[k]) is Some,
    ensures
        ({
            let (d, _, ts) = entry_ping(entries[k]).unwrap();
            &&& latest_seen(entries).contains_key(d)
            &&& ts.total_nanos() <= latest_seen(entries)[d].total_nanos()
        }),
    decreases entries.len(),
{
    let (d, _, ts) = entry_ping(entries[k]).unwrap();
    let prev = entries.drop_last();
    if k < entries.len() - 1 {
        assert(prev[k] == entries[k]);
        latest_is_latest(prev, k);
    }
}

/// The entry is a ping of device `d` at `ts`.
pub open spec fn pings_at(e: (Vec<u8>, Vec<u8>), d: Seq<char>, ts: Timestamp) -> bool {
    match entry_ping(e) {
        Some((x, _, t)) => x == d && t == ts,
        None => false,
    }
}

/// Every device with a listed instant has a ping at that instant in the
/// scan.
pub proof fn latest_comes_from_a_ping(entries: Seq<(Vec<u8>, Vec<u8>)>, d: Seq<char>)
    requires
        latest_seen(entries).contains_key(d),
    ensures
        exists|k: int| 0 <= k < entries.len() && pings_at(#[trigger] entries[k], d, latest_seen(entries)[d]),
    decreases entries.len(),
{
    let prev = entries.drop_last();
    let m = latest_seen(prev);
    let last = entries.len() - 1;
    let fresh = match entry_ping(entries[last]) {
        Some((e, _, ts)) => e == d && !(m.contains_key(d) && ts.total_nanos() <= m[d].total_nanos()),
        None => false,
    };
    if fresh {
        assert(pings_at(entries[last], d, latest_seen(entries)[d]));
    } else {
        assert(latest_seen(entries)[d] == m[d]);
        latest_comes_from_a_ping(prev, d);
        let k = choose|k: int| 0 <= k < prev.len() && pings_at(#[trigger] prev[k], d, m[d]);
        assert(prev[k] == entries[k]);
    }
}

/// A device and the instant of its latest ping.
#[derive(Debug)]
pub struct DeviceSeen {
    pub device_id: String,
    pub last_seen: Timestamp,
}

/// The devices in `seen` are exactly those of `m`, each once, with the
/// instant `m` gives it.
pub open spec fn lists_map(seen: Seq<DeviceSeen>, m: Map<Seq<char>, Timestamp>) -> bool {
    &&& forall|i: int|
        0 <= i < seen.len() ==> m.contains_key((#[trigger] seen[i]).device_id@) && m[seen[i].device_id@]
            == seen[i].last_seen
    &&& forall|d: Seq<char>| m.contains_key(d) ==> exists|i: int| 0 <= i < seen.len() && (#[trigger] seen[i]).device_id@ == d
    &&& forall|i: int, j: int| 0 <= i < j < seen.len() ==> (#[trigger] seen[i]).device_id@ != (#[trigger] seen[j]).device_id@
}

/// Each device with pings in the store, once, with its latest ping
/// instant (in the order devices are first met).
pub fn latest_per_device(entries: &[(Vec<u8>, Vec<u8>)]) -> (r: Vec<DeviceSeen>)
    ensures
        lists_map(r@, latest_seen(entries@)),
{
    let mut out: Vec<DeviceSeen> = Vec::new();
    let mut i: usize = 0;
    while i < entries.len()
        invariant
            i <= entries@.len(),
            lists_map(out@, latest_seen(entries@.subrange(0, i as int))),
            forall|k: int| 0 <= k < out@.len() ==> (#[trigger] out@[k]).last_seen.wf(),
        decreases entries@.len() - i,
    {
        let ghost prev = latest_seen(entries@.subrange(0, i as int));
        assert(entries@.subrange(0, i + 1).drop_last() =~= entries@.subrange(0, i as int));
        assert(entries@.subrange(0, i + 1).last() == entries@[i as int]);
        match ping_of_entry(&entries[i]) {
            Some((d, _t, ts)) => {
                let mut j: usize = 0;
                while j < out.len() && !str_equal(out[j].device_id.as_str(), d.as_str())
                    invariant
                        j <= out@.len(),
                        forall|k: int| 0 <= k < j ==> (#[trigger] out@[k]).device_id@ != d@,
                    decreases out@.len() - j,
                {
                    j = j + 1;
                }
                let ghost before = out@;
                if j < out.len() {
                    assert(prev.contains_key(d@));
                    if out[j].last_seen.is_before(&ts) {
                        out.set(j, DeviceSeen { device_id: d, last_seen: ts });
                        proof {
                            let m = prev.insert(before[j as int].device_id@, ts);
                            assert forall|k: int| 0 <= k < out@.len() implies m.contains_key(
                                (#[trigger] out@[k]).device_id@,
                            ) && m[out@[k].device_id@] == out@[k].last_seen by {
                                if k != j {
                                    assert(out@[k] == before[k]);
                                }
                            }
                            assert forall|e: Seq<char>| m.contains_key(e) implies exists|k: int|
                                0 <= k < out@.len() && (#[trigger] out@[k]).device_id@ == e by {
                                if e == before[j as int].device_id@ {
                                    assert(out@[j as int].device_id@ == e);
                                } else {
                                    let k = choose|k: int| 0 <= k < before.len() && (#[trigger] before[k]).device_id@ == e;
                                    assert(out@[k] == before[k]);
                                }
                            }
                            assert forall|a: int, b: int| 0 <= a < b < out@.len() implies (#[trigger] out@[a]).device_id@
                                != (#[trigger] out@[b]).device_id@ by {
                                assert(before[a].device_id@ != before[b].device_id@);
                            }
                        }
                    }
                } else {
                    out.push(DeviceSeen { device_id: d, last_seen: ts });
                    proof {
                        let m = prev.insert(d@, ts);
                        assert(!prev.contains_key(d@)) by {
                            if prev.contains_key(d@) {
                                let k = choose|k: int| 0 <= k < before.len() && (#[trigger] before[k]).device_id@ == d@;
                            }
                        }
                        assert forall|k: int| 0 <= k < out@.len() implies m.contains_key(
                            (#[trigger] out@[k]).device_id@,
                        ) && m[out@[k].device_id@] == out@[k].last_seen by {
                            if k < before.len() {
                                assert(out@[k] == before[k]);
                            }
                        }
                        assert forall|e: Seq<char>| m.contains_key(e) implies exists|k: int|
                            0 <= k < out@.len() && (#[trigger] out@[k]).device_id@ == e by {
                            if e == d@ {
                                assert(out@[before.len() as int].device_id@ == e);
                            } else {
                                let k = choose|k: int| 0 <= k < before.len() && (#[trigger] before[k]).device_id@ == e;
                                assert(out@[k] == before[k]);
                            }
                        }
                        assert forall|a: int, b: int| 0 <= a < b < out@.len() implies (#[trigger] out@[a]).device_id@
                            != (#[trigger] out@[b]).device_id@ by {
                            if b < before.len() {
                                assert(out@[a] == before[a] && out@[b] == before[b]);
                            } else {
                                assert(out@[a] == before[a]);
                            }
                        }
                    }
                }
            },
            None => {},
        }
        i = i + 1;
    }
    assert(entries@.subrange(0, entries@.len() as int) =~= entries@);
    out
}

/// The topics of `device` with pings in the store, each with the instant
/// its ping holds, in scan order.
pub open spec fn topics_seen(entries: Seq<(Vec<u8>, Vec<u8>)>, device: Seq<char>) -> Seq<(Seq<char>, Timestamp)>
    decreases entries.len(),
{
    if entries.len() == 0 {
        Seq::empty()
    } else {
        let rest = topics_seen(entries.drop_last(), device);
        match entry_ping(entries.last()) {
            Some((d, t, ts)) => if d == device {
                rest.push((t, ts))
            } else {
                rest
            },
            None => rest,
        }
    }
}

/// A topic and the instant of its latest ping.
#[derive(Debug)]
pub struct TopicSeen {
    pub topic: String,
    pub last_seen: Timestamp,
}

/// The topics and instants of a list of topic pings.
pub open spec fn topics_view(s: Seq<TopicSeen>) -> Seq<(Seq<char>, Timestamp)> {
    s.map_values(|t: TopicSeen| (t.topic@, t.last_seen))
}

/// The topics of one device with pings in the store.
pub fn device_topics(entries: &[(Vec<u8>, Vec<u8>)], device: &str) -> (r: Vec<TopicSeen>)
    ensures
        topics_view(r@) == topics_seen(entries@, device@),
{
    let mut out: Vec<TopicSeen> = Vec::new();
    let mut i: usize = 0;
    while i < entries.len()
        invariant
            i <= entries@.len(),
            topics_view(out@) == topics_seen(entries@.subrange(0, i as int), device@),
        decreases entries@.len() - i,
    {
        assert(entries@.subrange(0, i + 1).drop_last() =~= entries@.subrange(0, i as int));
        assert(entries@.subrange(0, i + 1).last() == entries@[i as int]);
        match ping_of_entry(&entries[i]) {
            Some((d, t, ts)) => {
                if str_equal(d.as_str(), device) {
                    out.push(TopicSeen { topic: t, last_seen: ts });
                }
            },
            None => {},
        }
        assert(topics_view(out@) =~= topics_seen(entries@.subrange(0, i + 1), device@));
        i = i + 1;
    }
    assert(entries@.subrange(0, entries@.len() as int) =~= entries@);
    out
}

/// The value stored under `key` (the first entry with that key; a store
/// holds each key once).
pub open spec fn value_at(entries: Seq<(Vec<u8>, Vec<u8>)>, key: Seq<u8>) -> Option<Seq<u8>>
    decreases entries.len(),
{
    if entries.len() == 0 {
        None
    } else if entries[0].0@ == key {
        Some(entries[0].1@)
    } else {
        value_at(entries.drop_first(), key)
    }
}

fn bytes_equal(a: &[u8], b: &[u8]) -> (r: bool)
    ensures
        r == (a@ == b@),
{
    if a.len() != b.len() {
        return false;
    }
    let mut i: usize = 0;
    while i < a.len()
        invariant
            a@.len() == b@.len(),
            i <= a@.len(),
            forall|k: int| 0 <= k < i ==> a@[k] == b@[k],
        decreases a@.len() - i,
    {
        if a[i] != b[i] {
            return false;
        }
        i = i + 1;
    }
    assert(a@ =~= b@);
    true
}

/// Looks up the value stored under `key`.
pub fn lookup<'a>(entries: &'a [(Vec<u8>, Vec<u8>)], key: &[u8]) -> (r: Option<&'a [u8]>)
    ensures
        match value_at(entries@, key@) {
            Some(v) => r matches Some(x) && x@ == v,
            None => r is None,
        },
{
    let mut i: usize = 0;
    assert(entries@.subrange(0, entries@.len() as int) =~= entries@);
    while i < entries.len()
        invariant
            i <= entries@.len(),
            value_at(entries@, key@) == value_at(entries@.subrange(i as int, entries@.len() as int), key@),
        decreases entries@.len() - i,
    {
        let ghost rest = entries@.subrange(i as int, entries@.len() as int);
        assert(rest[0] == entries@[i as int]);
        assert(rest.drop_first() =~= entries@.subrange(i + 1, entries@.len() as int));
        if bytes_equal(entries[i].0.as_slice(), key) {
            return Some(entries[i].1.as_slice());
        }
        i = i + 1;
    }
    None
}

/// The role stored for a user, read as text; `user` when none is stored or
/// it is not UTF-8.
pub open spec fn stored_role(entries: Seq<(Vec<u8>, Vec<u8>)>, name: Seq<char>) -> Seq<char> {
    match value_at(entries, encode_utf8(role_key_text(name))) {
        Some(v) => match utf8_text(v) {
            Some(t) => t,
            None => "user"@,
        },
        None => "user"@,
    }
}

/// Every registered user, in scan order: the name after `user:` in each key
/// (read leniently as UTF-8) that starts with it, and the stored role.
pub open spec fn users_listed(entries: Seq<(Vec<u8>, Vec<u8>)>, all: Seq<(Vec<u8>, Vec<u8>)>) -> Seq<(Seq<char>, Seq<char>)>
    decreases entries.len(),
{
    if entries.len() == 0 {
        Seq::empty()
    } else {
        let rest = users_listed(entries.drop_last(), all);
        let k = lossy_text(entries.last().0@);
        if has_prefix(k, "user:"@) {
            let name = k.subrange(5, k.len() as int);
            rest.push((name, stored_role(all, name)))
        } else {
            rest
        }
    }
}

/// The registered users and their roles, read from a scan of the store.
pub fn list_users(entries: &[(Vec<u8>, Vec<u8>)]) -> (r: Vec<(String, String)>)
    ensures
        r@.map_values(|p: (String, String)| (p.0@, p.1@)) == users_listed(entries@, entries@),
{
    let mut out: Vec<(String, String)> = Vec::new();
    let mut i: usize = 0;
    while i < entries.len()
        invariant
            i <= entries@.len(),
            out@.map_values(|p: (String, String)| (p.0@, p.1@)) == users_listed(
                entries@.subrange(0, i as int),
                entries@,
            ),
        decreases entries@.len() - i,
    {
        assert(entries@.subrange(0, i + 1).drop_last() =~= entries@.subrange(0, i as int));
        assert(entries@.subrange(0, i + 1).last() == entries@[i as int]);
        let k = decode_lossy(entries[i].0.as_slice());
        if str_starts_with(k.as_str(), "user:") {
            let chars = chars_of(k.as_str());
            let mut name = String::new();
            let mut m: usize = 5;
            proof {
                reveal_strlit("user:");
            }
            while m < chars.len()
                invariant
                    5 <= m <= chars@.len(),
                    chars@ == k@,
                    name@ == k@.subrange(5, m as int),
                decreases chars@.len() - m,
            {
                crate::text::push_char(&mut name, chars[m]);
                m = m + 1;
                assert(name@ =~= k@.subrange(5, m as int));
            }
            let rk = role_key(name.as_str());
            let role = match lookup(entries, rk.as_str().as_bytes()) {
                Some(v) => match decode_text(v) {
                    Some(t) => owned(t),
                    None => owned("user"),
                },
                None => owned("user"),
            };
            out.push((name, role));
        }
        assert(out@.map_values(|p: (String, String)| (p.0@, p.1@)) =~= users_listed(
            entries@.subrange(0, i + 1),
            entries@,
        ));
        i = i + 1;
    }
    assert(entries@.subrange(0, entries@.len() as int) =~= entries@);
    out
}

/// A stored role value grants root rights when it is exactly `root`.
pub fn is_root_value(role: Option<&[u8]>) -> (r: bool)
    ensures
        r == (role matches Some(v) && v@ == seq![0x72u8, 0x6fu8, 0x6fu8, 0x74u8]),
{
    match role {
        Some(v) => {
            let root: [u8; 4] = [0x72u8, 0x6fu8, 0x6fu8, 0x74u8];
            bytes_equal(v, root.as_slice())
        },
        None => false,
    }
}

} // verus!
