//! Image history: what is shown of a stored image (its capture time, its
//! dimensions, its size) and the RGBA pixels it is drawn with.
use vstd::prelude::*;
use crate::json::JsonValue;
use crate::text::{decimal, owned, push_decimal, push_str};
use crate::time::{
    day_month_year_time_pattern, format_day_month_year_time, formatted, local_instant_of, parse_rfc3339_local,
    rfc3339_parts,
};

verus! {

/// The capture time of an image entry: its `timestamp` as `dd/mm/yyyy
/// HH:MM:SS` in the offset it was written with, the text itself when it is
/// not an RFC 3339 date-time, `Unknown` when there is no such string.
pub open spec fn image_timestamp_text(entry: JsonValue) -> Seq<char> {
    match entry.spec_get("timestamp"@) {
        Some(JsonValue::String(s)) => match local_instant_of(rfc3339_parts(s@)) {
            Some(t) => formatted(t.secs, t.nanos, day_month_year_time_pattern()),
            None => s@,
        },
        _ => "Unknown"@,
    }
}

/// Writes the capture time of an image entry.
pub fn format_image_timestamp(entry: &JsonValue) -> (r: String)
    ensures
        r@ == image_timestamp_text(*entry),
{
    match entry.get("timestamp") {
        Some(JsonValue::String(s)) => match parse_rfc3339_local(s.as_str()) {
            Some(t) => format_day_month_year_time(&t),
            None => s.clone(),
        },
        _ => owned("Unknown"),
    }
}

/// The non-negative integer under `key`, or 0.
pub open spec fn count_under(v: JsonValue, key: Seq<char>) -> u64 {
    match v.spec_get(key) {
        Some(x) => match x.spec_as_u64() {
            Some(n) => n,
            None => 0,
        },
        None => 0,
    }
}

fn count_or_zero(v: &JsonValue, key: &str) -> (r: u64)
    ensures
        r == count_under(*v, key@),
{
    match v.get(key) {
        Some(x) => match x.as_u64() {
            Some(n) => n,
            None => 0,
        },
        None => 0,
    }
}

/// Writes an image's size as `<cols>×<rows>` (0 for a missing count).
pub fn format_image_dimensions(image: &JsonValue) -> (r: String)
    ensures
        r@ == decimal(count_under(*image, "cols"@) as nat) + "\u{d7}"@ + decimal(
            count_under(*image, "rows"@) as nat,
        ),
{
    let rows = count_or_zero(image, "rows");
    let cols = count_or_zero(image, "cols");
    let mut s = String::new();
    push_decimal(&mut s, cols);
    push_str(&mut s, "\u{d7}");
    push_decimal(&mut s, rows);
    s
}

/// The unit an image's byte count is shown in.
#[derive(Clone, Copy, Debug, PartialEq, Eq, Structural)]
pub enum SizeUnit {
    /// Whole bytes, below 1024.
    Bytes,
    /// Kibibytes with one decimal, from 1024 bytes.
    Kilobytes,
    /// Mebibytes with one decimal, from 1024 × 1024 bytes.
    Megabytes,
}

/// The number of pixel values an image holds, when its `data` is an array.
pub open spec fn image_data_len(image: JsonValue) -> Option<nat> {
    match image.spec_get("data"@) {
        Some(JsonValue::Array(a)) => Some(a@.len()),
        _ => None,
    }
}

/// The number of pixel values an image holds (`None`, shown as `Unknown`,
/// when its `data` is not an array), and the unit it is shown in.
pub fn data_size(image: &JsonValue) -> (r: Option<(usize, SizeUnit)>)
    ensures
        match image_data_len(*image) {
            None => r is None,
            Some(n) => r matches Some((len, unit)) && len == n && unit == if n >= 1024 * 1024 {
                SizeUnit::Megabytes
            } else if n >= 1024 {
                SizeUnit::Kilobytes
            } else {
                SizeUnit::Bytes
            },
        },
{
    match image.get("data") {
        Some(JsonValue::Array(a)) => {
            let n = a.len();
            let unit = if n >= 1024 * 1024 {
                SizeUnit::Megabytes
            } else if n >= 1024 {
                SizeUnit::Kilobytes
            } else {
                SizeUnit::Bytes
            };
            Some((n, unit))
        },
        _ => None,
    }
}

/// The image stored in an entry's `data.Image`, when its `data` is an
/// array: rows, columns and channels (counts cut to 32 bits; 0, 0 and 3
/// when absent) and the pixel values.
pub open spec fn image_layout_of(entry: JsonValue) -> Option<(u32, u32, u32, Seq<JsonValue>)> {
    match entry.spec_get("data"@) {
        Some(d) => match d.spec_get("Image"@) {
            Some(img) => match img.spec_get("data"@) {
                Some(JsonValue::Array(px)) => Some(
                    (
                        (count_under(img, "rows"@) % 0x1_0000_0000) as u32,
                        (count_under(img, "cols"@) % 0x1_0000_0000) as u32,
                        (match img.spec_get("channels"@) {
                            Some(x) => match x.spec_as_u64() {
                                Some(n) => n,
                                None => 3,
                            },
                            None => 3,
                        } % 0x1_0000_0000) as u32,
                        px@,
                    ),
                ),
                _ => None,
            },
            None => None,
        },
        None => None,
    }
}

fn low_u32(n: u64) -> (r: u32)
    ensures
        r == (n % 0x1_0000_0000) as u32,
{
    (n % 0x1_0000_0000) as u32
}

/// The rows, columns, channels and pixel values of the image in an entry.
pub fn image_layout(entry: &JsonValue) -> (r: Option<(u32, u32, u32, &[JsonValue])>)
    ensures
        match image_layout_of(*entry) {
            None => r is None,
            Some((rows, cols, ch, px)) => r matches Some((a, b, c, p)) && a == rows && b == cols && c == ch
                && p@ == px,
        },
{
    let d = match entry.get("data") {
        Some(d) => d,
        None => return None,
    };
    let img = match d.get("Image") {
        Some(img) => img,
        None => return None,
    };
    let px = match img.get("data") {
        Some(JsonValue::Array(px)) => px,
        _ => return None,
    };
    let channels: u64 = match img.get("channels") {
        Some(x) => match x.as_u64() {
            Some(n) => n,
            None => 3,
        },
        None => 3,
    };
    Some(
        (
            low_u32(count_or_zero(img, "rows")),
            low_u32(count_or_zero(img, "cols")),
            low_u32(channels),
            px.as_slice(),
        ),
    )
}

/// The low eight bits of the non-negative integer at `i`, or `default`.
pub open spec fn byte_at(px: Seq<JsonValue>, i: int, default: u8) -> u8 {
    match px[i].spec_as_u64() {
        Some(v) => (v % 256) as u8,
        None => default,
    }
}

/// The RGBA colour of pixel `i`: for three channels or more, the first
/// three values from `i × channels` (and the fourth as alpha, for four or
/// more), when present; for one channel, the grey value repeated; black
/// otherwise.  Alpha is 255 unless read.  The offset is computed in
/// wrapping 32-bit arithmetic.
pub open spec fn pixel_rgba(px: Seq<JsonValue>, channels: u32, i: int) -> (u8, u8, u8, u8) {
    let base = (i * channels) % 0x1_0000_0000;
    if channels >= 3 && base + 2 < px.len() {
        (
            byte_at(px, base, 0),
            byte_at(px, base + 1, 0),
            byte_at(px, base + 2, 0),
            if channels >= 4 && base + 3 < px.len() {
                byte_at(px, base + 3, 255)
            } else {
                255
            },
        )
    } else if channels == 1 && base < px.len() {
        let g = byte_at(px, base, 0);
        (g, g, g, 255)
    } else {
        (0, 0, 0, 255)
    }
}

/// The number of pixels drawn: `rows × cols` in wrapping 32-bit
/// arithmetic.
pub open spec fn pixel_count(rows: u32, cols: u32) -> int {
    (rows * cols) % 0x1_0000_0000
}

fn byte_or(px: &[JsonValue], i: u64, default: u8) -> (r: u8)
    requires
        i < px@.len(),
    ensures
        r == byte_at(px@, i as int, default),
{
    match px[i as usize].as_u64() {
        Some(v) => (v % 256) as u8,
        None => default,
    }
}

/// The RGBA bytes of a `rows × cols` image, pixel by pixel.
pub fn rgba_from_pixels(rows: u32, cols: u32, channels: u32, px: &[JsonValue]) -> (r: Vec<u8>)
    ensures
        r@.len() == 4 * pixel_count(rows, cols),
        forall|i: int|
            #![trigger pixel_rgba(px@, channels, i)]
            0 <= i < pixel_count(rows, cols) ==> {
                let p = pixel_rgba(px@, channels, i);
                &&& r@[4 * i] == p.0
                &&& r@[4 * i + 1] == p.1
                &&& r@[4 * i + 2] == p.2
                &&& r@[4 * i + 3] == p.3
            },
{
    let n: u32 = rows.wrapping_mul(cols);
    let mut out: Vec<u8> = Vec::new();
    let mut i: u32 = 0;
    let len: u64 = px.len() as u64;
    while i < n
        invariant
            n == pixel_count(rows, cols),
            len == px@.len(),
            i <= n,
            out@.len() == 4 * i,
            forall|k: int|
                #![trigger pixel_rgba(px@, channels, k)]
                0 <= k < i ==> {
                    let p = pixel_rgba(px@, channels, k);
                    &&& out@[4 * k] == p.0
                    &&& out@[4 * k + 1] == p.1
                    &&& out@[4 * k + 2] == p.2
                    &&& out@[4 * k + 3] == p.3
                },
        decreases n - i,
    {
        let base: u64 = i.wrapping_mul(channels) as u64;
        assert(base == (i * channels) % 0x1_0000_0000);
        let (r, g, b, a) = if channels >= 3 && base + 2 < len {
            let alpha = if channels >= 4 && base + 3 < len {
                byte_or(px, base + 3, 255)
            } else {
                255u8
            };
            (byte_or(px, base, 0), byte_or(px, base + 1, 0), byte_or(px, base + 2, 0), alpha)
        } else if channels == 1 && base < len {
            let g = byte_or(px, base, 0);
            (g, g, g, 255u8)
        } else {
            (0u8, 0u8, 0u8, 255u8)
        };
        let ghost before = out@;
        out.push(r);
        out.push(g);
        out.push(b);
        out.push(a);
        proof {
            assert(pixel_rgba(px@, channels, i as int) == (r, g, b, a));
            assert forall|k: int|
                #![trigger pixel_rgba(px@, channels, k)]
                0 <= k < i + 1 implies {
                    let p = pixel_rgba(px@, channels, k);
                    &&& out@[4 * k] == p.0
                    &&& out@[4 * k + 1] == p.1
                    &&& out@[4 * k + 2] == p.2
                    &&& out@[4 * k + 3] == p.3
                } by {
                if k < i {
                    assert(out@[4 * k] == before[4 * k]);
                    assert(out@[4 * k + 1] == before[4 * k + 1]);
                    assert(out@[4 * k + 2] == before[4 * k + 2]);
                    assert(out@[4 * k + 3] == before[4 * k + 3]);
                }
            }
        }
        i = i + 1;
    }
    out
}

} // verus!
