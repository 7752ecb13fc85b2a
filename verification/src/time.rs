//! Capture times: the timestamp model, parsing of EXIF and video date
//! strings, sub-second handling, and the order in which the sources of a
//! file's time are tried.

use vstd::prelude::*;
use chrono::{Datelike, Timelike};
use std::fmt::Write;
use crate::config::Config;
use crate::path::{extension, extension_str};
use crate::text::{chars_of, contains_ignore_ascii_case, opt_chars, owned, string_of, trim, trim_str};

verus! {

/// Where a file's capture time came from.
#[derive(Debug, Clone, Copy, PartialEq, Eq, Structural)]
pub enum TimeSource {
    /// EXIF metadata of an image.
    Exif,
    /// Metadata of a video container.
    VideoMetadata,
    /// Parsed from the file name.
    Filename,
    /// File system modification time.
    FileSystem,
}

/// A calendar date and time of day, as chrono's `NaiveDateTime` holds it:
/// `nanosecond` reaches past one second only for a leap second.
#[derive(Debug, Clone, Copy, PartialEq, Eq, Structural)]
pub struct Timestamp {
    pub year: i32,
    pub month: u32,
    pub day: u32,
    pub hour: u32,
    pub minute: u32,
    pub second: u32,
    pub nanosecond: u32,
}

/// A capture time with its source.
#[derive(Debug, Clone, Copy, PartialEq, Eq, Structural)]
pub struct ExtractedTime {
    pub timestamp: Timestamp,
    pub source: TimeSource,
    /// Whether the metadata carried a sub-second part.
    pub has_millis: bool,
}

/// Why no capture time could be had.
#[derive(Debug, Clone, PartialEq, Eq)]
pub enum TimeError {
    /// The EXIF block could not be read, or held no usable date.
    ExifRead { message: String },
    /// The file is neither a supported image nor a supported video.
    UnsupportedFormat,
    /// The video's metadata held no usable date.
    VideoMetadata { message: String },
    /// The file system gave no modification time.
    FileSystem { message: String },
}

// ---------------------------------------------------------------------------
// Ordering
// ---------------------------------------------------------------------------

/// `a` comes strictly after `b` (chrono's order: date, then time of day).
pub open spec fn is_after(a: Timestamp, b: Timestamp) -> bool {
    if a.year != b.year {
        a.year > b.year
    } else if a.month != b.month {
        a.month > b.month
    } else if a.day != b.day {
        a.day > b.day
    } else if a.hour != b.hour {
        a.hour > b.hour
    } else if a.minute != b.minute {
        a.minute > b.minute
    } else if a.second != b.second {
        a.second > b.second
    } else {
        a.nanosecond > b.nanosecond
    }
}

/// Executable form of [`is_after`].
pub fn timestamp_after(a: &Timestamp, b: &Timestamp) -> (r: bool)
    ensures
        r == is_after(*a, *b),
{
    if a.year != b.year {
        a.year > b.year
    } else if a.month != b.month {
        a.month > b.month
    } else if a.day != b.day {
        a.day > b.day
    } else if a.hour != b.hour {
        a.hour > b.hour
    } else if a.minute != b.minute {
        a.minute > b.minute
    } else if a.second != b.second {
        a.second > b.second
    } else {
        a.nanosecond > b.nanosecond
    }
}

/// [`is_after`] is a strict order: irreflexive and transitive, and of two
/// different timestamps one comes after the other.
pub proof fn lemma_is_after_strict_order(a: Timestamp, b: Timestamp, c: Timestamp)
    ensures
        !is_after(a, a),
        is_after(a, b) && is_after(b, c) ==> is_after(a, c),
        a != b ==> (is_after(a, b) || is_after(b, a)),
        !(is_after(a, b) && is_after(b, a)),
{
}

// ---------------------------------------------------------------------------
// chrono
// ---------------------------------------------------------------------------

/// What `NaiveDateTime::parse_from_str(s, fmt)` gives, as a [`Timestamp`].
pub uninterp spec fn naive_datetime_parse(s: Seq<char>, fmt: Seq<char>) -> Option<Timestamp>;

/// What `DateTime::parse_from_rfc3339(s)` gives, converted to UTC.
pub uninterp spec fn rfc3339_parse_utc(s: Seq<char>) -> Option<Timestamp>;

/// What `DateTime::parse_from_str(s, fmt)` gives, converted to UTC.
pub uninterp spec fn offset_datetime_parse_utc(s: Seq<char>, fmt: Seq<char>) -> Option<Timestamp>;

/// What `NaiveDate::parse_from_str(s, fmt)` gives, as year, month and day.
pub uninterp spec fn naive_date_parse(s: Seq<char>, fmt: Seq<char>) -> Option<(i32, u32, u32)>;

/// What chrono's `format(fmt)` renders for `t`; `None` when `t` is no
/// valid chrono date and time or `fmt` does not render.
pub uninterp spec fn timestamp_format(t: Timestamp, fmt: Seq<char>) -> Option<Seq<char>>;

/// `chrono::NaiveDateTime::parse_from_str`. The contract names the result:
/// it is a function of the text and the format alone.
#[verifier::external_body]
fn parse_naive_datetime(s: &str, fmt: &str) -> (r: Option<Timestamp>)
    ensures
        r == naive_datetime_parse(s@, fmt@),
{
    match chrono::NaiveDateTime::parse_from_str(s, fmt) {
        Ok(dt) => Some(Timestamp {
            year: dt.year(), month: dt.month(), day: dt.day(), hour: dt.hour(),
            minute: dt.minute(), second: dt.second(), nanosecond: dt.nanosecond(),
        }),
        Err(_) => None,
    }
}

/// `chrono::DateTime::parse_from_rfc3339` followed by `naive_utc`. The
/// contract names the result: it is a function of the text alone.
#[verifier::external_body]
fn parse_rfc3339_utc(s: &str) -> (r: Option<Timestamp>)
    ensures
        r == rfc3339_parse_utc(s@),
{
    match chrono::DateTime::parse_from_rfc3339(s) {
        Ok(d) => {
            let dt = d.naive_utc();
            Some(Timestamp {
                year: dt.year(), month: dt.month(), day: dt.day(), hour: dt.hour(),
                minute: dt.minute(), second: dt.second(), nanosecond: dt.nanosecond(),
            })
        },
        Err(_) => None,
    }
}

/// `chrono::DateTime::parse_from_str` followed by `naive_utc`. The
/// contract names the result: it is a function of the text and the format
/// alone.
#[verifier::external_body]
fn parse_offset_datetime_utc(s: &str, fmt: &str) -> (r: Option<Timestamp>)
    ensures
        r == offset_datetime_parse_utc(s@, fmt@),
{
    match chrono::DateTime::parse_from_str(s, fmt) {
        Ok(d) => {
            let dt = d.naive_utc();
            Some(Timestamp {
                year: dt.year(), month: dt.month(), day: dt.day(), hour: dt.hour(),
                minute: dt.minute(), second: dt.second(), nanosecond: dt.nanosecond(),
            })
        },
        Err(_) => None,
    }
}

/// `chrono::NaiveDate::parse_from_str`. The contract names the result: it
/// is a function of the text and the format alone.
#[verifier::external_body]
fn parse_naive_date(s: &str, fmt: &str) -> (r: Option<(i32, u32, u32)>)
    ensures
        r == naive_date_parse(s@, fmt@),
{
    match chrono::NaiveDate::parse_from_str(s, fmt) {
        Ok(d) => Some((d.year(), d.month(), d.day())),
        Err(_) => None,
    }
}

/// chrono's `NaiveDateTime::format(fmt)` on `t`, written into a string.
/// The contract names the result: it is a function of `t` and the format
/// alone.
#[verifier::external_body]
pub(crate) fn format_timestamp(t: &Timestamp, fmt: &str) -> (r: Option<String>)
    ensures
        opt_chars(r) == timestamp_format(*t, fmt@),
{
    let date = chrono::NaiveDate::from_ymd_opt(t.year, t.month, t.day)?;
    let dt = date.and_hms_nano_opt(t.hour, t.minute, t.second, t.nanosecond)?;
    let mut out = String::new();
    match write!(out, "{}", dt.format(fmt)) {
        Ok(()) => Some(out),
        Err(_) => None,
    }
}

/// chrono's `with_nanosecond`: refused from two seconds on.
pub open spec fn with_nanosecond(t: Timestamp, nano: u32) -> Option<Timestamp> {
    if nano >= 2_000_000_000 {
        None
    } else {
        Some(Timestamp { nanosecond: nano, ..t })
    }
}

/// Executable form of [`with_nanosecond`].
pub fn timestamp_with_nanosecond(t: &Timestamp, nano: u32) -> (r: Option<Timestamp>)
    ensures
        r == with_nanosecond(*t, nano),
{
    if nano >= 2_000_000_000 {
        None
    } else {
        Some(Timestamp { nanosecond: nano, ..*t })
    }
}

// ---------------------------------------------------------------------------
// Date strings
// ---------------------------------------------------------------------------

/// The character sequences of a list of string slices.
pub open spec fn str_seqs(v: Seq<&str>) -> Seq<Seq<char>> {
    v.map_values(|f: &str| f@)
}

/// The formats tried on EXIF-style date strings, in order.
pub open spec fn date_formats_spec() -> Seq<Seq<char>> {
    seq![
        "%Y:%m:%d %H:%M:%S"@,
        "%Y:%m:%d %H:%M:%S%.f"@,
        "%Y-%m-%d %H:%M:%S"@,
        "%Y-%m-%dT%H:%M:%S"@,
        "%Y/%m/%d %H:%M:%S"@,
    ]
}

/// The ISO 8601 formats with an optional offset tried on video dates, in
/// order.
pub open spec fn iso8601_formats_spec() -> Seq<Seq<char>> {
    seq![
        "%Y-%m-%dT%H:%M:%S%.fZ"@,
        "%Y-%m-%dT%H:%M:%SZ"@,
        "%Y-%m-%dT%H:%M:%S%.f%:z"@,
        "%Y-%m-%dT%H:%M:%S%:z"@,
        "%Y-%m-%dT%H:%M:%S%.f%z"@,
        "%Y-%m-%dT%H:%M:%S%z"@,
        "%Y-%m-%dT%H:%M:%S%.f"@,
        "%Y-%m-%dT%H:%M:%S"@,
        "%Y-%m-%d %H:%M:%S%.f"@,
        "%Y-%m-%d %H:%M:%S"@,
    ]
}

/// The formats tried on EXIF-style date strings (see
/// [`date_formats_spec`]).
pub fn date_formats() -> (r: Vec<&'static str>)
    ensures
        str_seqs(r@) == date_formats_spec(),
{
    let r = vec![
        "%Y:%m:%d %H:%M:%S",
        "%Y:%m:%d %H:%M:%S%.f",
        "%Y-%m-%d %H:%M:%S",
        "%Y-%m-%dT%H:%M:%S",
        "%Y/%m/%d %H:%M:%S",
    ];
    assert(str_seqs(r@) =~= date_formats_spec());
    r
}

/// The ISO 8601 formats tried on video dates (see
/// [`iso8601_formats_spec`]).
pub fn iso8601_formats() -> (r: Vec<&'static str>)
    ensures
        str_seqs(r@) == iso8601_formats_spec(),
{
    let r = vec![
        "%Y-%m-%dT%H:%M:%S%.fZ",
        "%Y-%m-%dT%H:%M:%SZ",
        "%Y-%m-%dT%H:%M:%S%.f%:z",
        "%Y-%m-%dT%H:%M:%S%:z",
        "%Y-%m-%dT%H:%M:%S%.f%z",
        "%Y-%m-%dT%H:%M:%S%z",
        "%Y-%m-%dT%H:%M:%S%.f",
        "%Y-%m-%dT%H:%M:%S",
        "%Y-%m-%d %H:%M:%S%.f",
        "%Y-%m-%d %H:%M:%S",
    ];
    assert(str_seqs(r@) =~= iso8601_formats_spec());
    r
}

/// The first of the formats from position `i` on that parses `t` as a
/// naive date and time, and what it gives.
pub open spec fn first_naive_parse(t: Seq<char>, formats: Seq<Seq<char>>, i: int) -> Option<Timestamp>
    decreases formats.len() - i,
{
    if i < 0 || i >= formats.len() {
        None
    } else {
        match naive_datetime_parse(t, formats[i]) {
            Some(dt) => Some(dt),
            None => first_naive_parse(t, formats, i + 1),
        }
    }
}

/// The first of the formats from position `i` on that parses `t` as a date
/// and time with an offset, and what it gives in UTC.
pub open spec fn first_offset_parse(t: Seq<char>, formats: Seq<Seq<char>>, i: int) -> Option<Timestamp>
    decreases formats.len() - i,
{
    if i < 0 || i >= formats.len() {
        None
    } else {
        match offset_datetime_parse_utc(t, formats[i]) {
            Some(dt) => Some(dt),
            None => first_offset_parse(t, formats, i + 1),
        }
    }
}

/// `s`, trimmed, parsed with the first format that accepts it.
pub open spec fn parse_multi_spec(s: Seq<char>, formats: Seq<Seq<char>>) -> Option<Timestamp> {
    first_naive_parse(trim(s), formats, 0)
}

/// Parses `s`, trimmed, with each format in turn and gives the first
/// success.
pub fn parse_multi(s: &str, formats: &[&str]) -> (r: Option<Timestamp>)
    ensures
        r == parse_multi_spec(s@, str_seqs(formats@)),
{
    let t = trim_str(s);
    let ghost fs = str_seqs(formats@);
    let mut i: usize = 0;
    while i < formats.len()
        invariant
            i <= formats@.len(),
            fs == str_seqs(formats@),
            t@ == trim(s@),
            first_naive_parse(t@, fs, 0) == first_naive_parse(t@, fs, i as int),
        decreases formats@.len() - i,
    {
        assert(fs[i as int] == formats@[i as int]@);
        let f: &str = formats[i];
        assert(f@ == fs[i as int]);
        if let Some(dt) = parse_naive_datetime(t.as_str(), f) {
            assert(first_naive_parse(t@, fs, i as int) == Some(dt));
            return Some(dt);
        }
        i = i + 1;
    }
    None
}

fn first_offset_parse_exec(t: &str, formats: &[&str]) -> (r: Option<Timestamp>)
    ensures
        r == first_offset_parse(t@, str_seqs(formats@), 0),
{
    let ghost fs = str_seqs(formats@);
    let mut i: usize = 0;
    while i < formats.len()
        invariant
            i <= formats@.len(),
            fs == str_seqs(formats@),
            first_offset_parse(t@, fs, 0) == first_offset_parse(t@, fs, i as int),
        decreases formats@.len() - i,
    {
        assert(fs[i as int] == formats@[i as int]@);
        let f: &str = formats[i];
        assert(f@ == fs[i as int]);
        if let Some(dt) = parse_offset_datetime_utc(t, f) {
            assert(first_offset_parse(t@, fs, i as int) == Some(dt));
            return Some(dt);
        }
        i = i + 1;
    }
    None
}

/// The position after the run of `c` that starts at `i`.
pub open spec fn skip_leading(s: Seq<char>, c: char, i: int) -> int
    decreases s.len() - i,
{
    if 0 <= i < s.len() && s[i] == c {
        skip_leading(s, c, i + 1)
    } else {
        i
    }
}

/// The position before the run of `c` that ends at `k`, not going below
/// `lo`.
pub open spec fn skip_trailing(s: Seq<char>, c: char, k: int, lo: int) -> int
    decreases k,
{
    if 0 <= lo < k <= s.len() && s[k - 1] == c {
        skip_trailing(s, c, k - 1, lo)
    } else {
        k
    }
}

/// `s` without leading and trailing `c` (`str::trim_matches` with a
/// character).
pub open spec fn trim_matches(s: Seq<char>, c: char) -> Seq<char> {
    let a = skip_leading(s, c, 0);
    s.subrange(a, skip_trailing(s, c, s.len() as int, a))
}

proof fn lemma_skip_leading_range(s: Seq<char>, c: char, i: int)
    requires
        0 <= i <= s.len(),
    ensures
        i <= skip_leading(s, c, i) <= s.len(),
    decreases s.len() - i,
{
    if i < s.len() && s[i] == c {
        lemma_skip_leading_range(s, c, i + 1);
    }
}

proof fn lemma_skip_trailing_range(s: Seq<char>, c: char, k: int, lo: int)
    requires
        0 <= lo <= k <= s.len(),
    ensures
        lo <= skip_trailing(s, c, k, lo) <= k,
    decreases k,
{
    if lo < k && s[k - 1] == c {
        lemma_skip_trailing_range(s, c, k - 1, lo);
    }
}

/// `str::trim_matches` with a character pattern.
pub fn trim_matches_str(s: &str, c: char) -> (r: String)
    ensures
        r@ == trim_matches(s@, c),
{
    let v = chars_of(s);
    let n = v.len();
    let mut i: usize = 0;
    while i < n && v[i] == c
        invariant
            n == v@.len(),
            v@ == s@,
            i <= n,
            skip_leading(s@, c, 0) == skip_leading(s@, c, i as int),
        decreases n - i,
    {
        i = i + 1;
    }
    let mut k: usize = n;
    while k > i && v[k - 1] == c
        invariant
            n == v@.len(),
            v@ == s@,
            i <= k <= n,
            i == skip_leading(s@, c, 0),
            skip_trailing(s@, c, n as int, i as int) == skip_trailing(s@, c, k as int, i as int),
        decreases k,
    {
        k = k - 1;
    }
    let mut r: Vec<char> = Vec::new();
    let mut m: usize = i;
    while m < k
        invariant
            n == v@.len(),
            i <= m <= k <= n,
            r@ == v@.subrange(i as int, m as int),
        decreases k - m,
    {
        r.push(v[m]);
        assert(v@.subrange(i as int, m + 1) =~= v@.subrange(i as int, m as int).push(v@[m as int]));
        m = m + 1;
    }
    string_of(&r)
}

/// The reading of an EXIF date string: trimmed, stripped of double
/// quotes, then parsed with the EXIF-style formats.
pub open spec fn parse_exif_spec(s: Seq<char>) -> Option<Timestamp> {
    parse_multi_spec(trim_matches(trim(s), '"'), date_formats_spec())
}

/// Parses an EXIF date string (see [`parse_exif_spec`]).
pub fn parse_exif(s: &str) -> (r: Option<Timestamp>)
    ensures
        r == parse_exif_spec(s@),
{
    let t = trim_str(s);
    let u = trim_matches_str(t.as_str(), '"');
    let formats = date_formats();
    parse_multi(u.as_str(), formats.as_slice())
}

/// Midnight of a date.
pub open spec fn midnight(d: (i32, u32, u32)) -> Timestamp {
    Timestamp { year: d.0, month: d.1, day: d.2, hour: 0, minute: 0, second: 0, nanosecond: 0 }
}

/// The reading of a video date string, trimmed: RFC 3339 first, then the
/// ISO 8601 formats with an offset (in UTC), then the EXIF-style formats,
/// then a bare `YYYY-MM-DD` date at midnight.
pub open spec fn parse_video_datetime_spec(s: Seq<char>) -> Option<Timestamp> {
    let t = trim(s);
    match rfc3339_parse_utc(t) {
        Some(dt) => Some(dt),
        None => match first_offset_parse(t, iso8601_formats_spec(), 0) {
            Some(dt) => Some(dt),
            None => match parse_multi_spec(t, date_formats_spec()) {
                Some(dt) => Some(dt),
                None => match naive_date_parse(t, "%Y-%m-%d"@) {
                    Some(d) => Some(midnight(d)),
                    None => None,
                },
            },
        },
    }
}

/// Parses a date string from video metadata (see
/// [`parse_video_datetime_spec`]).
pub fn parse_video_datetime(s: &str) -> (r: Option<Timestamp>)
    ensures
        r == parse_video_datetime_spec(s@),
{
    let t = trim_str(s);
    if let Some(dt) = parse_rfc3339_utc(t.as_str()) {
        return Some(dt);
    }
    let iso = iso8601_formats();
    if let Some(dt) = first_offset_parse_exec(t.as_str(), iso.as_slice()) {
        return Some(dt);
    }
    let formats = date_formats();
    if let Some(dt) = parse_multi(t.as_str(), formats.as_slice()) {
        return Some(dt);
    }
    match parse_naive_date(t.as_str(), "%Y-%m-%d") {
        Some((y, m, d)) => Some(Timestamp { year: y, month: m, day: d, hour: 0, minute: 0, second: 0, nanosecond: 0 }),
        None => None,
    }
}

// ---------------------------------------------------------------------------
// Sub-second parts
// ---------------------------------------------------------------------------

/// An ASCII decimal digit.
pub open spec fn is_ascii_digit(c: char) -> bool {
    '0' <= c <= '9'
}

/// The ASCII digits of `s`, in order.
pub open spec fn ascii_digits(s: Seq<char>) -> Seq<char>
    decreases s.len(),
{
    if s.len() == 0 {
        Seq::empty()
    } else if is_ascii_digit(s.last()) {
        ascii_digits(s.drop_last()).push(s.last())
    } else {
        ascii_digits(s.drop_last())
    }
}

/// The value of a string of decimal digits.
pub open spec fn digits_value(d: Seq<char>) -> nat
    decreases d.len(),
{
    if d.len() == 0 {
        0
    } else {
        digits_value(d.drop_last()) * 10 + ((d.last() as nat) - 48) as nat
    }
}

/// `10^n`.
pub open spec fn pow10(n: nat) -> nat
    decreases n,
{
    if n == 0 {
        1
    } else {
        10 * pow10((n - 1) as nat)
    }
}

/// The sub-second value of an EXIF `SubSecTime*` string in nanoseconds:
/// its first nine ASCII digits read as a decimal fraction of a second;
/// `None` when it has no digit.
pub open spec fn subsec_nanos(s: Seq<char>) -> Option<u32> {
    let d = ascii_digits(s);
    let t = if d.len() > 9 { d.take(9) } else { d };
    if t.len() == 0 {
        None
    } else {
        Some((digits_value(t) * pow10((9 - t.len()) as nat)) as u32)
    }
}

proof fn lemma_pow10_facts(n: nat)
    ensures
        pow10(n) >= 1,
        n <= 9 ==> pow10(n) <= 1_000_000_000,
        pow10(9) == 1_000_000_000,
    decreases n,
{
    reveal_with_fuel(pow10, 10);
    if n > 0 {
        lemma_pow10_facts((n - 1) as nat);
    }
}

proof fn lemma_digits_value_bound(d: Seq<char>)
    requires
        forall|i: int| 0 <= i < d.len() ==> is_ascii_digit(#[trigger] d[i]),
    ensures
        digits_value(d) < pow10(d.len()),
    decreases d.len(),
{
    if d.len() > 0 {
        let p = d.drop_last();
        assert forall|i: int| 0 <= i < p.len() implies is_ascii_digit(#[trigger] p[i]) by {
            assert(p[i] == d[i]);
        }
        lemma_digits_value_bound(p);
        assert(is_ascii_digit(d[d.len() - 1]));
    }
}

proof fn lemma_ascii_digits_are_digits(s: Seq<char>)
    ensures
        forall|i: int| 0 <= i < ascii_digits(s).len() ==> is_ascii_digit(#[trigger] ascii_digits(s)[i]),
        ascii_digits(s).len() <= s.len(),
    decreases s.len(),
{
    if s.len() > 0 {
        lemma_ascii_digits_are_digits(s.drop_last());
    }
}

/// Reads the sub-second part of an EXIF `SubSecTime*` string (see
/// [`subsec_nanos`]).
pub fn subsec_to_nanos(value: &str) -> (r: Option<u32>)
    ensures
        r == subsec_nanos(value@),
{
    let v = chars_of(value);
    let n = v.len();
    let mut count: usize = 0;
    let mut nanos: u32 = 0;
    let mut i: usize = 0;
    proof {
        lemma_pow10_facts(0);
        assert(v@.take(0) =~= Seq::<char>::empty());
        assert(ascii_digits(v@.take(0)).take(0) =~= Seq::<char>::empty());
    }
    while i < n
        invariant
            n == v@.len(),
            i <= n,
            count <= 9,
            count as int == if ascii_digits(v@.take(i as int)).len() > 9 { 9 } else { ascii_digits(v@.take(i as int)).len() as int },
            nanos as nat == digits_value(ascii_digits(v@.take(i as int)).take(count as int)),
            (nanos as nat) < pow10(count as nat),
        decreases n - i,
    {
        let c = v[i];
        let ghost p = ascii_digits(v@.take(i as int));
        proof {
            assert(v@.take(i + 1).drop_last() =~= v@.take(i as int));
            assert(v@.take(i + 1).last() == c);
            lemma_pow10_facts(count as nat);
        }
        if '0' <= c && c <= '9' && count < 9 {
            let d: u32 = (c as u32) - 48;
            proof {
                assert(ascii_digits(v@.take(i + 1)) == p.push(c));
                assert(p.len() == count);
                assert(p.push(c).take(count + 1) =~= p.push(c));
                assert(p.take(count as int) =~= p);
                assert(p.push(c).drop_last() =~= p);
                lemma_pow10_facts((count + 1) as nat);
                assert(pow10((count + 1) as nat) == 10 * pow10(count as nat));
            }
            nanos = nanos * 10 + d;
            count = count + 1;
        } else if '0' <= c && c <= '9' {
            proof {
                assert(ascii_digits(v@.take(i + 1)) == p.push(c));
                assert(p.push(c).take(9) =~= p.take(9));
            }
        } else {
            assert(ascii_digits(v@.take(i + 1)) == p);
        }
        i = i + 1;
    }
    if count == 0 {
        assert(v@.take(n as int) =~= v@);
        return None;
    }
    let ghost d = ascii_digits(v@);
    let ghost t = if d.len() > 9 { d.take(9) } else { d };
    proof {
        assert(v@.take(n as int) =~= v@);
        assert(d.take(count as int) =~= t);
        assert(pow10(0) == 1);
        assert(digits_value(t) * pow10(0) == digits_value(t));
    }
    let mut k: usize = count;
    while k < 9
        invariant
            count <= k <= 9,
            nanos as nat == digits_value(t) * pow10((k - count) as nat),
            (nanos as nat) < pow10(k as nat),
        decreases 9 - k,
    {
        proof {
            lemma_pow10_facts((k + 1) as nat);
            assert(pow10((k + 1) as nat) == 10 * pow10(k as nat));
            assert(pow10((k + 1 - count) as nat) == 10 * pow10((k - count) as nat));
            assert(digits_value(t) * pow10((k + 1 - count) as nat) == (digits_value(t) * pow10((k - count) as nat)) * 10) by (nonlinear_arith)
                requires pow10((k + 1 - count) as nat) == 10 * pow10((k - count) as nat);
        }
        nanos = nanos * 10;
        k = k + 1;
    }
    proof {
        lemma_pow10_facts(9);
    }
    Some(nanos)
}

/// A sub-second value is always below one second, so merging it into a
/// date never fails.
pub proof fn lemma_subsec_below_one_second(s: Seq<char>, dt: Timestamp)
    ensures
        subsec_nanos(s) matches Some(n) ==> n < 1_000_000_000 && with_nanosecond(dt, n) == Some(
            Timestamp { nanosecond: n, ..dt },
        ),
{
    let d = ascii_digits(s);
    let t = if d.len() > 9 { d.take(9) } else { d };
    if t.len() > 0 {
        lemma_ascii_digits_are_digits(s);
        assert forall|i: int| 0 <= i < t.len() implies is_ascii_digit(#[trigger] t[i]) by {
            assert(t[i] == d[i]);
        }
        lemma_digits_value_bound(t);
        lemma_pow10_facts(t.len());
        lemma_pow10_facts((9 - t.len()) as nat);
        lemma_pow10_split(t.len(), (9 - t.len()) as nat);
        assert(digits_value(t) * pow10((9 - t.len()) as nat) < pow10(t.len()) * pow10((9 - t.len()) as nat)) by (nonlinear_arith)
            requires
                digits_value(t) < pow10(t.len()),
                pow10((9 - t.len()) as nat) >= 1,
        ;
    }
}

proof fn lemma_pow10_split(a: nat, b: nat)
    ensures
        pow10(a) * pow10(b) == pow10(a + b),
    decreases a,
{
    if a > 0 {
        lemma_pow10_split((a - 1) as nat, b);
        assert(pow10(a) * pow10(b) == 10 * (pow10((a - 1) as nat) * pow10(b))) by (nonlinear_arith)
            requires
                pow10(a) == 10 * pow10((a - 1) as nat),
        ;
        assert(pow10(a + b) == 10 * pow10((a - 1 + b) as nat));
    } else {
        assert(pow10(0) == 1);
    }
}

/// Date tags of an EXIF block that this library reads, with their
/// sub-second companions.
#[derive(Debug, Clone, Copy, PartialEq, Eq, Structural)]
pub enum ExifTag {
    /// When the picture was taken.
    DateTimeOriginal,
    /// When the picture was digitised.
    DateTimeDigitized,
    /// When the file was last changed.
    DateTime,
    SubSecTimeOriginal,
    SubSecTimeDigitized,
    SubSecTime,
}

/// The sub-second tag that goes with a date tag.
pub open spec fn subsec_tag_of(tag: ExifTag) -> Option<ExifTag> {
    match tag {
        ExifTag::DateTimeOriginal => Some(ExifTag::SubSecTimeOriginal),
        ExifTag::DateTimeDigitized => Some(ExifTag::SubSecTimeDigitized),
        ExifTag::DateTime => Some(ExifTag::SubSecTime),
        _ => None,
    }
}

/// The sub-second tag that goes with a date tag (see [`subsec_tag_of`]).
pub fn subsec_tag_for(tag: ExifTag) -> (r: Option<ExifTag>)
    ensures
        r == subsec_tag_of(tag),
{
    match tag {
        ExifTag::DateTimeOriginal => Some(ExifTag::SubSecTimeOriginal),
        ExifTag::DateTimeDigitized => Some(ExifTag::SubSecTimeDigitized),
        ExifTag::DateTime => Some(ExifTag::SubSecTime),
        _ => None,
    }
}

/// A date with a sub-second string merged in; unchanged when the string
/// gives no valid sub-second value.
pub open spec fn combine_subsec_spec(dt: Timestamp, value: Seq<char>) -> Timestamp {
    match subsec_nanos(value) {
        Some(n) => match with_nanosecond(dt, n) {
            Some(t) => t,
            None => dt,
        },
        None => dt,
    }
}

/// Merges a sub-second string into a date (see [`combine_subsec_spec`]).
pub fn combine_subsec(datetime: &Timestamp, value: &str) -> (r: Timestamp)
    ensures
        r == combine_subsec_spec(*datetime, value@),
{
    match subsec_to_nanos(value) {
        Some(nanos) => match timestamp_with_nanosecond(datetime, nanos) {
            Some(t) => t,
            None => *datetime,
        },
        None => *datetime,
    }
}

// ---------------------------------------------------------------------------
// EXIF
// ---------------------------------------------------------------------------

/// What kamadak-exif gives for `tag` in the primary image of the EXIF
/// block held by `bytes` (a JPEG, TIFF, HEIF, PNG or WebP file): the
/// field's display text, `None` when the field is absent, or the reader's
/// error message.
pub uninterp spec fn exif_tag_lookup(bytes: Seq<u8>, tag: ExifTag) -> Result<Option<Seq<char>>, Seq<char>>;

/// The character content of a lookup result.
pub open spec fn lookup_view(r: Result<Option<String>, String>) -> Result<Option<Seq<char>>, Seq<char>> {
    match r {
        Ok(o) => Ok(opt_chars(o)),
        Err(e) => Err(e@),
    }
}

/// `exif::Reader::read_from_container` on the bytes, then `get_field` for
/// the tag in the primary image and its `display_value`. The contract
/// names the result: it is a function of the bytes and the tag alone.
#[verifier::external_body]
fn exif_field_text(bytes: &[u8], tag: ExifTag) -> (r: Result<Option<String>, String>)
    ensures
        lookup_view(r) == exif_tag_lookup(bytes@, tag),
{
    let tag = match tag {
        ExifTag::DateTimeOriginal => exif::Tag::DateTimeOriginal,
        ExifTag::DateTimeDigitized => exif::Tag::DateTimeDigitized,
        ExifTag::DateTime => exif::Tag::DateTime,
        ExifTag::SubSecTimeOriginal => exif::Tag::SubSecTimeOriginal,
        ExifTag::SubSecTimeDigitized => exif::Tag::SubSecTimeDigitized,
        ExifTag::SubSecTime => exif::Tag::SubSecTime,
    };
    let mut cursor = std::io::Cursor::new(bytes);
    let exif = exif::Reader::new().read_from_container(&mut cursor).map_err(|e| e.to_string())?;
    match exif.get_field(tag, exif::In::PRIMARY) {
        Some(field) => Ok(Some(field.display_value().to_string())),
        None => Ok(None),
    }
}

/// The date fields of an EXIF block, as display text.
#[derive(Debug)]
pub struct ExifDateFields {
    pub original: Option<String>,
    pub original_subsec: Option<String>,
    pub digitized: Option<String>,
    pub digitized_subsec: Option<String>,
    pub modified: Option<String>,
    pub modified_subsec: Option<String>,
}

/// The character content of [`ExifDateFields`].
pub struct ExifDateFieldsView {
    pub original: Option<Seq<char>>,
    pub original_subsec: Option<Seq<char>>,
    pub digitized: Option<Seq<char>>,
    pub digitized_subsec: Option<Seq<char>>,
    pub modified: Option<Seq<char>>,
    pub modified_subsec: Option<Seq<char>>,
}

impl View for ExifDateFields {
    type V = ExifDateFieldsView;

    open spec fn view(&self) -> ExifDateFieldsView {
        ExifDateFieldsView {
            original: opt_chars(self.original),
            original_subsec: opt_chars(self.original_subsec),
            digitized: opt_chars(self.digitized),
            digitized_subsec: opt_chars(self.digitized_subsec),
            modified: opt_chars(self.modified),
            modified_subsec: opt_chars(self.modified_subsec),
        }
    }
}

/// The time read from one date field and its sub-second field: the date
/// parsed as an EXIF date, with the sub-second value merged in when that
/// field is present; it carries milliseconds when the date already had a
/// sub-second part or the sub-second field is present.
pub open spec fn time_from_date_field(date: Option<Seq<char>>, subsec: Option<Seq<char>>) -> Option<ExtractedTime> {
    match date {
        None => None,
        Some(text) => match parse_exif_spec(text) {
            None => None,
            Some(dt) => Some(ExtractedTime {
                timestamp: match subsec {
                    Some(sub) => combine_subsec_spec(dt, sub),
                    None => dt,
                },
                source: TimeSource::Exif,
                has_millis: dt.nanosecond != 0 || subsec is Some,
            }),
        },
    }
}

/// The capture time of an EXIF block: the first date field, in the order
/// original, digitised, modified, that parses.
pub open spec fn exif_time_of(f: ExifDateFieldsView) -> Option<ExtractedTime> {
    match time_from_date_field(f.original, f.original_subsec) {
        Some(t) => Some(t),
        None => match time_from_date_field(f.digitized, f.digitized_subsec) {
            Some(t) => Some(t),
            None => time_from_date_field(f.modified, f.modified_subsec),
        },
    }
}

/// Whether a date tag is present and reads as an EXIF date.
pub open spec fn reads_as_exif_date(d: Option<Seq<char>>) -> bool {
    d matches Some(s) && parse_exif_spec(s) is Some
}

/// The EXIF capture time comes from the first date tag that reads, in the
/// order DateTimeOriginal (when the photo was taken), DateTimeDigitized,
/// DateTime (last modified), each with its own sub-second tag merged in:
/// a readable DateTimeOriginal decides the time whatever the other tags
/// hold.
pub proof fn lemma_exif_date_tag_order(f: ExifDateFieldsView)
    ensures
        forall|s: Seq<char>|
            f.original == Some(s) && (#[trigger] parse_exif_spec(s)) is Some ==> exif_time_of(f) == Some(
                ExtractedTime {
                    timestamp: match f.original_subsec {
                        Some(sub) => combine_subsec_spec(parse_exif_spec(s)->0, sub),
                        None => parse_exif_spec(s)->0,
                    },
                    source: TimeSource::Exif,
                    has_millis: parse_exif_spec(s)->0.nanosecond != 0 || f.original_subsec is Some,
                },
            ),
        forall|s: Seq<char>|
            !reads_as_exif_date(f.original) && f.digitized == Some(s) && (#[trigger] parse_exif_spec(s)) is Some ==> exif_time_of(f) == Some(
                ExtractedTime {
                    timestamp: match f.digitized_subsec {
                        Some(sub) => combine_subsec_spec(parse_exif_spec(s)->0, sub),
                        None => parse_exif_spec(s)->0,
                    },
                    source: TimeSource::Exif,
                    has_millis: parse_exif_spec(s)->0.nanosecond != 0 || f.digitized_subsec is Some,
                },
            ),
        forall|s: Seq<char>|
            !reads_as_exif_date(f.original) && !reads_as_exif_date(f.digitized) && f.modified == Some(s) && (#[trigger] parse_exif_spec(s)) is Some ==> exif_time_of(f) == Some(
                ExtractedTime {
                    timestamp: match f.modified_subsec {
                        Some(sub) => combine_subsec_spec(parse_exif_spec(s)->0, sub),
                        None => parse_exif_spec(s)->0,
                    },
                    source: TimeSource::Exif,
                    has_millis: parse_exif_spec(s)->0.nanosecond != 0 || f.modified_subsec is Some,
                },
            ),
        exif_time_of(f) is None <==> (!reads_as_exif_date(f.original) && !reads_as_exif_date(f.digitized)
            && !reads_as_exif_date(f.modified)),
{
}

fn time_from_date_field_exec(date: &Option<String>, subsec: &Option<String>) -> (r: Option<ExtractedTime>)
    ensures
        r == time_from_date_field(opt_chars(*date), opt_chars(*subsec)),
{
    match date {
        None => None,
        Some(text) => match parse_exif(text.as_str()) {
            None => None,
            Some(dt) => {
                let timestamp = match subsec {
                    Some(sub) => combine_subsec(&dt, sub.as_str()),
                    None => dt,
                };
                Some(ExtractedTime {
                    timestamp,
                    source: TimeSource::Exif,
                    has_millis: dt.nanosecond != 0 || subsec.is_some(),
                })
            },
        },
    }
}

/// The capture time of an EXIF block from its date fields (see
/// [`exif_time_of`]).
pub fn exif_time_from_fields(fields: &ExifDateFields) -> (r: Option<ExtractedTime>)
    ensures
        r == exif_time_of(fields@),
{
    match time_from_date_field_exec(&fields.original, &fields.original_subsec) {
        Some(t) => Some(t),
        None => match time_from_date_field_exec(&fields.digitized, &fields.digitized_subsec) {
            Some(t) => Some(t),
            None => time_from_date_field_exec(&fields.modified, &fields.modified_subsec),
        },
    }
}

/// A field's text when its lookup succeeded; nothing otherwise.
pub open spec fn found(r: Result<Option<Seq<char>>, Seq<char>>) -> Option<Seq<char>> {
    match r {
        Ok(o) => o,
        Err(_) => None,
    }
}

/// The date fields of the EXIF block in `bytes`; refused with the reader's
/// message when the first lookup fails to read the block.
pub open spec fn exif_fields_of(bytes: Seq<u8>) -> Result<ExifDateFieldsView, Seq<char>> {
    match exif_tag_lookup(bytes, ExifTag::DateTimeOriginal) {
        Err(e) => Err(e),
        Ok(original) => Ok(ExifDateFieldsView {
            original,
            original_subsec: found(exif_tag_lookup(bytes, ExifTag::SubSecTimeOriginal)),
            digitized: found(exif_tag_lookup(bytes, ExifTag::DateTimeDigitized)),
            digitized_subsec: found(exif_tag_lookup(bytes, ExifTag::SubSecTimeDigitized)),
            modified: found(exif_tag_lookup(bytes, ExifTag::DateTime)),
            modified_subsec: found(exif_tag_lookup(bytes, ExifTag::SubSecTime)),
        }),
    }
}

fn found_text(r: Result<Option<String>, String>) -> (o: Option<String>)
    ensures
        opt_chars(o) == found(lookup_view(r)),
{
    match r {
        Ok(o) => o,
        Err(_) => None,
    }
}

/// Reads the date fields of the EXIF block in `bytes` (see
/// [`exif_fields_of`]).
pub fn read_exif_date_fields(bytes: &[u8]) -> (r: Result<ExifDateFields, String>)
    ensures
        match r {
            Ok(f) => exif_fields_of(bytes@) == Ok::<ExifDateFieldsView, Seq<char>>(f@),
            Err(e) => exif_fields_of(bytes@) == Err::<ExifDateFieldsView, Seq<char>>(e@),
        },
{
    let original = match exif_field_text(bytes, ExifTag::DateTimeOriginal) {
        Ok(o) => o,
        Err(e) => return Err(e),
    };
    let fields = ExifDateFields {
        original,
        original_subsec: found_text(exif_field_text(bytes, ExifTag::SubSecTimeOriginal)),
        digitized: found_text(exif_field_text(bytes, ExifTag::DateTimeDigitized)),
        digitized_subsec: found_text(exif_field_text(bytes, ExifTag::SubSecTimeDigitized)),
        modified: found_text(exif_field_text(bytes, ExifTag::DateTime)),
        modified_subsec: found_text(exif_field_text(bytes, ExifTag::SubSecTime)),
    };
    Ok(fields)
}

/// The message given when an EXIF block holds no usable date.
pub open spec fn no_date_message() -> Seq<char> {
    "No valid date tag found in EXIF data"@
}

/// The capture time read from the EXIF block of a file's bytes.
pub open spec fn exif_time_spec(bytes: Seq<u8>) -> Result<ExtractedTime, Seq<char>> {
    match exif_fields_of(bytes) {
        Err(e) => Err(e),
        Ok(f) => match exif_time_of(f) {
            Some(t) => Ok(t),
            None => Err(no_date_message()),
        },
    }
}

/// The message of an EXIF failure.
pub open spec fn exif_error_message(e: TimeError) -> Option<Seq<char>> {
    match e {
        TimeError::ExifRead { message } => Some(message@),
        _ => None,
    }
}

/// Reads the capture time from the EXIF block of a file's bytes (see
/// [`exif_time_spec`]); every failure is an [`TimeError::ExifRead`].
pub fn extract_exif_time(bytes: &[u8]) -> (r: Result<ExtractedTime, TimeError>)
    ensures
        match r {
            Ok(t) => exif_time_spec(bytes@) == Ok::<ExtractedTime, Seq<char>>(t),
            Err(e) => exif_error_message(e) matches Some(m)
                && exif_time_spec(bytes@) == Err::<ExtractedTime, Seq<char>>(m),
        },
{
    let fields = match read_exif_date_fields(bytes) {
        Ok(f) => f,
        Err(message) => return Err(TimeError::ExifRead { message }),
    };
    match exif_time_from_fields(&fields) {
        Some(t) => Ok(t),
        None => Err(TimeError::ExifRead { message: owned("No valid date tag found in EXIF data") }),
    }
}

// ---------------------------------------------------------------------------
// Choosing the source of a file's time
// ---------------------------------------------------------------------------

/// The extension of a path, or the empty string.
pub open spec fn ext_or_empty(p: Seq<char>) -> Seq<char> {
    match extension(p) {
        Some(e) => e,
        None => Seq::empty(),
    }
}

/// The extension of a path, or the empty string (see [`ext_or_empty`]).
pub fn ext_or_empty_str(p: &str) -> (r: String)
    ensures
        r@ == ext_or_empty(p@),
{
    match extension_str(p) {
        Some(e) => e,
        None => String::new(),
    }
}

/// A capture time from a video's metadata.
pub open spec fn video_time(t: Timestamp) -> ExtractedTime {
    ExtractedTime { timestamp: t, source: TimeSource::VideoMetadata, has_millis: t.nanosecond != 0 }
}

/// The time from metadata alone: EXIF for a configured image extension,
/// the video's metadata for a configured video extension, refused for any
/// other file.
pub open spec fn metadata_time_spec(
    path: Seq<char>,
    c: crate::config::ConfigView,
    bytes: Seq<u8>,
    video: Result<Timestamp, Seq<char>>,
) -> Result<ExtractedTime, Option<Seq<char>>> {
    let ext = ext_or_empty(path);
    if contains_ignore_ascii_case(c.image_extensions, ext) {
        match exif_time_spec(bytes) {
            Ok(t) => Ok(t),
            Err(m) => Err(Some(m)),
        }
    } else if contains_ignore_ascii_case(c.video_extensions, ext) {
        match video {
            Ok(t) => Ok(video_time(t)),
            Err(m) => Err(Some(m)),
        }
    } else {
        Err(None)
    }
}

/// The message of a failure, `None` for an unsupported format.
pub open spec fn time_error_message(e: TimeError) -> Option<Seq<char>> {
    match e {
        TimeError::ExifRead { message } => Some(message@),
        TimeError::VideoMetadata { message } => Some(message@),
        TimeError::FileSystem { message } => Some(message@),
        TimeError::UnsupportedFormat => None,
    }
}

/// The capture time from metadata alone (see [`metadata_time_spec`]):
/// `bytes` is the file's content and `video` what reading the video's
/// metadata gave; no fallback to the file name or the file system.
pub fn extract_metadata_time(
    path: &str,
    config: &Config,
    bytes: &[u8],
    video: Result<Timestamp, String>,
) -> (r: Result<ExtractedTime, TimeError>)
    ensures
        match r {
            Ok(t) => metadata_time_spec(path@, config@, bytes@, match video {
                Ok(v) => Ok(v),
                Err(m) => Err(m@),
            }) == Ok::<ExtractedTime, Option<Seq<char>>>(t),
            Err(e) => metadata_time_spec(path@, config@, bytes@, match video {
                Ok(v) => Ok(v),
                Err(m) => Err(m@),
            }) == Err::<ExtractedTime, Option<Seq<char>>>(time_error_message(e)),
        },
        r matches Err(e) ==> (e is UnsupportedFormat || e is ExifRead || e is VideoMetadata),
{
    let ext = ext_or_empty_str(path);
    if config.is_image(ext.as_str()) {
        return extract_exif_time(bytes);
    }
    if config.is_video(ext.as_str()) {
        return match video {
            Ok(t) => Ok(ExtractedTime { timestamp: t, source: TimeSource::VideoMetadata, has_millis: t.nanosecond != 0 }),
            Err(message) => Err(TimeError::VideoMetadata { message }),
        };
    }
    Err(TimeError::UnsupportedFormat)
}

/// A file's capture time: EXIF for an image, then the video's metadata for
/// a video, then the time in the file name, and last the file system's
/// modification time.
pub open spec fn file_time_spec(
    path: Seq<char>,
    c: crate::config::ConfigView,
    bytes: Seq<u8>,
    video: Result<Timestamp, Seq<char>>,
    from_name: Option<Timestamp>,
    modified: Result<Timestamp, Seq<char>>,
) -> Result<ExtractedTime, Seq<char>> {
    let ext = ext_or_empty(path);
    let exif = if contains_ignore_ascii_case(c.image_extensions, ext) {
        match exif_time_spec(bytes) {
            Ok(t) => Some(t),
            Err(_) => None,
        }
    } else {
        None
    };
    let vid = if contains_ignore_ascii_case(c.video_extensions, ext) {
        match video {
            Ok(t) => Some(video_time(t)),
            Err(_) => None,
        }
    } else {
        None
    };
    match exif {
        Some(t) => Ok(t),
        None => match vid {
            Some(t) => Ok(t),
            None => match from_name {
                Some(t) => Ok(ExtractedTime { timestamp: t, source: TimeSource::Filename, has_millis: t.nanosecond != 0 }),
                None => match modified {
                    Ok(t) => Ok(ExtractedTime { timestamp: t, source: TimeSource::FileSystem, has_millis: t.nanosecond != 0 }),
                    Err(m) => Err(m),
                },
            },
        },
    }
}

/// A file's capture time falls back in the documented order, EXIF ->
/// video metadata -> file name -> modification time: an image's readable
/// EXIF time wins; otherwise a video's readable metadata time, whatever
/// the name and modification times are; otherwise the time in the name;
/// otherwise the modification time, or its error.
pub proof fn lemma_time_fallback_order(
    path: Seq<char>,
    c: crate::config::ConfigView,
    bytes: Seq<u8>,
    video: Result<Timestamp, Seq<char>>,
    from_name: Option<Timestamp>,
    modified: Result<Timestamp, Seq<char>>,
)
    ensures
        ({
            let ext = ext_or_empty(path);
            let exif_usable = contains_ignore_ascii_case(c.image_extensions, ext) && exif_time_spec(bytes) is Ok;
            let video_usable = contains_ignore_ascii_case(c.video_extensions, ext) && video is Ok;
            let r = file_time_spec(path, c, bytes, video, from_name, modified);
            &&& exif_usable ==> r == Ok::<ExtractedTime, Seq<char>>(exif_time_spec(bytes)->Ok_0)
            &&& !exif_usable && video_usable ==> r == Ok::<ExtractedTime, Seq<char>>(ExtractedTime {
                timestamp: video->Ok_0,
                source: TimeSource::VideoMetadata,
                has_millis: video->Ok_0.nanosecond != 0,
            })
            &&& !exif_usable && !video_usable && from_name is Some ==> r == Ok::<ExtractedTime, Seq<char>>(
                ExtractedTime {
                    timestamp: from_name->0,
                    source: TimeSource::Filename,
                    has_millis: from_name->0.nanosecond != 0,
                },
            )
            &&& !exif_usable && !video_usable && from_name is None ==> r == match modified {
                Ok(t) => Ok::<ExtractedTime, Seq<char>>(ExtractedTime {
                    timestamp: t,
                    source: TimeSource::FileSystem,
                    has_millis: t.nanosecond != 0,
                }),
                Err(m) => Err(m),
            }
        }),
{
}

/// A file's capture time (see [`file_time_spec`]): `bytes` is the file's
/// content, `video` what reading the video's metadata gave, `from_name`
/// the time read from the file name and `modified` the file system's
/// modification time.
pub fn extract_time(
    path: &str,
    config: &Config,
    bytes: &[u8],
    video: Result<Timestamp, String>,
    from_name: Option<Timestamp>,
    modified: Result<Timestamp, String>,
) -> (r: Result<ExtractedTime, TimeError>)
    ensures
        match r {
            Ok(t) => file_time_spec(path@, config@, bytes@, match video {
                Ok(v) => Ok(v),
                Err(m) => Err(m@),
            }, from_name, match modified {
                Ok(v) => Ok(v),
                Err(m) => Err(m@),
            }) == Ok::<ExtractedTime, Seq<char>>(t),
            Err(e) => e matches TimeError::FileSystem { message } && file_time_spec(path@, config@, bytes@, match video {
                Ok(v) => Ok(v),
                Err(m) => Err(m@),
            }, from_name, match modified {
                Ok(v) => Ok(v),
                Err(m) => Err(m@),
            }) == Err::<ExtractedTime, Seq<char>>(message@),
        },
{
    let ext = ext_or_empty_str(path);
    if config.is_image(ext.as_str()) {
        if let Ok(t) = extract_exif_time(bytes) {
            return Ok(t);
        }
    }
    if config.is_video(ext.as_str()) {
        if let Ok(t) = video {
            return Ok(ExtractedTime { timestamp: t, source: TimeSource::VideoMetadata, has_millis: t.nanosecond != 0 });
        }
    }
    if let Some(t) = from_name {
        return Ok(ExtractedTime { timestamp: t, source: TimeSource::Filename, has_millis: t.nanosecond != 0 });
    }
    match modified {
        Ok(t) => Ok(ExtractedTime { timestamp: t, source: TimeSource::FileSystem, has_millis: t.nanosecond != 0 }),
        Err(message) => Err(TimeError::FileSystem { message }),
    }
}

} // verus!
