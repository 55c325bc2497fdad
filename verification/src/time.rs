//! Points in time as the rest of the library sees them: a count of seconds
//! since the Unix epoch plus a sub-second nanosecond part, compared and
//! subtracted exactly. RFC 3339 text is read and written through chrono.

use vstd::prelude::*;
use chrono::Datelike;

verus! {

/// One billion: nanoseconds per second.
pub const NANOS_PER_SEC: i128 = 1_000_000_000;

/// An instant: whole seconds since 1970-01-01T00:00:00Z and the nanoseconds
/// past that second (a leap second shows as `nanos` of a billion or more).
#[derive(Debug, Clone, Copy, PartialEq, Eq, Structural)]
pub struct Instant {
    pub secs: i64,
    pub nanos: u32,
}

impl Instant {
    /// The instant as a single count of nanoseconds since the epoch.
    pub open spec fn total_nanos(self) -> int {
        self.secs * 1_000_000_000 + self.nanos
    }

    /// Strict chronological order: by seconds, then by the sub-second part.
    pub open spec fn precedes(self, other: Instant) -> bool {
        self.secs < other.secs || (self.secs == other.secs && self.nanos < other.nanos)
    }
}

/// The whole seconds in a span of `d` nanoseconds, truncated toward zero.
pub open spec fn whole_seconds(d: int) -> int {
    if d >= 0 {
        d / 1_000_000_000
    } else {
        -((-d) / 1_000_000_000)
    }
}

/// Whole seconds from `earlier` to `later` (negative when `later` comes first).
pub open spec fn seconds_between(later: Instant, earlier: Instant) -> int {
    whole_seconds(later.total_nanos() - earlier.total_nanos())
}

/// A timestamp read from RFC 3339 text: the instant, then the calendar date
/// (year, month, day) in the offset written in the text.
pub struct ParsedTime {
    pub at: Instant,
    pub year: i32,
    pub month: u32,
    pub day: u32,
}

/// What chrono's `DateTime::parse_from_rfc3339` makes of a text: `None` when
/// it rejects it, else (Unix seconds, sub-second nanoseconds, year, month,
/// day), the date taken in the text's own offset.
pub uninterp spec fn rfc3339_fields(text: Seq<char>) -> Option<(i64, u32, i32, u32, u32)>;

/// The RFC 3339 text that chrono's `DateTime::<Utc>::to_rfc3339` writes for the
/// UTC instant with these Unix seconds and nanoseconds, or `None` where
/// `DateTime::<Utc>::from_timestamp` has no such instant.
pub uninterp spec fn utc_rfc3339(secs: i64, nanos: u32) -> Option<Seq<char>>;

/// The parsed view of a text, as a `ParsedTime`.
pub open spec fn parsed_view(text: Seq<char>) -> Option<(Instant, i32, u32, u32)> {
    match rfc3339_fields(text) {
        Some(f) => Some((Instant { secs: f.0, nanos: f.1 }, f.2, f.3, f.4)),
        None => None,
    }
}

/// The instant an RFC 3339 text stands for, if chrono accepts it.
pub open spec fn rfc3339_instant(text: Seq<char>) -> Option<Instant> {
    match rfc3339_fields(text) {
        Some(f) => Some(Instant { secs: f.0, nanos: f.1 }),
        None => None,
    }
}

/// Calls `chrono::DateTime::parse_from_rfc3339` and reads the Unix timestamp,
/// its sub-second nanoseconds and the calendar date of the result. Trusted:
/// the result is claimed to be `rfc3339_fields` of the text.
#[verifier::external_body]
fn parse_rfc3339_fields(text: &str) -> (r: Option<(i64, u32, i32, u32, u32)>)
    ensures
        r == rfc3339_fields(text@),
{
    match chrono::DateTime::parse_from_rfc3339(text) {
        Ok(t) => Some((t.timestamp(), t.timestamp_subsec_nanos(), t.year(), t.month(), t.day())),
        Err(_) => None,
    }
}

/// Calls `chrono::DateTime::<Utc>::from_timestamp` and writes the result with
/// `to_rfc3339`. Trusted: the result is claimed to be `utc_rfc3339` of the pair.
#[verifier::external_body]
fn format_utc_rfc3339(secs: i64, nanos: u32) -> (r: Option<String>)
    ensures
        match utc_rfc3339(secs, nanos) {
            Some(t) => r matches Some(s) && s@ == t,
            None => r is None,
        },
{
    chrono::DateTime::<chrono::Utc>::from_timestamp(secs, nanos).map(|t| t.to_rfc3339())
}

/// Reads the system clock through `chrono::Utc::now`. Of the value only this
/// is claimed: chrono's `from_timestamp` takes back the timestamp and
/// nanoseconds that its own `DateTime<Utc>` reports, so the instant can be
/// written as RFC 3339 text. The time itself is whatever the clock says.
#[verifier::external_body]
fn read_clock() -> (r: Instant)
    ensures
        utc_rfc3339(r.secs, r.nanos) is Some,
{
    let t = chrono::Utc::now();
    Instant { secs: t.timestamp(), nanos: t.timestamp_subsec_nanos() }
}

/// Parses RFC 3339 text into an instant and its calendar date.
pub(crate) fn parse_rfc3339(text: &str) -> (r: Option<ParsedTime>)
    ensures
        match parsed_view(text@) {
            Some(v) => r matches Some(p) && p.at == v.0 && p.year == v.1 && p.month == v.2
                && p.day == v.3,
            None => r is None,
        },
{
    match parse_rfc3339_fields(text) {
        Some(f) => Some(ParsedTime {
            at: Instant { secs: f.0, nanos: f.1 },
            year: f.2,
            month: f.3,
            day: f.4,
        }),
        None => None,
    }
}

/// The current time, as the system clock has it.
pub(crate) fn now() -> (r: Instant)
    ensures
        utc_rfc3339(r.secs, r.nanos) is Some,
{
    read_clock()
}

/// RFC 3339 text for a UTC instant, if chrono can represent it.
pub(crate) fn instant_to_rfc3339(at: Instant) -> (r: Option<String>)
    ensures
        match utc_rfc3339(at.secs, at.nanos) {
            Some(t) => r matches Some(s) && s@ == t,
            None => r is None,
        },
{
    format_utc_rfc3339(at.secs, at.nanos)
}

/// The current time as RFC 3339 text: chrono's rendering of some instant.
pub fn now_rfc3339() -> (r: String)
    ensures
        exists|at: Instant| utc_rfc3339(at.secs, at.nanos) == Some(r@),
{
    let at = now();
    let text = instant_to_rfc3339(at);
    text.unwrap()
}

/// The RFC 3339 text chrono writes for the Unix epoch.
pub open spec fn epoch_text() -> Seq<char> {
    "1970-01-01T00:00:00+00:00"@
}

/// RFC 3339 text for the Unix epoch.
pub fn epoch_rfc3339() -> (r: String)
    ensures
        r@ == epoch_text(),
{
    String::from_str("1970-01-01T00:00:00+00:00")
}

/// Whole seconds from `earlier` to `later`, truncated toward zero.
pub fn seconds_since(later: Instant, earlier: Instant) -> (r: i128)
    ensures
        r == seconds_between(later, earlier),
{
    let d: i128 = (later.secs as i128 - earlier.secs as i128) * NANOS_PER_SEC + (later.nanos as i128
        - earlier.nanos as i128);
    if d >= 0 {
        d / NANOS_PER_SEC
    } else {
        -((-d) / NANOS_PER_SEC)
    }
}

/// Whether `a` comes strictly before `b`.
pub fn precedes(a: Instant, b: Instant) -> (r: bool)
    ensures
        r == a.precedes(b),
{
    a.secs < b.secs || (a.secs == b.secs && a.nanos < b.nanos)
}

} // verus!
