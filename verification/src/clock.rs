//! Points in time as UTC timestamps, read from and formatted by `chrono`.
use vstd::prelude::*;

verus! {

/// Earliest second of the range kept here (January 2 of year -262143, one
/// day after the earliest that `chrono::DateTime<Utc>` can represent).
pub const MIN_TIMESTAMP_SECS: i64 = -8_334_601_228_800i64;

/// Latest second `chrono::DateTime<Utc>` can represent (December 31 of year
/// 262142, 23:59:59).
pub const MAX_TIMESTAMP_SECS: i64 = 8_210_266_876_799i64;

/// A point in time: seconds since the Unix epoch (UTC) and the nanoseconds
/// within that second, inside the range `chrono` represents.
#[derive(Debug, Clone, Copy, PartialEq, Eq, Structural)]
pub struct Timestamp {
    secs: i64,
    nanos: u32,
}

impl View for Timestamp {
    /// `(seconds since the epoch, nanoseconds within the second)`
    type V = (i64, u32);

    closed spec fn view(&self) -> (i64, u32) {
        (self.secs, self.nanos)
    }
}

/// A representable timestamp: inside `chrono`'s range, with a sub-second part
/// below one second.
pub open spec fn representable(secs: i64, nanos: u32) -> bool {
    MIN_TIMESTAMP_SECS <= secs <= MAX_TIMESTAMP_SECS && nanos < 1_000_000_000
}

/// `a` lies strictly after `b`.
pub open spec fn later_than(a: (i64, u32), b: (i64, u32)) -> bool {
    a.0 > b.0 || (a.0 == b.0 && a.1 > b.1)
}

/// The RFC 3339 text `chrono` writes for the UTC instant (`to_rfc3339`).
pub uninterp spec fn rfc3339_text(secs: i64, nanos: u32) -> Seq<char>;

/// The text `chrono` writes for the instant in the time zone `offset_secs`
/// east of UTC, with the strftime pattern `pattern`.
pub uninterp spec fn local_time_text(secs: i64, nanos: u32, offset_secs: i32, pattern: Seq<char>) -> Seq<char>;

/// The pattern of session folder names: `YYYYMMDD_HHMMSS`.
pub open spec fn compact_pattern() -> Seq<char> {
    "%Y%m%d_%H%M%S"@
}

/// First second, in local time, of year 0 (0000-01-01T00:00:00).
pub const FIRST_FOUR_DIGIT_YEAR_SECS: i64 = -62_167_219_200i64;

/// Last second, in local time, of year 9999 (9999-12-31T23:59:59).
pub const LAST_FOUR_DIGIT_YEAR_SECS: i64 = 253_402_300_799i64;

/// The instant falls, in the time zone `offset_secs` east of UTC, in one of
/// the years 0 through 9999.
pub open spec fn four_digit_local_year(secs: i64, offset_secs: i32) -> bool {
    FIRST_FOUR_DIGIT_YEAR_SECS <= secs + offset_secs <= LAST_FOUR_DIGIT_YEAR_SECS
}

/// The shape of a `YYYYMMDD_HHMMSS` text: fifteen characters, ASCII digits
/// but for `_` in the ninth.
pub open spec fn compact_shape(t: Seq<char>) -> bool {
    &&& t.len() == 15
    &&& t[8] == '_'
    &&& forall|i: int| 0 <= i < 15 && i != 8 ==> '0' <= #[trigger] t[i] <= '9'
}

/// Japan Standard Time is nine hours east of UTC.
pub const JST_OFFSET_SECS: i32 = 32400i32;

impl Timestamp {
    #[verifier::type_invariant]
    closed spec fn inv(self) -> bool {
        representable(self.secs, self.nanos)
    }

    /// The timestamp with these parts, when it is representable.
    pub fn from_parts(secs: i64, nanos: u32) -> (r: Option<Timestamp>)
        ensures
            r is Some <==> representable(secs, nanos),
            r matches Some(t) ==> t@ == (secs, nanos),
    {
        if MIN_TIMESTAMP_SECS <= secs && secs <= MAX_TIMESTAMP_SECS && nanos < 1_000_000_000 {
            Some(Timestamp { secs, nanos })
        } else {
            None
        }
    }

    /// Seconds since the Unix epoch.
    pub fn secs(&self) -> (s: i64)
        ensures
            s == self@.0,
            representable(self@.0, self@.1),
    {
        proof {
            use_type_invariant(self);
        }
        self.secs
    }

    /// Nanoseconds within the second.
    pub fn subsec_nanos(&self) -> (n: u32)
        ensures
            n == self@.1,
    {
        self.nanos
    }

    /// Whether `self` lies strictly after `other`.
    pub fn is_after(&self, other: &Timestamp) -> (b: bool)
        ensures
            b == later_than(self@, other@),
    {
        self.secs > other.secs || (self.secs == other.secs && self.nanos > other.nanos)
    }

    /// RFC 3339 text of the instant (`DateTime::<Utc>::to_rfc3339`), e.g.
    /// `2024-11-28T01:37:00+00:00`.
    pub fn to_rfc3339(&self) -> (s: String)
        ensures
            s@ == rfc3339_text(self@.0, self@.1),
    {
        proof {
            use_type_invariant(self);
        }
        format_rfc3339(self.secs, self.nanos)
    }

    /// `YYYYMMDD_HHMMSS` of the instant in Japan Standard Time.
    pub fn to_jst_compact(&self) -> (s: String)
        ensures
            s@ == local_time_text(self@.0, self@.1, JST_OFFSET_SECS, compact_pattern()),
            four_digit_local_year(self@.0, JST_OFFSET_SECS) ==> compact_shape(s@),
    {
        proof {
            use_type_invariant(self);
        }
        format_local(self.secs, self.nanos, JST_OFFSET_SECS, "%Y%m%d_%H%M%S")
    }
}

/// The current time (`chrono::Utc::now`). Nothing is promised of the value
/// beyond what every `Timestamp` satisfies: `chrono` builds it with
/// `DateTime::from_timestamp` from the system clock's seconds and sub-second
/// nanoseconds (below one second), so it lies in the representable range.
/// (`Utc::now` panics when the system clock reads before 1970.)
#[verifier::external_body]
pub(crate) fn now() -> (t: Timestamp)
{
    let t = chrono::Utc::now();
    Timestamp { secs: t.timestamp(), nanos: t.timestamp_subsec_nanos() }
}

/// `chrono::DateTime::from_timestamp(secs, nanos)` followed by `to_rfc3339`.
/// The text is named by `rfc3339_text`; `from_timestamp` succeeds on every
/// representable input, which `requires` demands.
#[verifier::external_body]
fn format_rfc3339(secs: i64, nanos: u32) -> (s: String)
    requires
        representable(secs, nanos),
    ensures
        s@ == rfc3339_text(secs, nanos),
{
    match chrono::DateTime::from_timestamp(secs, nanos) {
        Some(d) => d.to_rfc3339(),
        None => String::new(),
    }
}

/// The instant shifted into `chrono::FixedOffset::east_opt(offset_secs)` and
/// formatted with `format(pattern)`. The text is named by `local_time_text`.
/// `east_opt` accepts offsets below one day; `requires` pins the pattern to
/// the one the library uses, which `chrono` formats without error. For a local
/// year from 0 to 9999 the text has the `YYYYMMDD_HHMMSS` shape: `%Y` writes
/// such a year as four zero-padded digits, and `%m`, `%d`, `%H`, `%M` and `%S`
/// write two zero-padded digits each (the seconds stay below 60, since the
/// sub-second part is below one second).
#[verifier::external_body]
fn format_local(secs: i64, nanos: u32, offset_secs: i32, pattern: &str) -> (s: String)
    requires
        representable(secs, nanos),
        -86_400 < offset_secs < 86_400,
        pattern@ == compact_pattern(),
    ensures
        s@ == local_time_text(secs, nanos, offset_secs, pattern@),
        four_digit_local_year(secs, offset_secs) ==> compact_shape(s@),
{
    match (chrono::DateTime::from_timestamp(secs, nanos), chrono::FixedOffset::east_opt(offset_secs)) {
        (Some(d), Some(tz)) => d.with_timezone(&tz).format(pattern).to_string(),
        _ => String::new(),
    }
}

} // verus!
