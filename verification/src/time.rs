//! Instants and calendar dates as plain values. Rendering them as text and
//! measuring the distance between two instants is left to `chrono`.

use chrono::Datelike;
use vstd::prelude::*;
use crate::text::dec_padded;

verus! {

/// An instant: seconds and nanoseconds since the Unix epoch, together with the
/// UTC offset (in seconds) of the local clock that recorded it.
#[derive(Clone, Copy, Debug, PartialEq, Eq, Structural)]
pub struct Timestamp {
    pub unix_seconds: i64,
    pub nanos: u32,
    pub offset_seconds: i32,
}

/// A calendar date, counted in days from the proleptic Gregorian 0001-01-01
/// (which is day 1).
#[derive(Clone, Copy, Debug, PartialEq, Eq, Structural)]
pub struct CaseDate {
    pub days_from_ce: i32,
}

/// What `chrono` renders for the instant with the given offset and format
/// pattern, or `None` when `chrono` cannot represent the instant or offset.
pub uninterp spec fn instant_text(
    unix_seconds: i64,
    nanos: u32,
    offset_seconds: i32,
    pattern: Seq<char>,
) -> Option<Seq<char>>;


/// Leap years of the proleptic Gregorian calendar.
pub open spec fn is_leap_year(y: int) -> bool {
    y % 4 == 0 && (y % 100 != 0 || y % 400 == 0)
}

pub open spec fn days_in_month(y: int, m: int) -> int {
    if m == 2 {
        if is_leap_year(y) { 29 } else { 28 }
    } else if m == 4 || m == 6 || m == 9 || m == 11 {
        30
    } else {
        31
    }
}

pub open spec fn days_before_month(y: int, m: int) -> int
    decreases m,
{
    if m <= 1 { 0 } else { days_before_month(y, m - 1) + days_in_month(y, m - 1) }
}

/// The day count of a date in the proleptic Gregorian calendar, 0001-01-01 being day 1.
pub open spec fn days_from_ce(y: int, m: int, d: int) -> int {
    let p = y - 1;
    365 * p + p / 4 - p / 100 + p / 400 + days_before_month(y, m) + d
}

/// The year as `chrono` writes it in a date: four digits within 0 to 9999, otherwise a
/// sign and at least four digits.
pub open spec fn year_text(y: int) -> Seq<char> {
    if 0 <= y <= 9999 {
        dec_padded(y as nat, 4)
    } else if y < 0 {
        seq!['-'] + dec_padded((-y) as nat, 4)
    } else {
        seq!['+'] + dec_padded(y as nat, 4)
    }
}

/// What `chrono` renders for a day count: the date (`YYYY-MM-DD`) whose day count it is,
/// or `None` when no date in `chrono`'s range has it.
pub open spec fn date_text(days_from_ce: i32) -> Option<Seq<char>> {
    if exists|y: i32, m: u32, d: u32| ymd_days(y, m, d) == Some(days_from_ce) {
        let (y, m, d) = choose|y: i32, m: u32, d: u32| ymd_days(y, m, d) == Some(days_from_ce);
        Some(year_text(y as int) + seq!['-'] + dec_padded(m as nat, 2) + seq!['-'] + dec_padded(d as nat, 2))
    } else {
        None
    }
}

/// The day count `chrono` gives a calendar date: `None` when the month or day does not
/// exist or the year is outside `chrono`'s range (-262143 to 262142).
pub open spec fn ymd_days(year: i32, month: u32, day: u32) -> Option<i32> {
    if -262_143 <= year <= 262_142 && 1 <= month <= 12 && 1 <= day <= days_in_month(year as int, month as int) {
        Some(days_from_ce(year as int, month as int, day as int) as i32)
    } else {
        None
    }
}

/// The day count of the date `chrono` parses from `text` with `pattern`, if it parses.
pub uninterp spec fn parsed_date(text: Seq<char>, pattern: Seq<char>) -> Option<i32>;

/// The whole seconds (truncated toward zero) that `chrono` measures from the second
/// instant to the first, or `None` when either instant is out of its range. `chrono`
/// counts a leap second (a sub-second part of one second or more) as lasting until the
/// next second of the day begins.
pub open spec fn seconds_between(end_seconds: i64, end_nanos: u32, start_seconds: i64, start_nanos: u32) -> Option<i64> {
    if valid_instant(end_seconds as int, end_nanos as int) && valid_instant(start_seconds as int, start_nanos as int) {
        let end_of_day = end_seconds % 86_400;
        let start_of_day = start_seconds % 86_400;
        let leap = if end_of_day > start_of_day && start_nanos >= 1_000_000_000 {
            1int
        } else if end_of_day < start_of_day && end_nanos >= 1_000_000_000 {
            -1int
        } else {
            0int
        };
        let frac = end_nanos - start_nanos;
        let whole = end_seconds - start_seconds + leap + frac / 1_000_000_000;
        let rest = frac % 1_000_000_000;
        Some((if whole < 0 && rest > 0 { whole + 1 } else { whole }) as i64)
    } else {
        None
    }
}

/// The day counts of `chrono`'s dates: from -262143-01-01 to 262142-12-31.
pub open spec fn day_in_range(days: int) -> bool {
    days_from_ce(-262_143, 1, 1) <= days <= days_from_ce(262_142, 12, 31)
}

/// The day count of the UTC date of `unix_seconds` after shifting it by `shift` seconds
/// (1970-01-01 is day 719163).
pub open spec fn shifted_day(unix_seconds: int, shift: int) -> int {
    (unix_seconds + shift) / 86_400 + 719_163
}

/// An instant `chrono`'s `DateTime::from_timestamp` accepts: its UTC date is in range, the
/// sub-second part is below two seconds, and at or above one second (a leap second) only
/// in the last second of a minute.
pub open spec fn valid_instant(unix_seconds: int, nanos: int) -> bool {
    &&& day_in_range(shifted_day(unix_seconds, 0))
    &&& nanos < 2_000_000_000
    &&& (nanos >= 1_000_000_000 ==> unix_seconds % 60 == 59)
}

/// The day count of the calendar date that `chrono` gives the instant in its own UTC
/// offset: `None` when the instant or the offset (which must lie strictly within a day)
/// is not representable, or the local date falls outside `chrono`'s range.
pub open spec fn local_date_days(unix_seconds: i64, nanos: u32, offset_seconds: i32) -> Option<i32> {
    if valid_instant(unix_seconds as int, nanos as int) && -86_400 < offset_seconds < 86_400 && day_in_range(
        shifted_day(unix_seconds as int, offset_seconds as int),
    ) {
        Some(shifted_day(unix_seconds as int, offset_seconds as int) as i32)
    } else {
        None
    }
}

/// What holds of every reading of the local clock: the sub-second part is below two
/// seconds (leap seconds included) and the UTC offset is strictly within one day.
pub open spec fn valid_clock_reading(t: Timestamp) -> bool {
    &&& t.nanos < 2_000_000_000
    &&& -86_400 < t.offset_seconds < 86_400
}

pub open spec fn opt_string_view(o: Option<String>) -> Option<Seq<char>> {
    match o {
        Some(s) => Some(s@),
        None => None,
    }
}

/// The pattern used for every instant shown in a report.
pub const TIMESTAMP_PATTERN: &'static str = "%Y-%m-%d %H:%M:%S %:z";

/// The pattern of the live scan log's own lines.
pub const CLOCK_PATTERN: &'static str = "%H:%M:%S";

/// The pattern of the live scan log's observation lines, with milliseconds.
pub const CLOCK_MILLIS_PATTERN: &'static str = "%H:%M:%S%.3f";

/// The format patterns the library renders instants with, all of which `chrono` accepts.
pub open spec fn known_pattern(pattern: Seq<char>) -> bool {
    pattern == TIMESTAMP_PATTERN@ || pattern == CLOCK_PATTERN@ || pattern == CLOCK_MILLIS_PATTERN@
}

/// Renders an instant through `chrono`: `DateTime::from_timestamp` and
/// `FixedOffset::east_opt` build the local date-time, `format(pattern)` renders
/// it. Only patterns that `chrono` accepts are passed (rendering an invalid one
/// panics). The contract claims only that the result is the named rendering of
/// exactly these arguments.
#[verifier::external_body]
fn chrono_format_instant(unix_seconds: i64, nanos: u32, offset_seconds: i32, pattern: &str) -> (r:
    Option<String>)
    requires
        known_pattern(pattern@),
    ensures
        opt_string_view(r) == instant_text(unix_seconds, nanos, offset_seconds, pattern@),
{
    match (
        chrono::DateTime::from_timestamp(unix_seconds, nanos),
        chrono::FixedOffset::east_opt(offset_seconds),
    ) {
        (Some(utc), Some(offset)) => Some(utc.with_timezone(&offset).format(pattern).to_string()),
        _ => None,
    }
}

/// Renders a date through `chrono`'s `NaiveDate::from_num_days_from_ce_opt` and its
/// `Display`: the date whose day count is the argument, its year as `year_text` writes it
/// and month and day as two digits; `None` when no date in `chrono`'s range has that count.
#[verifier::external_body]
fn chrono_format_date(days_from_ce: i32) -> (r: Option<String>)
    ensures
        opt_string_view(r) == date_text(days_from_ce),
{
    chrono::NaiveDate::from_num_days_from_ce_opt(days_from_ce).map(|d| d.to_string())
}

/// `chrono::NaiveDate::from_ymd_opt` followed by `num_days_from_ce`: the date exists for
/// a month 1 to 12, a day within that month and a year within `chrono`'s range, and
/// counts days from 0001-01-01 (day 1) in the proleptic Gregorian calendar.
#[verifier::external_body]
fn chrono_ymd_days(year: i32, month: u32, day: u32) -> (r: Option<i32>)
    ensures
        r == ymd_days(year, month, day),
{
    chrono::NaiveDate::from_ymd_opt(year, month, day).map(|d| d.num_days_from_ce())
}

/// `chrono::NaiveDate::parse_from_str` followed by `num_days_from_ce`.
#[verifier::external_body]
fn chrono_parse_date(text: &str, pattern: &str) -> (r: Option<i32>)
    ensures
        r == parsed_date(text@, pattern@),
{
    chrono::NaiveDate::parse_from_str(text, pattern).ok().map(|d| d.num_days_from_ce())
}

/// Subtracts two `chrono::DateTime<Utc>` built with `DateTime::from_timestamp` and
/// takes `TimeDelta::num_seconds` of the difference: the contract (`seconds_between`)
/// follows `NaiveDateTime::signed_duration_since`, its leap-second adjustment included,
/// and the truncation toward zero of `num_seconds`.
#[verifier::external_body]
fn chrono_seconds_between(end_seconds: i64, end_nanos: u32, start_seconds: i64, start_nanos: u32)
    -> (r: Option<i64>)
    ensures
        r == seconds_between(end_seconds, end_nanos, start_seconds, start_nanos),
{
    match (
        chrono::DateTime::from_timestamp(end_seconds, end_nanos),
        chrono::DateTime::from_timestamp(start_seconds, start_nanos),
    ) {
        (Some(end), Some(start)) => Some((end - start).num_seconds()),
        _ => None,
    }
}

/// Builds the instant with `DateTime::from_timestamp` and `FixedOffset::east_opt`, shifts
/// its UTC date-time by the offset with `NaiveDateTime::checked_add_offset` (which gives
/// nothing where the local date-time leaves `chrono`'s range), then takes
/// `date().num_days_from_ce()`. The contract claims what `chrono`'s source does: the local
/// day is the floor of (seconds + offset) / 86400 days after 1970-01-01, when the instant,
/// the offset and both the UTC and the local date are representable (`local_date_days`).
#[verifier::external_body]
fn chrono_local_date(unix_seconds: i64, nanos: u32, offset_seconds: i32) -> (r: Option<i32>)
    ensures
        r == local_date_days(unix_seconds, nanos, offset_seconds),
{
    match (
        chrono::DateTime::from_timestamp(unix_seconds, nanos),
        chrono::FixedOffset::east_opt(offset_seconds),
    ) {
        (Some(utc), Some(offset)) => {
            utc.naive_utc().checked_add_offset(offset).map(|local| local.date().num_days_from_ce())
        },
        _ => None,
    }
}

/// Reads the local clock through `chrono::Local::now`: its Unix seconds,
/// sub-second nanoseconds and current UTC offset. Which instant it reads is not claimed;
/// only what `chrono` guarantees of every value: the sub-second part is below two
/// seconds (it exceeds 999,999,999 only within a leap second), and the offset, a
/// `FixedOffset`, lies strictly within one day either way.
#[verifier::external_body]
fn chrono_local_now() -> (t: Timestamp)
    ensures
        valid_clock_reading(t),
{
    let now = chrono::Local::now();
    Timestamp {
        unix_seconds: now.timestamp(),
        nanos: now.timestamp_subsec_nanos(),
        offset_seconds: now.offset().local_minus_utc(),
    }
}

impl Timestamp {
    /// The current local time: which instant is not claimed, only that it is a reading
    /// `chrono` can produce.
    pub fn now() -> (t: Timestamp)
        ensures
            valid_clock_reading(t),
    {
        chrono_local_now()
    }

    /// Ordering of instants: by Unix seconds, then by nanoseconds.
    pub open spec fn spec_later_than(self, other: Timestamp) -> bool {
        self.unix_seconds > other.unix_seconds || (self.unix_seconds == other.unix_seconds
            && self.nanos > other.nanos)
    }

    pub fn later_than(&self, other: &Timestamp) -> (b: bool)
        ensures
            b == self.spec_later_than(*other),
    {
        self.unix_seconds > other.unix_seconds || (self.unix_seconds == other.unix_seconds
            && self.nanos > other.nanos)
    }

    /// The report's rendering of this instant (`YYYY-MM-DD HH:MM:SS +hh:mm`).
    pub open spec fn text(self) -> Seq<char> {
        match instant_text(self.unix_seconds, self.nanos, self.offset_seconds, TIMESTAMP_PATTERN@) {
            Some(t) => t,
            None => Seq::empty(),
        }
    }

    /// Renders the instant for a report; empty when `chrono` cannot represent it.
    pub fn format(&self) -> (s: String)
        ensures
            s@ == self.text(),
    {
        match chrono_format_instant(self.unix_seconds, self.nanos, self.offset_seconds, TIMESTAMP_PATTERN) {
            Some(s) => s,
            None => String::new(),
        }
    }

    /// The instant rendered with a `chrono` format pattern; empty when `chrono` cannot
    /// represent it.
    pub open spec fn text_with(self, pattern: Seq<char>) -> Seq<char> {
        match instant_text(self.unix_seconds, self.nanos, self.offset_seconds, pattern) {
            Some(t) => t,
            None => Seq::empty(),
        }
    }

    pub fn format_with(&self, pattern: &str) -> (s: String)
        requires
            known_pattern(pattern@),
        ensures
            s@ == self.text_with(pattern@),
    {
        match chrono_format_instant(self.unix_seconds, self.nanos, self.offset_seconds, pattern) {
            Some(s) => s,
            None => String::new(),
        }
    }

    /// The calendar date of the instant in its own UTC offset.
    pub fn local_date(&self) -> (r: Option<CaseDate>)
        ensures
            r == (match local_date_days(self.unix_seconds, self.nanos, self.offset_seconds) {
                Some(d) => Some(CaseDate { days_from_ce: d }),
                None => None,
            }),
    {
        match chrono_local_date(self.unix_seconds, self.nanos, self.offset_seconds) {
            Some(d) => Some(CaseDate { days_from_ce: d }),
            None => None,
        }
    }

    /// Whole seconds from `start` to `self`, as `chrono` measures them.
    pub fn seconds_since(&self, start: &Timestamp) -> (r: Option<i64>)
        ensures
            r == seconds_between(self.unix_seconds, self.nanos, start.unix_seconds, start.nanos),
    {
        chrono_seconds_between(self.unix_seconds, self.nanos, start.unix_seconds, start.nanos)
    }
}

impl CaseDate {
    /// The date with the given year, month and day, if it exists.
    pub fn from_ymd(year: i32, month: u32, day: u32) -> (r: Option<CaseDate>)
        ensures
            r == (match ymd_days(year, month, day) {
                Some(d) => Some(CaseDate { days_from_ce: d }),
                None => None,
            }),
    {
        match chrono_ymd_days(year, month, day) {
            Some(d) => Some(CaseDate { days_from_ce: d }),
            None => None,
        }
    }

    /// Parses a `YYYY-MM-DD` date.
    pub fn parse(text: &str) -> (r: Option<CaseDate>)
        ensures
            r == (match parsed_date(text@, "%Y-%m-%d"@) {
                Some(d) => Some(CaseDate { days_from_ce: d }),
                None => None,
            }),
    {
        match chrono_parse_date(text, "%Y-%m-%d") {
            Some(d) => Some(CaseDate { days_from_ce: d }),
            None => None,
        }
    }

    pub open spec fn text(self) -> Seq<char> {
        match date_text(self.days_from_ce) {
            Some(t) => t,
            None => Seq::empty(),
        }
    }

    /// Renders the date as `YYYY-MM-DD`; empty when out of `chrono`'s range.
    pub fn format(&self) -> (s: String)
        ensures
            s@ == self.text(),
    {
        match chrono_format_date(self.days_from_ce) {
            Some(s) => s,
            None => String::new(),
        }
    }
}

} // verus!
