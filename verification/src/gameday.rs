//! Event times and the game day they fall on: a day that starts at a configured hour rather
//! than at midnight.
use vstd::prelude::*;
use vstd::string::*;
use chrono::{Datelike, Offset, TimeZone, Timelike};
use crate::numtext::{parse_i64_text, spec_parse_i64};
use crate::rules::spec_opt_text;
use crate::text::{spec_trim, trim_text};

verus! {

/// A wall-clock date and time, without a time zone.
#[derive(Clone, Copy, Debug, PartialEq, Eq)]
pub struct LocalDateTime {
    pub year: i32,
    pub month: u32,
    pub day: u32,
    pub hour: u32,
    pub minute: u32,
    pub second: u32,
    pub nanosecond: u32,
}

/// A date and time with the offset from UTC it was written in.
#[derive(Clone, Copy, Debug, PartialEq, Eq)]
pub struct EventTime {
    pub local: LocalDateTime,
    pub offset_seconds: i32,
}

/// What `DateTime::parse_from_rfc3339` reads from a text, as wall-clock fields and offset.
pub uninterp spec fn rfc3339_reading(s: Seq<char>) -> Option<EventTime>;

/// What `NaiveDateTime::parse_from_str` reads from a text with a format.
pub uninterp spec fn naive_reading(s: Seq<char>, pattern: Seq<char>) -> Option<LocalDateTime>;

/// The `%Y-%m-%d` date of a time moved back by some hours, as chrono computes it; none
/// where the fields are no valid time or the result leaves chrono's range.
pub uninterp spec fn day_after_shift(t: EventTime, hours: int) -> Option<Seq<char>>;

/// `DateTime::parse_from_rfc3339`: the result, read into plain fields, is a function of the
/// text alone (named `rfc3339_reading`).
#[verifier::external_body]
fn read_rfc3339(input: &str) -> (r: Option<EventTime>)
    ensures
        r == rfc3339_reading(input@),
{
    let dt = chrono::DateTime::parse_from_rfc3339(input).ok()?;
    let n = dt.naive_local();
    Some(EventTime {
        local: LocalDateTime {
            year: n.year(), month: n.month(), day: n.day(),
            hour: n.hour(), minute: n.minute(), second: n.second(), nanosecond: n.nanosecond(),
        },
        offset_seconds: dt.offset().fix().local_minus_utc(),
    })
}

/// `NaiveDateTime::parse_from_str`: the result, read into plain fields, is a function of the
/// text and the format alone (named `naive_reading`).
#[verifier::external_body]
fn read_naive(input: &str, pattern: &str) -> (r: Option<LocalDateTime>)
    ensures
        r == naive_reading(input@, pattern@),
{
    let n = chrono::NaiveDateTime::parse_from_str(input, pattern).ok()?;
    Some(LocalDateTime {
        year: n.year(), month: n.month(), day: n.day(),
        hour: n.hour(), minute: n.minute(), second: n.second(), nanosecond: n.nanosecond(),
    })
}

/// `Local.from_local_datetime`, the single reading or else the earliest one (`earliest`
/// gives the single one where there is one): the offset
/// depends on the machine's time zone, so only that the wall-clock fields are kept is
/// promised.
#[verifier::external_body]
fn resolve_local(n: &LocalDateTime) -> (r: Option<EventTime>)
    ensures
        r matches Some(t) ==> t.local == *n,
{
    let date = chrono::NaiveDate::from_ymd_opt(n.year, n.month, n.day)?;
    let naive = date.and_hms_nano_opt(n.hour, n.minute, n.second, n.nanosecond)?;
    let dt = chrono::Local.from_local_datetime(&naive).earliest()?;
    Some(EventTime { local: *n, offset_seconds: dt.offset().fix().local_minus_utc() })
}

/// `DateTime - TimeDelta::hours` formatted with `%Y-%m-%d`, with the checked forms of the
/// constructors and the subtraction: a function of the fields and hours alone (named
/// `day_after_shift`).
#[verifier::external_body]
fn shift_and_format_day(t: &EventTime, hours: i64) -> (r: Option<String>)
    ensures
        spec_opt_text(r) == day_after_shift(*t, hours as int),
{
    let date = chrono::NaiveDate::from_ymd_opt(t.local.year, t.local.month, t.local.day)?;
    let naive = date.and_hms_nano_opt(t.local.hour, t.local.minute, t.local.second, t.local.nanosecond)?;
    let offset = chrono::FixedOffset::east_opt(t.offset_seconds)?;
    let dt = offset.from_local_datetime(&naive).single()?;
    let shifted = dt.checked_sub_signed(chrono::TimeDelta::try_hours(hours)?)?;
    Some(shifted.format("%Y-%m-%d").to_string())
}

/// The formats without an offset that an event time may also be written in, in the order
/// they are tried.
pub open spec fn spec_naive_patterns() -> Seq<Seq<char>> {
    seq!["%Y-%m-%dT%H:%M:%S"@, "%Y-%m-%dT%H:%M"@, "%Y-%m-%d %H:%M:%S"@, "%Y-%m-%d %H:%M"@]
}

/// The first of the formats from position `i` on that reads the text.
pub open spec fn spec_first_naive(s: Seq<char>, i: int) -> Option<LocalDateTime>
    decreases 4 - i,
{
    if i >= 4 || i < 0 {
        None
    } else {
        match naive_reading(s, spec_naive_patterns()[i]) {
            Some(n) => Some(n),
            None => spec_first_naive(s, i + 1),
        }
    }
}

fn naive_pattern(i: usize) -> (r: &'static str)
    requires
        i < 4,
    ensures
        r@ == spec_naive_patterns()[i as int],
{
    if i == 0 {
        "%Y-%m-%dT%H:%M:%S"
    } else if i == 1 {
        "%Y-%m-%dT%H:%M"
    } else if i == 2 {
        "%Y-%m-%d %H:%M:%S"
    } else {
        "%Y-%m-%d %H:%M"
    }
}

/// Reads an event time: RFC 3339 first; else the first of four offset-free formats, taken
/// in the machine's time zone (`failed to resolve local datetime` where that time does not
/// exist there); else `unsupported event_time format: <input>`.
pub fn parse_event_time(input: &str) -> (r: Result<EventTime, String>)
    ensures
        match rfc3339_reading(input@) {
            Some(t) => r == Ok::<EventTime, String>(t),
            None => match spec_first_naive(input@, 0) {
                Some(n) => match r {
                    Ok(t) => t.local == n,
                    Err(e) => e@ == "failed to resolve local datetime"@,
                },
                None => r.is_err() && r->Err_0@ == "unsupported event_time format: "@ + input@,
            },
        },
{
    match read_rfc3339(input) {
        Some(t) => {
            return Ok(t);
        },
        None => {},
    }
    let mut i: usize = 0;
    while i < 4
        invariant
            i <= 4,
            rfc3339_reading(input@).is_none(),
            spec_first_naive(input@, 0) == spec_first_naive(input@, i as int),
        decreases 4 - i,
    {
        match read_naive(input, naive_pattern(i)) {
            Some(n) => {
                return match resolve_local(&n) {
                    Some(t) => Ok(t),
                    None => Err("failed to resolve local datetime".to_owned()),
                };
            },
            None => {},
        }
        i = i + 1;
    }
    let mut m = "unsupported event_time format: ".to_owned();
    m.append(input);
    Err(m)
}

/// The game day of an event time: the time moved back by `boundary_hour` hours, as a
/// `%Y-%m-%d` date. Where the time cannot be read, its error; where the moved time leaves
/// the range of dates that chrono can hold, `event_time out of range: <input>`.
pub fn compute_game_day(event_time: &str, boundary_hour: i64) -> (r: Result<String, String>)
    ensures
        match rfc3339_reading(event_time@) {
            Some(t) => match day_after_shift(t, boundary_hour as int) {
                Some(d) => r.is_ok() && r->Ok_0@ == d,
                None => r.is_err() && r->Err_0@ == "event_time out of range: "@ + event_time@,
            },
            None => match spec_first_naive(event_time@, 0) {
                Some(n) => match r {
                    Ok(d) => exists|t: EventTime| t.local == n && day_after_shift(t, boundary_hour as int) == Some(d@),
                    Err(e) => e@ == "failed to resolve local datetime"@ || e@ == "event_time out of range: "@
                        + event_time@,
                },
                None => r.is_err() && r->Err_0@ == "unsupported event_time format: "@ + event_time@,
            },
        },
{
    let t = match parse_event_time(event_time) {
        Ok(t) => t,
        Err(e) => {
            return Err(e);
        },
    };
    match shift_and_format_day(&t, boundary_hour) {
        Some(d) => Ok(d),
        None => {
            let mut m = "event_time out of range: ".to_owned();
            m.append(event_time);
            Err(m)
        },
    }
}

/// The hour at which a game day starts when no setting says otherwise.
pub const DEFAULT_DAY_BOUNDARY_HOUR: i64 = 4;

/// A numeric setting: the stored text read as an `i64`, else the default.
pub fn setting_i64_or(stored: Option<&str>, default: i64) -> (r: i64)
    ensures
        r == (match stored {
            Some(s) => match spec_parse_i64(s@) {
                Ok(v) => v as i64,
                Err(_) => default,
            },
            None => default,
        }),
{
    match stored {
        Some(s) => match parse_i64_text(s) {
            Ok(v) => v,
            Err(_) => default,
        },
        None => default,
    }
}

/// The game day asked for, trimmed, when one is given and is not blank; otherwise the
/// caller takes the latest stored one.
pub fn requested_game_day(game_day: Option<&str>) -> (r: Option<String>)
    ensures
        spec_opt_text(r) == (match game_day {
            Some(g) => if spec_trim(g@).len() == 0 { None } else { Some(spec_trim(g@)) },
            None => None,
        }),
{
    match game_day {
        Some(g) => {
            let t = trim_text(g);
            if t.unicode_len() == 0 {
                None
            } else {
                Some(t)
            }
        },
        None => None,
    }
}

} // verus!
