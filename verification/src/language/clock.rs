//! The local time as `date`, `date_str` and `timeEvents` see it: a moment read from the
//! clock, written out and taken apart by `chrono`.
use vstd::prelude::*;

use std::fmt::Write;

use chrono::{Datelike, Timelike};

use crate::language::externals::{millis_to_next, millis_until, time_map, time_value, TimeUnit};
use crate::language::value::{SValue, Value};

verus! {

/// A moment of local time: seconds and nanoseconds since the Unix epoch, and how far the
/// local time zone is ahead of UTC, in seconds.
#[derive(Clone, Copy, Debug, PartialEq, Eq, Structural)]
pub struct LocalTime {
    pub secs: i64,
    pub nanos: u32,
    pub offset: i32,
}

/// The name of what `chrono` writes for a moment with a `strftime` format, `None` where it
/// refuses the moment or the format.
pub uninterp spec fn formatted_time(secs: i64, nanos: u32, offset: i32, format: Seq<char>) -> Option<Seq<char>>;

/// The name of what `chrono` writes for a moment in the RFC 3339 form, `None` where it refuses
/// the moment.
pub uninterp spec fn rfc3339_time(secs: i64, nanos: u32, offset: i32) -> Option<Seq<char>>;

/// The name of the calendar fields `chrono` gives for a moment: year, month, day, hour,
/// minute, second and the short name of the weekday; `None` where it refuses the moment.
pub uninterp spec fn calendar_fields(secs: i64, nanos: u32, offset: i32) -> Option<
    (i64, u32, u32, u32, u32, u32, Seq<char>),
>;

pub open spec fn opt_text(r: Option<String>) -> Option<Seq<char>> {
    match r {
        Some(s) => Some(s@),
        None => None,
    }
}

/// Calls `DateTime::from_timestamp`, `FixedOffset::east_opt` and `DateTime::with_timezone` to
/// make the moment, and writes it with `DateTime::format`; the text depends on the moment and
/// the format alone. `None` where chrono refuses the moment or the format.
#[verifier::external_body]
fn format_time(t: LocalTime, format: &String) -> (r: Option<String>)
    ensures
        opt_text(r) == formatted_time(t.secs, t.nanos, t.offset, format@),
{
    let offset = chrono::FixedOffset::east_opt(t.offset)?;
    let moment = chrono::DateTime::from_timestamp(t.secs, t.nanos)?.with_timezone(&offset);
    let mut out = String::new();
    match write!(out, "{}", moment.format(format.as_str())) {
        Ok(()) => Some(out),
        Err(_) => None,
    }
}

/// Calls `DateTime::to_rfc3339` on the moment, made as for `format_time`; the text depends
/// on the moment alone.
#[verifier::external_body]
fn rfc3339_of(t: LocalTime) -> (r: Option<String>)
    ensures
        opt_text(r) == rfc3339_time(t.secs, t.nanos, t.offset),
{
    let offset = chrono::FixedOffset::east_opt(t.offset)?;
    let moment = chrono::DateTime::from_timestamp(t.secs, t.nanos)?.with_timezone(&offset);
    Some(moment.to_rfc3339())
}

/// Calls the `Datelike` and `Timelike` getters and `Weekday`'s `Display` on the moment, made
/// as for `format_time`; the fields depend on the moment alone. As chrono documents, a
/// moment it accepts has fewer than two billion nanoseconds, and its minute and second are
/// below 60.
#[verifier::external_body]
fn calendar_of(t: LocalTime) -> (r: Option<(i64, u32, u32, u32, u32, u32, String)>)
    ensures
        match r {
            Some((y, mo, d, h, mi, s, w)) => calendar_fields(t.secs, t.nanos, t.offset) == Some(
                (y, mo, d, h, mi, s, w@),
            ) && t.nanos < 2_000_000_000 && mi < 60 && s < 60,
            None => calendar_fields(t.secs, t.nanos, t.offset) is None,
        },
{
    let offset = chrono::FixedOffset::east_opt(t.offset)?;
    let m = chrono::DateTime::from_timestamp(t.secs, t.nanos)?.with_timezone(&offset);
    Some((m.year() as i64, m.month(), m.day(), m.hour(), m.minute(), m.second(), m.weekday().to_string()))
}

/// The date map of a moment (see `time_map`).
pub open spec fn date_map(t: LocalTime) -> Option<SValue> {
    match calendar_fields(t.secs, t.nanos, t.offset) {
        Some((y, mo, d, h, mi, s, w)) => Some(time_map(y, mo as i64, d as i64, h as i64, mi as i64, s as i64, w)),
        None => None,
    }
}

/// What `date_str` writes for a moment: with the format it is given as a text, else in the
/// RFC 3339 form.
pub open spec fn date_text_of(t: LocalTime, format: SValue) -> Option<Seq<char>> {
    match format {
        SValue::String(f) => formatted_time(t.secs, t.nanos, t.offset, f),
        _ => rfc3339_time(t.secs, t.nanos, t.offset),
    }
}

/// How long `timeEvents` waits after a moment before it fires.
pub open spec fn wait_after(unit: TimeUnit, t: LocalTime) -> Option<int> {
    match calendar_fields(t.secs, t.nanos, t.offset) {
        Some((_, _, _, _, mi, s, _)) => Some(millis_until(unit, mi, s, t.nanos / 1_000_000)),
        None => None,
    }
}

impl LocalTime {
    /// The date map `date` answers for this moment (see `date_map`).
    pub fn date_value(self) -> (r: Option<Value>)
        ensures
            match r {
                Some(v) => date_map(self) == Some(v@),
                None => date_map(self) is None,
            },
    {
        match calendar_of(self) {
            Some((y, mo, d, h, mi, s, w)) => Some(
                time_value(y, mo as i64, d as i64, h as i64, mi as i64, s as i64, w),
            ),
            None => None,
        }
    }

    /// What `date_str` answers for this moment (see `date_text_of`).
    pub fn date_text(self, format: &Value) -> (r: Option<Value>)
        ensures
            match r {
                Some(v) => date_text_of(self, format@) matches Some(s) && v@ == SValue::String(s),
                None => date_text_of(self, format@) is None,
            },
    {
        let text = match format {
            Value::String(f) => format_time(self, f),
            _ => rfc3339_of(self),
        };
        match text {
            Some(s) => Some(Value::String(s)),
            None => None,
        }
    }

    /// How long `timeEvents` waits after this moment before it fires (see `wait_after`).
    pub fn wait_for(self, unit: TimeUnit) -> (r: Option<u32>)
        ensures
            match r {
                Some(w) => wait_after(unit, self) == Some(w as int),
                None => wait_after(unit, self) is None,
            },
    {
        match calendar_of(self) {
            Some((_, _, _, _, minute, second, _)) => Some(millis_to_next(unit, minute, second, self.nanos / 1_000_000)),
            None => None,
        }
    }
}

} // verus!
