//! Time stamps as text. A time is given in whole seconds since the Unix
//! epoch; the calendar is left to the `chrono` crates.

use crate::alerts::{alert_log_line, log_line};
use crate::tone::{nwr_tone_header_for_recording, tone_header};
use vstd::prelude::*;

verus! {

/// The last second that is put into words: the end of the year 9999.
pub const LAST_STAMP_SECS: i64 = 253402300799;

/// Day of the year, hour and minute of a time, in UTC, as seven digits;
/// nothing for a time that the calendar does not reach.
pub uninterp spec fn julian_stamp_of(unix_secs: int) -> Option<Seq<char>>;

/// Date and time of day of a time in a time zone, in the form of the alert
/// log; nothing for a time zone that is not known.
pub uninterp spec fn received_stamp_of(unix_secs: int, zone: Seq<char>) -> Option<Seq<char>>;

/// Whether a time can be put into words.
pub open spec fn in_calendar(unix_secs: i64) -> bool {
    0 <= unix_secs <= LAST_STAMP_SECS
}

/// Day of the year, hour and minute of a time, in UTC.
///
/// Calls `chrono::DateTime::from_timestamp` and formats what it gives with
/// `chrono::DateTime::format` and the pattern `%j%H%M`. The claim is that
/// the result depends on the time alone. Times outside the years 1970 to
/// 9999 are left out.
#[verifier::external_body]
fn julian_stamp(unix_secs: i64) -> (r: Option<String>)
    requires
        in_calendar(unix_secs),
    ensures
        match r {
            Some(s) => julian_stamp_of(unix_secs as int) == Some(s@),
            None => julian_stamp_of(unix_secs as int) is None,
        },
{
    match chrono::DateTime::from_timestamp(unix_secs, 0) {
        Some(t) => Some(t.format("%j%H%M").to_string()),
        None => None,
    }
}

/// Date and time of day of a time in a named time zone.
///
/// Calls `chrono::DateTime::from_timestamp`, `chrono_tz::Tz::from_str`,
/// `chrono::DateTime::with_timezone` and `chrono::DateTime::format` with
/// the pattern `%Y-%m-%d %l:%M:%S %p`. The claim is that the result depends
/// on the time and the name alone. Times outside the years 1970 to 9999
/// are left out.
#[verifier::external_body]
fn received_stamp(unix_secs: i64, zone: &str) -> (r: Option<String>)
    requires
        in_calendar(unix_secs),
    ensures
        match r {
            Some(s) => received_stamp_of(unix_secs as int, zone@) == Some(s@),
            None => received_stamp_of(unix_secs as int, zone@) is None,
        },
{
    match (chrono::DateTime::from_timestamp(unix_secs, 0), zone.parse::<chrono_tz::Tz>()) {
        (Some(t), Ok(tz)) => Some(t.with_timezone(&tz).format("%Y-%m-%d %l:%M:%S %p").to_string()),
        _ => None,
    }
}

/// The header that a tone recording is written under at a given time: the
/// live SAME header, where there is one of the right shape, else the
/// placeholder with the time's day of the year, hour and minute. Nothing
/// for a time that cannot be put into words.
pub fn tone_header_at(current_same_header: Option<&str>, unix_secs: i64, relay_name: &str) -> (r:
    Option<String>)
    ensures
        match r {
            Some(h) => in_calendar(unix_secs) && julian_stamp_of(unix_secs as int) is Some && h@
                == tone_header(
                match current_same_header {
                    Some(c) => Some(c@),
                    None => None,
                },
                julian_stamp_of(unix_secs as int)->0,
                relay_name@,
            ),
            None => !in_calendar(unix_secs) || julian_stamp_of(unix_secs as int) is None,
        },
{
    if unix_secs < 0 || unix_secs > LAST_STAMP_SECS {
        return None;
    }
    match julian_stamp(unix_secs) {
        Some(stamp) => Some(
            nwr_tone_header_for_recording(current_same_header, stamp.as_str(), relay_name),
        ),
        None => None,
    }
}

/// The line that the alert log gets for an alert received at a given time,
/// with the time told in the given time zone. Nothing for a time that
/// cannot be put into words and for a time zone that is not known.
pub fn alert_log_entry(raw_header: &str, eas_text: &str, received_at: i64, zone: &str) -> (r:
    Option<String>)
    ensures
        match r {
            Some(line) => in_calendar(received_at) && received_stamp_of(received_at as int, zone@)
                is Some && line@ == log_line(
                raw_header@,
                eas_text@,
                received_stamp_of(received_at as int, zone@)->0,
            ),
            None => !in_calendar(received_at) || received_stamp_of(received_at as int, zone@)
                is None,
        },
{
    if received_at < 0 || received_at > LAST_STAMP_SECS {
        return None;
    }
    match received_stamp(received_at, zone) {
        Some(stamp) => Some(alert_log_line(raw_header, eas_text, stamp.as_str())),
        None => None,
    }
}

} // verus!
