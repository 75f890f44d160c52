//! Wall-clock time: the current time in seconds, and the `HH:MM:SS` text of a
//! time of day.

use vstd::prelude::*;
use crate::text::digit_char;

verus! {

/// The seconds in one day.
pub const SECONDS_PER_DAY: i64 = 86400;

/// Two decimal digits, the first one a zero where `v` is below ten.
pub open spec fn two_digits(v: int) -> Seq<char> {
    seq![digit_char(v / 10), digit_char(v % 10)]
}

/// `HH:MM:SS` for a number of seconds since midnight.
pub open spec fn clock_text(secs_of_day: int) -> Seq<char> {
    two_digits(secs_of_day / 3600) + seq![':'] + two_digits((secs_of_day / 60) % 60) + seq![':']
        + two_digits(secs_of_day % 60)
}

/// The seconds since midnight (UTC) of a time given in seconds since the Unix
/// epoch; times before the epoch count back from midnight.
pub open spec fn seconds_of_day(unix_seconds: int) -> int {
    unix_seconds % 86400
}

/// Calls chrono: `NaiveTime::from_num_seconds_from_midnight_opt` and then
/// `format("%H:%M:%S")`. chrono writes the hour, the minute and the second
/// of that time as two digits each, padded with a zero, with a colon between
/// them.
#[verifier::external_body]
fn format_clock(secs_of_day: u32) -> (text: String)
    requires
        secs_of_day < 86400,
    ensures
        text@ == clock_text(secs_of_day as int),
{
    chrono::NaiveTime::from_num_seconds_from_midnight_opt(secs_of_day, 0)
        .unwrap()
        .format("%H:%M:%S")
        .to_string()
}

/// Calls chrono: `Local::now().naive_utc()`, as seconds since the Unix epoch.
/// The result is the machine's clock at the time of the call, so nothing is
/// claimed of it.
#[verifier::external_body]
fn wall_clock_seconds() -> i64 {
    chrono::Local::now().naive_utc().and_utc().timestamp()
}

/// The time now, in seconds since the Unix epoch, as the machine's clock
/// reads it. What it reads is not for the library to say.
pub fn unix_now() -> i64 {
    wall_clock_seconds()
}

/// The seconds since midnight of a time in seconds since the Unix epoch.
pub fn time_of_day(unix_seconds: i64) -> (secs: u32)
    ensures
        secs as int == seconds_of_day(unix_seconds as int),
        secs < 86400,
{
    if unix_seconds >= 0 {
        let within: u64 = (unix_seconds as u64) % 86400;
        within as u32
    } else {
        let back: u64 = ((-(unix_seconds + 1)) as u64) % 86400;
        (86399 - back) as u32
    }
}

/// The `HH:MM:SS` text of a time in seconds since the Unix epoch (UTC).
pub fn clock_string(unix_seconds: i64) -> (text: String)
    ensures
        text@ == clock_text(seconds_of_day(unix_seconds as int)),
{
    format_clock(time_of_day(unix_seconds))
}

} // verus!
