//! The time of day the clock shows: local time, or UTC moved by a whole
//! number of hours chosen in the settings.

use vstd::prelude::*;

verus! {

/// One reading of the system clock: seconds since the Unix epoch, and the
/// local time of day.
#[derive(Clone, Copy, Debug)]
pub struct ClockReading {
    pub utc_timestamp: i64,
    pub local_hour: u32,
    pub local_minute: u32,
    pub local_second: u32,
}

impl ClockReading {
    /// Whether the local time of day is a time of day.
    pub open spec fn valid(self) -> bool {
        self.local_hour < 24 && self.local_minute < 60 && self.local_second < 60
    }
}

/// `chrono::FixedOffset::east_opt`, read back through `local_minus_utc`: the
/// offset `secs` east of UTC when `-86400 < secs < 86400`, as the source
/// checks, and none otherwise.
#[verifier::external_body]
fn offset_east(secs: i32) -> (r: Option<i32>)
    ensures
        r == (if -86400 < secs < 86400 {
            Some(secs)
        } else {
            None
        }),
{
    match chrono::FixedOffset::east_opt(secs) {
        Some(o) => Some(o.local_minus_utc()),
        None => None,
    }
}

/// `chrono::FixedOffset::west_opt`, read back through `local_minus_utc`: the
/// offset `secs` west of UTC, that is `-secs` east, when
/// `-86400 < secs < 86400`, as the source checks, and none otherwise.
#[verifier::external_body]
fn offset_west(secs: i32) -> (r: Option<i32>)
    ensures
        r == (if -86400 < secs < 86400 {
            Some((-secs) as i32)
        } else {
            None
        }),
{
    match chrono::FixedOffset::west_opt(secs) {
        Some(o) => Some(o.local_minus_utc()),
        None => None,
    }
}

/// The offset east of UTC, in seconds, of the zone setting `timezone`, an
/// hour offset: `-h` is `h` hours west of UTC, `h` is `h` hours east.
pub open spec fn zone_offset(timezone: int) -> int {
    timezone * 3600
}

/// Computes `zone_offset`; settings of a day or more have no offset.
pub fn zone_offset_seconds(timezone: i32) -> (r: i32)
    requires
        -24 < timezone < 24,
    ensures
        r == zone_offset(timezone as int),
{
    if timezone < 0 {
        offset_west(-timezone * 3600).unwrap()
    } else {
        offset_east(timezone * 3600).unwrap()
    }
}

/// Seconds since midnight at `utc_timestamp` in a zone `offset` seconds
/// east of UTC (a Unix day has 86400 seconds).
pub open spec fn day_seconds(utc_timestamp: int, offset: int) -> int {
    (utc_timestamp + offset) % 86400
}

/// The hour, minute and second at `utc_timestamp` in a zone `offset`
/// seconds east of UTC.
pub open spec fn time_of_day(utc_timestamp: int, offset: int) -> (u32, u32, u32) {
    let d = day_seconds(utc_timestamp, offset);
    ((d / 3600) as u32, (d % 3600 / 60) as u32, (d % 60) as u32)
}

/// Computes `time_of_day`.
pub fn zone_time_of_day(utc_timestamp: i64, offset: i32) -> (r: (u32, u32, u32))
    ensures
        r == time_of_day(utc_timestamp as int, offset as int),
        r.0 < 24 && r.1 < 60 && r.2 < 60,
{
    let x: i128 = utc_timestamp as i128 + offset as i128;
    let d: i128 = if x >= 0 {
        x % 86400
    } else {
        let r: i128 = (-x) % 86400;
        if r == 0 {
            0
        } else {
            86400 - r
        }
    };
    assert(d == (utc_timestamp + offset) % 86400);
    ((d / 3600) as u32, (d % 3600 / 60) as u32, (d % 60) as u32)
}

} // verus!
