//! The local wall clock, read as plain numbers.

use chrono::Datelike;
use chrono::Timelike;
use vstd::prelude::*;

verus! {

/// One reading of a wall clock: a calendar date and a time of day, with the
/// milliseconds that have passed since the last full second.
#[derive(Clone, Copy, Debug, PartialEq, Eq, Structural)]
pub struct ClockReading {
    pub year: i32,
    pub month: u32,
    pub day: u32,
    pub hour: u32,
    pub minute: u32,
    pub second: u32,
    pub millisecond: u32,
}

impl ClockReading {
    /// Whether the fields lie in the ranges that a calendar and a clock give
    /// them: months from 1 to 12, days from 1 to 31, hours up to 23, minutes
    /// and seconds up to 59, milliseconds up to 999. The year is not
    /// limited.
    pub open spec fn is_wall_clock(self) -> bool {
        &&& 1 <= self.month <= 12
        &&& 1 <= self.day <= 31
        &&& self.hour <= 23
        &&& self.minute <= 59
        &&& self.second <= 59
        &&& self.millisecond <= 999
    }
}

/// Samples the local date and time with `chrono::Local::now` and reads its
/// fields with `Datelike::year`, `month`, `day`, `Timelike::hour`, `minute`,
/// `second` and `DateTime::timestamp_subsec_millis`.
///
/// Trusted: the body is not verified. Which instant is read depends on the
/// moment of the call, so two calls may differ, and the contract claims
/// only what holds of every reading. Month, day, hour, minute and second
/// lie in the ranges that chrono documents for these getters. The
/// milliseconds stay below 1000: `Local::now` takes the fraction of the
/// second from the system clock as `Duration::subsec_nanos`, which is below
/// one billion, the conversion to local time keeps that fraction, and
/// `timestamp_subsec_millis` divides it by one million. A system clock
/// never shows a leap second, so chrono's way of counting one beyond 999
/// does not occur here.
///
/// chrono panics, and so does this function, when the system clock stands
/// before 1970 or beyond the years that chrono can hold, and when the
/// time-zone data of the machine gives no local time or an offset outside
/// a day.
#[verifier::external_body]
pub(crate) fn read_local_clock() -> (now: ClockReading)
    ensures
        now.is_wall_clock(),
{
    let now = chrono::Local::now();
    ClockReading {
        year: now.year(),
        month: now.month(),
        day: now.day(),
        hour: now.hour(),
        minute: now.minute(),
        second: now.second(),
        millisecond: now.timestamp_subsec_millis(),
    }
}

} // verus!
