//! Time: the uptime counter, and the date of the real-time clock as a
//! count of seconds.

use vstd::prelude::*;

verus! {

/// The milliseconds since boot, counted by the timer.
pub struct Uptime {
    ms: u64,
}

impl View for Uptime {
    type V = u64;

    closed spec fn view(&self) -> u64 {
        self.ms
    }
}

impl Uptime {
    /// A counter at zero.
    pub fn new() -> (clock: Self)
        ensures
            clock@ == 0,
    {
        Uptime { ms: 0 }
    }
}

/// Where the counter stands after `ms` more milliseconds: it wraps round
/// at 2^64.
pub open spec fn advanced(uptime: u64, ms: u64) -> u64 {
    ((uptime + ms) % 0x1_0000_0000_0000_0000) as u64
}

/// Counts `ms` more milliseconds.
pub fn tick(clock: &mut Uptime, ms: u64)
    ensures
        final(clock)@ == advanced(old(clock)@, ms),
{
    clock.ms = clock.ms.wrapping_add(ms);
}

/// The milliseconds since boot.
pub fn uptime_ms(clock: &Uptime) -> (ms: u64)
    ensures
        ms == clock@,
{
    clock.ms
}

/// The six date registers of the real-time clock, as they are read: each
/// holds two decimal digits, one to a nibble.
#[derive(Debug, Clone, Copy)]
pub struct RtcReading {
    pub second: u8,
    pub minute: u8,
    pub hour: u8,
    pub day: u8,
    pub month: u8,
    /// The year within the century that began in 2000.
    pub year: u8,
}

/// The number that a register holds: ten times its high nibble plus its
/// low nibble.
pub open spec fn bcd_value(raw: u8) -> int {
    (raw / 16) * 10 + raw % 16
}

/// The days of a common year that lie before the first of `month`; 0 for
/// a month outside 1 to 12.
pub open spec fn days_before_month(month: int) -> int {
    if month == 2 {
        31
    } else if month == 3 {
        59
    } else if month == 4 {
        90
    } else if month == 5 {
        120
    } else if month == 6 {
        151
    } else if month == 7 {
        181
    } else if month == 8 {
        212
    } else if month == 9 {
        243
    } else if month == 10 {
        273
    } else if month == 11 {
        304
    } else if month == 12 {
        334
    } else {
        0
    }
}

/// The days from 1970-01-01 to the date of `reading`, roughly: every
/// fourth year counts as a leap year, and the leap day of the year itself
/// is never counted.
pub open spec fn days_since_epoch(reading: RtcReading) -> int {
    let year = bcd_value(reading.year) + 2000;
    (year - 1970) * 365 + (year - 1969) / 4 + days_before_month(bcd_value(reading.month))
        + bcd_value(reading.day) - 1
}

/// The seconds from 1970-01-01 00:00:00 to the time of `reading`,
/// roughly.
pub open spec fn timestamp(reading: RtcReading) -> int {
    days_since_epoch(reading) * 86400 + bcd_value(reading.hour) * 3600 + bcd_value(reading.minute)
        * 60 + bcd_value(reading.second)
}

fn month_days(month: u64) -> (days: u64)
    ensures
        days == days_before_month(month as int),
{
    if month == 2 {
        31
    } else if month == 3 {
        59
    } else if month == 4 {
        90
    } else if month == 5 {
        120
    } else if month == 6 {
        151
    } else if month == 7 {
        181
    } else if month == 8 {
        212
    } else if month == 9 {
        243
    } else if month == 10 {
        273
    } else if month == 11 {
        304
    } else if month == 12 {
        334
    } else {
        0
    }
}

fn bcd_to_bin(bcd: u8) -> (value: u64)
    ensures
        value == bcd_value(bcd),
        value <= 165,
{
    let high: u8 = (bcd >> 4) & 0x0F;
    let low: u8 = bcd & 0x0F;
    assert(high == bcd / 16 && low == bcd % 16) by (bit_vector)
        requires
            high == (bcd >> 4) & 0x0F,
            low == bcd & 0x0F,
    ;
    high as u64 * 10 + low as u64
}

/// The time of `reading` as seconds since 1970-01-01, roughly.
pub fn unix_timestamp(reading: &RtcReading) -> (seconds: u64)
    ensures
        seconds == timestamp(*reading),
{
    let sec: u64 = bcd_to_bin(reading.second);
    let min: u64 = bcd_to_bin(reading.minute);
    let hour: u64 = bcd_to_bin(reading.hour);
    let day: u64 = bcd_to_bin(reading.day);
    let month: u64 = bcd_to_bin(reading.month);
    let year: u64 = bcd_to_bin(reading.year) + 2000;
    let days: u64 = (year - 1970) * 365 + (year - 1969) / 4 + month_days(month) + day - 1;
    days * 86400 + hour * 3600 + min * 60 + sec
}

} // verus!
