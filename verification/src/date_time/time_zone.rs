//! A time zone given as a fixed offset from UTC, in minutes.
use super::as_microseconds::DateTimeAsMicroseconds;
use vstd::prelude::*;

verus! {

/// A fixed offset from UTC in minutes: `UTC+1` is `60`, `UTC-5` is `-300`, `UTC+5:45` is
/// `345`.
#[derive(Clone, Copy, PartialEq, Eq, Structural, Debug)]
pub struct TimeZone {
    offset_in_minutes: i32,
}

/// The distance from `server` to `local` (microseconds) in quarter hours, rounded to the
/// nearest one, halves away from zero.
pub open spec fn quarter_hours_between(server: int, local: int) -> int {
    let diff = local - server;
    if diff >= 0 {
        (diff + 450_000_000) / 900_000_000
    } else {
        -((-diff + 450_000_000) / 900_000_000)
    }
}

impl TimeZone {
    /// The offset in minutes.
    pub closed spec fn minutes(self) -> int {
        self.offset_in_minutes as int
    }

    pub fn utc() -> (r: Self)
        ensures
            r.minutes() == 0,
    {
        Self { offset_in_minutes: 0 }
    }

    pub fn from_minutes(offset_in_minutes: i32) -> (r: Self)
        ensures
            r.minutes() == offset_in_minutes,
            r == Self::from_minutes_value(offset_in_minutes),
    {
        Self { offset_in_minutes }
    }

    /// The offset `local_time - server_time`, rounded to the nearest 15 minutes (a raw
    /// difference of 58 minutes gives 60, of 50 gives 45, of 7 gives 0).
    pub fn from_server_and_local_time(
        server_time: DateTimeAsMicroseconds,
        local_time: DateTimeAsMicroseconds,
    ) -> (r: Self)
        requires
            i64::MIN <= local_time.unix_microseconds - server_time.unix_microseconds <= i64::MAX,
            i32::MIN <= quarter_hours_between(
                server_time.unix_microseconds as int,
                local_time.unix_microseconds as int,
            ) * 15 <= i32::MAX,
        ensures
            r.minutes() == quarter_hours_between(
                server_time.unix_microseconds as int,
                local_time.unix_microseconds as int,
            ) * 15,
    {
        let diff = (local_time.unix_microseconds - server_time.unix_microseconds) as i128;
        let quarters: i128 = if diff >= 0 {
            (diff + 450_000_000) / 900_000_000
        } else {
            -((-diff + 450_000_000) / 900_000_000)
        };
        Self { offset_in_minutes: (quarters * 15) as i32 }
    }

    /// The time zone of `minutes` minutes, as a value in specifications.
    pub closed spec fn from_minutes_value(minutes: i32) -> TimeZone {
        TimeZone { offset_in_minutes: minutes }
    }

    /// The offset in seconds a fixed offset shows it with: its own when less than a day
    /// from UTC, else none (`chrono` takes no larger offset).
    pub fn shown_offset_seconds(&self) -> (r: i32)
        ensures
            r == (if -86_400 < self.minutes() * 60 < 86_400 {
                self.minutes() * 60
            } else {
                0
            }),
    {
        if self.offset_in_minutes > -1440 && self.offset_in_minutes < 1440 {
            self.offset_in_minutes * 60
        } else {
            0
        }
    }

    pub fn offset_in_minutes(&self) -> (r: i32)
        ensures
            r == self.minutes(),
    {
        self.offset_in_minutes
    }

    /// The offset in seconds (an offset of more than a few decades of minutes does not fit).
    pub fn offset_in_seconds(&self) -> (r: i32)
        requires
            i32::MIN <= self.minutes() * 60 <= i32::MAX,
        ensures
            r == self.minutes() * 60,
    {
        self.offset_in_minutes * 60
    }
}

} // verus!
