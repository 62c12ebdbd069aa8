//! The signed span between two instants.
use std::time::Duration;

use super::as_microseconds::{half_hours_between, DateTimeAsMicroseconds};
use super::duration_units::{
    duration_as_micros, duration_as_nanos, duration_from_micros, duration_micros, duration_nanos,
};
use vstd::prelude::*;

verus! {

pub enum DateTimeDuration {
    Positive(Duration),
    Negative(Duration),
    Zero,
}

impl DateTimeDuration {
    /// The span in whole microseconds, with its sign.
    pub open spec fn signed_micros(self) -> int {
        match self {
            DateTimeDuration::Positive(d) => duration_micros(d),
            DateTimeDuration::Negative(d) => -duration_micros(d),
            DateTimeDuration::Zero => 0,
        }
    }

    /// The value is the span of `micros` microseconds: the sign picks the variant and the
    /// duration it holds is exactly the magnitude.
    pub open spec fn is_exact_span(self, micros: int) -> bool {
        match self {
            DateTimeDuration::Positive(d) => micros > 0 && duration_nanos(d) == micros * 1000,
            DateTimeDuration::Negative(d) => micros < 0 && duration_nanos(d) == -micros * 1000,
            DateTimeDuration::Zero => micros == 0,
        }
    }

    /// The span from `prev` to `next`.
    pub fn new(prev: &DateTimeAsMicroseconds, next: &DateTimeAsMicroseconds) -> (r: Self)
        requires
            i64::MIN <= next.unix_microseconds - prev.unix_microseconds <= i64::MAX,
        ensures
            r.is_exact_span(next.unix_microseconds - prev.unix_microseconds),
            r.signed_micros() == next.unix_microseconds - prev.unix_microseconds,
    {
        let dur = next.unix_microseconds - prev.unix_microseconds;
        if dur > 0 {
            return Self::Positive(duration_from_micros(dur as u64));
        }
        if dur < 0 {
            let dur = -(dur as i128);
            return Self::Negative(duration_from_micros(dur as u64));
        }
        Self::Zero
    }

    /// The duration of a positive span, zero otherwise.
    pub fn as_positive_or_zero(&self) -> (r: Duration)
        ensures
            duration_nanos(r) == (match self {
                DateTimeDuration::Positive(d) => duration_nanos(*d) as int,
                _ => 0,
            }),
    {
        match self {
            Self::Positive(duration) => *duration,
            _ => duration_from_micros(0),
        }
    }

    /// The duration of a negative span, zero otherwise.
    pub fn as_negative_or_zero(&self) -> (r: Duration)
        ensures
            duration_nanos(r) == (match self {
                DateTimeDuration::Negative(d) => duration_nanos(*d) as int,
                _ => 0,
            }),
    {
        match self {
            Self::Negative(duration) => *duration,
            _ => duration_from_micros(0),
        }
    }

    /// The span in whole microseconds, with its sign. A span of more units than an `i64` holds is cut to 64 bits, as `as` does.
    pub fn get_full_micros(&self) -> (r: i64)
        requires
            self matches DateTimeDuration::Negative(d) ==> (duration_nanos(*d) / 1000) as i64 != i64::MIN,
        ensures
            r == (match self {
                DateTimeDuration::Positive(d) => (duration_nanos(*d) / 1000) as i64 as int,
                DateTimeDuration::Negative(d) => -((duration_nanos(*d) / 1000) as i64),
                DateTimeDuration::Zero => 0,
            }),
            -i64::MAX <= self.signed_micros() <= i64::MAX ==> r == truncated_units(
                self.signed_micros(),
                1,
            ),
    {
        match self {
            Self::Positive(duration) => (duration_as_nanos(duration) / 1000) as i64,
            Self::Negative(duration) => -((duration_as_nanos(duration) / 1000) as i64),
            Self::Zero => 0,
        }
    }

    /// The span in whole milliseconds, with its sign (rounded towards zero). A span of more units than an `i64` holds is cut to 64 bits, as `as` does.
    pub fn get_full_millis(&self) -> (r: i64)
        requires
            self matches DateTimeDuration::Negative(d) ==> (duration_nanos(*d) / 1_000_000) as i64 != i64::MIN,
        ensures
            r == (match self {
                DateTimeDuration::Positive(d) => (duration_nanos(*d) / 1_000_000) as i64 as int,
                DateTimeDuration::Negative(d) => -((duration_nanos(*d) / 1_000_000) as i64),
                DateTimeDuration::Zero => 0,
            }),
            -i64::MAX <= self.signed_micros() <= i64::MAX ==> r == truncated_units(
                self.signed_micros(),
                1000,
            ),
    {
        match self {
            Self::Positive(duration) => (duration_as_nanos(duration) / 1_000_000) as i64,
            Self::Negative(duration) => -((duration_as_nanos(duration) / 1_000_000) as i64),
            Self::Zero => 0,
        }
    }

    /// The span in whole seconds, with its sign (rounded towards zero). A span of more units than an `i64` holds is cut to 64 bits, as `as` does.
    pub fn get_full_seconds(&self) -> (r: i64)
        requires
            self matches DateTimeDuration::Negative(d) ==> (duration_nanos(*d) / 1_000_000_000) as i64 != i64::MIN,
        ensures
            r == (match self {
                DateTimeDuration::Positive(d) => (duration_nanos(*d) / 1_000_000_000) as i64 as int,
                DateTimeDuration::Negative(d) => -((duration_nanos(*d) / 1_000_000_000) as i64),
                DateTimeDuration::Zero => 0,
            }),
            -i64::MAX <= self.signed_micros() <= i64::MAX ==> r == truncated_units(
                self.signed_micros(),
                1_000_000,
            ),
    {
        match self {
            Self::Positive(duration) => (duration_as_nanos(duration) / 1_000_000_000) as i64,
            Self::Negative(duration) => -((duration_as_nanos(duration) / 1_000_000_000) as i64),
            Self::Zero => 0,
        }
    }

    /// The span in whole minutes, with its sign (rounded towards zero). The seconds are cut to 64 bits first, as `as` does.
    pub fn get_full_minutes(&self) -> (r: i64)
        ensures
            r == (match self {
                DateTimeDuration::Positive(d) => truncated_units(
                    ((duration_nanos(*d) / 1_000_000_000) as i64) as int,
                    60,
                ),
                DateTimeDuration::Negative(d) => -truncated_units(
                    ((duration_nanos(*d) / 1_000_000_000) as i64) as int,
                    60,
                ),
                DateTimeDuration::Zero => 0,
            }),
            -i64::MAX <= self.signed_micros() <= i64::MAX ==> r == truncated_units(
                self.signed_micros(),
                60_000_000,
            ),
    {
        match self {
            Self::Positive(duration) => (duration_as_nanos(duration) / 1_000_000_000) as i64 / 60,
            Self::Negative(duration) => -((duration_as_nanos(duration) / 1_000_000_000) as i64 / 60),
            Self::Zero => 0,
        }
    }

    /// The span in whole hours, with its sign (rounded towards zero). The seconds are cut to 64 bits first, as `as` does.
    pub fn get_full_hours(&self) -> (r: i64)
        ensures
            r == (match self {
                DateTimeDuration::Positive(d) => truncated_units(
                    ((duration_nanos(*d) / 1_000_000_000) as i64) as int,
                    3600,
                ),
                DateTimeDuration::Negative(d) => -truncated_units(
                    ((duration_nanos(*d) / 1_000_000_000) as i64) as int,
                    3600,
                ),
                DateTimeDuration::Zero => 0,
            }),
            -i64::MAX <= self.signed_micros() <= i64::MAX ==> r == truncated_units(
                self.signed_micros(),
                3_600_000_000,
            ),
    {
        match self {
            Self::Positive(duration) => (duration_as_nanos(duration) / 1_000_000_000) as i64 / 3600,
            Self::Negative(duration) => -((duration_as_nanos(duration) / 1_000_000_000) as i64 / 3600),
            Self::Zero => 0,
        }
    }

    /// The span in whole days, with its sign (rounded towards zero). The seconds are cut to 64 bits first, as `as` does.
    pub fn get_full_days(&self) -> (r: i64)
        ensures
            r == (match self {
                DateTimeDuration::Positive(d) => truncated_units(
                    ((duration_nanos(*d) / 1_000_000_000) as i64) as int,
                    86400,
                ),
                DateTimeDuration::Negative(d) => -truncated_units(
                    ((duration_nanos(*d) / 1_000_000_000) as i64) as int,
                    86400,
                ),
                DateTimeDuration::Zero => 0,
            }),
            -i64::MAX <= self.signed_micros() <= i64::MAX ==> r == truncated_units(
                self.signed_micros(),
                86_400_000_000,
            ),
    {
        match self {
            Self::Positive(duration) => (duration_as_nanos(duration) / 1_000_000_000) as i64 / 86400,
            Self::Negative(duration) => -((duration_as_nanos(duration) / 1_000_000_000) as i64 / 86400),
            Self::Zero => 0,
        }
    }
}

/// `micros` in whole `unit`s, rounded towards zero.
pub open spec fn truncated_units(micros: int, unit: int) -> int {
    if micros >= 0 {
        micros / unit
    } else {
        -((-micros) / unit)
    }
}

/// A client clock reading paired with the server clock reading of the same moment.
#[derive(Clone, Copy, Debug)]
pub struct ClientServerTimeDifference {
    pub client_time: DateTimeAsMicroseconds,
    pub server_time: DateTimeAsMicroseconds,
}

impl ClientServerTimeDifference {
    pub fn new(client_time: DateTimeAsMicroseconds, server_time: DateTimeAsMicroseconds) -> (r:
        Self)
        ensures
            r.client_time == client_time,
            r.server_time == server_time,
    {
        Self { client_time, server_time }
    }

    /// How far the client clock runs ahead of the server one, in whole half hours (rounded
    /// to the nearest).
    pub fn difference_in_half_hours(&self) -> (r: i64)
        requires
            i64::MIN <= self.client_time.unix_microseconds - self.server_time.unix_microseconds
                <= i64::MAX,
        ensures
            r == half_hours_between(
                self.client_time.unix_microseconds as int,
                self.server_time.unix_microseconds as int,
            ),
    {
        let diff = self.client_time.unix_microseconds as i128
            - self.server_time.unix_microseconds as i128;
        if diff >= 0 {
            ((diff + 900_000_000) / 1_800_000_000) as i64
        } else {
            (-((-diff + 900_000_000) / 1_800_000_000)) as i64
        }
    }
}

} // verus!
