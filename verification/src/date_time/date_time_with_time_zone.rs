//! A UTC instant together with the time zone it is shown in.
use super::as_microseconds::{truncating_div, DateTimeAsMicroseconds};
use super::chrono_bridge::{
    chrono_parse_rfc3339, chrono_rfc3339_micros_offset, in_chrono_range, parse_rfc3339_with_offset,
    rfc3339_micros_offset_of,
};
use super::date_time_struct::{date_time_struct_of, DateTimeStruct};
use super::format::compact_text;
use super::rfc3339_text::{fixed_digits, offset_text, rfc3339_seconds_text};
use super::time_zone::{quarter_hours_between, TimeZone};
use vstd::prelude::*;

verus! {

/// The instant stays in UTC; the time zone is what it is shown in.
#[derive(Clone, Copy, PartialEq, Eq, Structural, Debug)]
pub struct DateTimeAsMicrosecondsWithTimeZone {
    pub date_time: DateTimeAsMicroseconds,
    pub time_zone: TimeZone,
}

/// The offset in seconds that a time zone is shown with: its own, when a fixed offset can be
/// that far from UTC (less than a day), else none.
pub open spec fn shown_offset_seconds(time_zone: TimeZone) -> int {
    if -86_400 < time_zone.minutes() * 60 < 86_400 {
        time_zone.minutes() * 60
    } else {
        0
    }
}

/// What reading an RFC 3339 text gives, from what `chrono` parsed of it.
pub open spec fn from_parsed_spec(parsed: Option<(i64, i32)>) -> Option<
    DateTimeAsMicrosecondsWithTimeZone,
> {
    match parsed {
        Some(p) => Some(
            DateTimeAsMicrosecondsWithTimeZone {
                date_time: DateTimeAsMicroseconds { unix_microseconds: p.0 },
                time_zone: TimeZone::from_minutes_value(truncating_div(p.1 as int, 60) as i32),
            },
        ),
        None => None,
    }
}

impl DateTimeAsMicrosecondsWithTimeZone {
    pub fn new(date_time: DateTimeAsMicroseconds, time_zone: TimeZone) -> (r: Self)
        ensures
            r.date_time == date_time,
            r.time_zone == time_zone,
    {
        Self { date_time, time_zone }
    }

    /// The server's UTC instant, with the time zone `local_time - server_time` rounded to 15
    /// minutes.
    pub fn from_server_and_local_time(
        server_time: DateTimeAsMicroseconds,
        local_time: DateTimeAsMicroseconds,
    ) -> (r: Self)
        requires
            i64::MIN <= local_time.unix_microseconds - server_time.unix_microseconds <= i64::MAX,
            i32::MIN <= quarter_hours_between(
                server_time.unix_microseconds as int,
                local_time.unix_microseconds as int,
            ) * 15 <= i32::MAX,
        ensures
            r.date_time == server_time,
            r.time_zone.minutes() == quarter_hours_between(
                server_time.unix_microseconds as int,
                local_time.unix_microseconds as int,
            ) * 15,
    {
        Self {
            date_time: server_time,
            time_zone: TimeZone::from_server_and_local_time(server_time, local_time),
        }
    }

    /// Reads an RFC 3339 text with an offset (`...+01:00`, or `...Z` for UTC), as `chrono`
    /// parses it.
    pub fn from_str(src: &str) -> (r: Option<Self>)
        ensures
            r == from_parsed_spec(chrono_parse_rfc3339(src@)),
    {
        Self::from_parsed(parse_rfc3339_with_offset(src))
    }

    /// The instant and the time zone of what `chrono` parsed: the instant in microseconds,
    /// the offset in seconds, kept in whole minutes.
    pub fn from_parsed(parsed: Option<(i64, i32)>) -> (r: Option<Self>)
        ensures
            r == from_parsed_spec(parsed),
    {
        match parsed {
            Some(p) => Some(
                Self {
                    date_time: DateTimeAsMicroseconds::new(p.0),
                    time_zone: TimeZone::from_minutes(p.1 / 60),
                },
            ),
            None => None,
        }
    }

    /// The local wall clock fields: those of the instant moved by the shown offset.
    pub fn to_local_date_time_struct(&self) -> (r: DateTimeStruct)
        requires
            in_chrono_range(self.date_time.unix_microseconds as int),
        ensures
            r == date_time_struct_of(
                self.date_time.unix_microseconds + shown_offset_seconds(self.time_zone) * 1_000_000,
            ),
    {
        let seconds = self.time_zone.shown_offset_seconds();
        let local = self.date_time.unix_microseconds + seconds as i64 * 1_000_000;
        DateTimeStruct::from_unix_microseconds(local)
    }

    /// RFC 3339 in the time zone, with six digits of fraction and the offset:
    /// `2021-04-25T18:30:03.000000+01:00`.
    pub fn to_rfc3339(&self) -> (r: String)
        requires
            in_chrono_range(self.date_time.unix_microseconds as int),
            in_chrono_range(
                self.date_time.unix_microseconds + shown_offset_seconds(self.time_zone) * 1_000_000,
            ),
        ensures
            r@ == chrono_rfc3339_micros_offset(
                self.date_time.unix_microseconds as int,
                shown_offset_seconds(self.time_zone),
            ),
            ({
                let local = date_time_struct_of(
                    self.date_time.unix_microseconds + shown_offset_seconds(self.time_zone)
                        * 1_000_000,
                );
                0 <= local.year <= 9999 ==> r@ == rfc3339_seconds_text(local) + seq!['.']
                    + fixed_digits(local.time.micros as nat, 6) + offset_text(
                    shown_offset_seconds(self.time_zone),
                )
            }),
    {
        let seconds = self.time_zone.shown_offset_seconds();
        rfc3339_micros_offset_of(self.date_time.unix_microseconds, seconds)
    }

    /// The local time without the zone: `2021-04-25 18:30:03`.
    pub fn to_compact_string(&self) -> (r: String)
        requires
            in_chrono_range(self.date_time.unix_microseconds as int),
        ensures
            r@ == compact_text(
                date_time_struct_of(
                    self.date_time.unix_microseconds + shown_offset_seconds(self.time_zone)
                        * 1_000_000,
                ),
            ),
    {
        self.to_local_date_time_struct().to_compact_date_time_string()
    }
}

} // verus!
