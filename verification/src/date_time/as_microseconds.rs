//! A UTC instant as whole microseconds since the unix epoch.
use std::time::Duration;

use super::date_time_duration::{ClientServerTimeDifference, DateTimeDuration};
use super::date_time_struct::{
    date_time_struct_of, DateTimeStruct, MICRO_SECONDS_IN_ONE_DAY, MICRO_SECONDS_IN_ONE_HOUR,
    MICRO_SECONDS_IN_ONE_MINUTE, MICRO_SECONDS_IN_ONE_SECOND,
};
use super::duration_units::{duration_as_micros, duration_micros, duration_nanos};
use super::calendar::{days_from_civil, is_valid_date, year_in_range};
use super::chrono_bridge::chrono_timestamp_millis;
use super::format::{compact_text, rfc2822_text, rfc5322_text, rfc7231_text};
use super::parse_rfc3339::parse_rfc3339_spec;
use super::utils::{parse_decimal, parse_decimal_spec};
use vstd::prelude::*;
use vstd::string::StringSliceAdditionalSpecFns;

verus! {

#[derive(Clone, Copy, Debug, PartialEq, Eq, Structural, PartialOrd, Ord, Hash)]
pub struct DateTimeAsMicroseconds {
    pub unix_microseconds: i64,
}

/// The instant a bare number stands for: its unit is told by its magnitude - seconds,
/// milliseconds, microseconds or nanoseconds, all up to the year 2120 - and negative numbers
/// take the unit of their positive counterparts.
pub open spec fn micros_from_number(src: int) -> int {
    let magnitude = if src < 0 {
        -src
    } else {
        src
    };
    if magnitude < 4733514061 {
        src * 1_000_000
    } else if magnitude < 4733514061000 {
        src * 1000
    } else if magnitude < 4733514061000000 {
        src
    } else if src >= 0 {
        src / 1000
    } else {
        -((-src) / 1000)
    }
}

/// The instant a string holds: an RFC 3339 date-time (which must name a real date and
/// time), else a decimal number read by `micros_from_number`.
pub open spec fn from_str_spec(s: Seq<u8>) -> Option<int> {
    if s.len() == 0 {
        None
    } else {
        match parse_rfc3339_spec(s) {
            Some(parsed) => if parsed.is_valid() && i64::MIN <= parsed.unix_micros() <= i64::MAX {
                Some(parsed.unix_micros())
            } else {
                None
            },
            None => match parse_decimal_spec(s, true, i64::MIN as int, i64::MAX as int) {
                Some(v) => Some(micros_from_number(v)),
                None => None,
            },
        }
    }
}

/// One pair of matching quotes (`"` or `'`) around the bytes, stripped; `None` when the
/// bytes are not quoted.
pub open spec fn strip_json_quotes_spec(s: Seq<u8>) -> Option<Seq<u8>> {
    if s.len() >= 2 && ((s[0] == ('"' as u8) && s.last() == ('"' as u8)) || (s[0] == ('\'' as u8)
        && s.last() == ('\'' as u8))) {
        Some(s.subrange(1, s.len() - 1))
    } else {
        None
    }
}

/// The bytes spell `null`.
pub open spec fn is_null_token(s: Seq<u8>) -> bool {
    s =~= seq!['n' as u8, 'u' as u8, 'l' as u8, 'l' as u8]
}

/// The instant a raw JSON value token holds, after surrounding white space is gone: empty
/// and `null` hold none; quotes are stripped, then the content is read by `from_str_spec`.
pub open spec fn json_value_spec(s: Seq<u8>) -> Option<int> {
    if s.len() == 0 || is_null_token(s) {
        None
    } else {
        match strip_json_quotes_spec(s) {
            Some(inner) => from_str_spec(inner),
            None => from_str_spec(s),
        }
    }
}

/// Unicode's `White_Space` property, the white space that `str::trim` strips.
pub open spec fn is_white_space(c: char) -> bool {
    let v = c as u32;
    ||| 0x09 <= v <= 0x0D
    ||| v == 0x20
    ||| v == 0x85
    ||| v == 0xA0
    ||| v == 0x1680
    ||| 0x2000 <= v <= 0x200A
    ||| v == 0x2028
    ||| v == 0x2029
    ||| v == 0x202F
    ||| v == 0x205F
    ||| v == 0x3000
}

/// The number of white space characters the string starts with.
pub open spec fn leading_white_space(s: Seq<char>) -> nat
    decreases s.len(),
{
    if s.len() > 0 && is_white_space(s[0]) {
        1 + leading_white_space(s.drop_first())
    } else {
        0
    }
}

/// The number of white space characters the string ends with.
pub open spec fn trailing_white_space(s: Seq<char>) -> nat
    decreases s.len(),
{
    if s.len() > 0 && is_white_space(s.last()) {
        1 + trailing_white_space(s.drop_last())
    } else {
        0
    }
}

/// What `str::trim` leaves of a string: the same string without leading and trailing white
/// space.
pub open spec fn trimmed(s: Seq<char>) -> Seq<char> {
    let rest = s.skip(leading_white_space(s) as int);
    rest.take(rest.len() - trailing_white_space(rest))
}

/// Calls `str::trim`, which strips leading and trailing white space as Unicode defines it.
#[verifier::external_body]
pub(crate) fn trim_str(s: &str) -> (r: &str)
    ensures
        r@ == trimmed(s@),
{
    s.trim()
}

/// Strips one pair of matching surrounding quotes; `None` means the token is not quoted.
fn strip_json_quotes(src: &[u8]) -> (r: Option<&[u8]>)
    ensures
        match r {
            Some(inner) => strip_json_quotes_spec(src@) == Some(inner@),
            None => strip_json_quotes_spec(src@) is None,
        },
{
    let len = src.len();
    if len < 2 {
        return None;
    }
    let first = src[0];
    let last = src[len - 1];
    if (first == ('"' as u8) && last == ('"' as u8)) || (first == ('\'' as u8) && last == (
    '\'' as u8)) {
        return Some(vstd::slice::slice_subrange(src, 1, len - 1));
    }
    None
}

/// The "from a bare number" conversion: see `micros_from_number`.
pub fn micros_from_i64(src: i64) -> (r: i64)
    ensures
        r == micros_from_number(src as int),
{
    let magnitude: i128 = if src < 0 {
        -(src as i128)
    } else {
        src as i128
    };
    if magnitude < 4733514061 {
        return src * 1_000_000;
    }
    if magnitude < 4733514061000 {
        return src * 1000;
    }
    if magnitude < 4733514061000000 {
        return src;
    }
    src / 1000
}

impl DateTimeAsMicroseconds {
    pub fn new(unix_microseconds: i64) -> (r: Self)
        ensures
            r.unix_microseconds == unix_microseconds,
    {
        Self { unix_microseconds }
    }

    /// The instant of a unix timestamp in nanoseconds (truncated to microseconds).
    pub fn from_nanos(value: i64) -> (r: Self)
        ensures
            r.unix_microseconds == (if value >= 0 {
                value / 1000
            } else {
                -((-value) / 1000)
            }),
    {
        Self { unix_microseconds: value / 1000 }
    }

    /// The instant of a bare number, its unit told by its magnitude.
    pub fn from_i64(src: i64) -> (r: Self)
        ensures
            r.unix_microseconds == micros_from_number(src as int),
    {
        Self { unix_microseconds: micros_from_i64(src) }
    }

    /// The instant of an unsigned number: it is read as the `i64` with the same bits, and
    /// then as a bare number.
    pub fn from_u64(src: u64) -> (r: Self)
        ensures
            r.unix_microseconds == micros_from_number(src as i64 as int),
    {
        Self::from_i64(src as i64)
    }

    fn from_bytes(src: &[u8]) -> (r: Option<Self>)
        ensures
            r == (match from_str_spec(src@) {
                Some(v) => Some(Self { unix_microseconds: v as i64 }),
                None => None::<Self>,
            }),
    {
        if src.len() == 0 {
            return None;
        }
        if let Some(result) = DateTimeStruct::parse_rfc3339_str(src) {
            return match result.to_unix_microseconds() {
                Some(v) => Some(Self::new(v)),
                None => None,
            };
        }
        match parse_decimal(src, true, i64::MIN, i64::MAX) {
            Some(v) => Some(Self::from_i64(v)),
            None => None,
        }
    }

    /// Reads an RFC 3339 date-time, or a bare unix timestamp whose unit is told by its
    /// magnitude.
    pub fn from_str(src: &str) -> (r: Option<Self>)
        ensures
            r == (match from_str_spec(src.spec_bytes()) {
                Some(v) => Some(Self { unix_microseconds: v as i64 }),
                None => None::<Self>,
            }),
    {
        Self::from_bytes(src.as_bytes())
    }

    /// Reads a raw JSON value token: a quoted string keeps its quotes, a number comes bare.
    /// Surrounding white space is ignored, `null` and empty tokens hold nothing, and the
    /// content of a quoted token is read the same way as a bare one.
    pub fn from_json_value_str(src: &str) -> (r: Option<Self>)
        ensures
            r == (match json_value_spec(trim_spec_bytes(src@)) {
                Some(v) => Some(Self { unix_microseconds: v as i64 }),
                None => None::<Self>,
            }),
    {
        let src = trim_str(src);
        let bytes = src.as_bytes();
        if bytes.len() == 0 || (bytes.len() == 4 && bytes[0] == ('n' as u8) && bytes[1] == (
        'u' as u8) && bytes[2] == ('l' as u8) && bytes[3] == ('l' as u8)) {
            proof {
                if bytes.len() == 4 {
                    assert(is_null_token(bytes@));
                }
            }
            return None;
        }
        proof {
            if is_null_token(bytes@) {
                assert(bytes@[0] == ('n' as u8));
                assert(bytes@[1] == ('u' as u8));
                assert(bytes@[2] == ('l' as u8));
                assert(bytes@[3] == ('l' as u8));
            }
        }
        match strip_json_quotes(bytes) {
            Some(inner) => Self::from_bytes(inner),
            None => Self::from_bytes(bytes),
        }
    }

    /// Reads an RFC 3339 date-time; `None` unless it names a real date and time.
    pub fn parse_iso_string(iso_string: &str) -> (r: Option<Self>)
        ensures
            r == (match parse_rfc3339_spec(iso_string.spec_bytes()) {
                Some(s) => if s.is_valid() && i64::MIN <= s.unix_micros() <= i64::MAX {
                    Some(Self { unix_microseconds: s.unix_micros() as i64 })
                } else {
                    None::<Self>
                },
                None => None::<Self>,
            }),
    {
        match DateTimeStruct::parse_rfc3339_str(iso_string.as_bytes()) {
            Some(s) => s.to_date_time_as_microseconds(),
            None => None,
        }
    }

    /// Whole seconds from `before` to `self`, rounded towards zero.
    pub fn seconds_before(&self, before: DateTimeAsMicroseconds) -> (r: i64)
        requires
            i64::MIN <= self.unix_microseconds - before.unix_microseconds <= i64::MAX,
        ensures
            r == truncating_div(self.unix_microseconds - before.unix_microseconds, 1_000_000),
    {
        (self.unix_microseconds - before.unix_microseconds) / MICRO_SECONDS_IN_ONE_SECOND
    }

    pub fn add_seconds(&mut self, seconds: i64)
        requires
            i64::MIN <= seconds * 1_000_000 <= i64::MAX,
            i64::MIN <= old(self).unix_microseconds + seconds * 1_000_000 <= i64::MAX,
        ensures
            final(self).unix_microseconds == old(self).unix_microseconds + seconds * 1_000_000,
    {
        self.unix_microseconds = self.unix_microseconds + seconds * MICRO_SECONDS_IN_ONE_SECOND;
    }

    pub fn add_minutes(&mut self, minutes: i64)
        requires
            i64::MIN <= minutes * 60_000_000 <= i64::MAX,
            i64::MIN <= old(self).unix_microseconds + minutes * 60_000_000 <= i64::MAX,
        ensures
            final(self).unix_microseconds == old(self).unix_microseconds + minutes * 60_000_000,
    {
        self.unix_microseconds = self.unix_microseconds + minutes * MICRO_SECONDS_IN_ONE_MINUTE;
    }

    pub fn add_hours(&mut self, hours: i64)
        requires
            i64::MIN <= hours * 3_600_000_000 <= i64::MAX,
            i64::MIN <= old(self).unix_microseconds + hours * 3_600_000_000 <= i64::MAX,
        ensures
            final(self).unix_microseconds == old(self).unix_microseconds + hours * 3_600_000_000,
    {
        self.unix_microseconds = self.unix_microseconds + hours * MICRO_SECONDS_IN_ONE_HOUR;
    }

    pub fn add_days(&mut self, days: i64)
        requires
            i64::MIN <= days * 86_400_000_000 <= i64::MAX,
            i64::MIN <= old(self).unix_microseconds + days * 86_400_000_000 <= i64::MAX,
        ensures
            final(self).unix_microseconds == old(self).unix_microseconds + days * 86_400_000_000,
    {
        self.unix_microseconds = self.unix_microseconds + days * MICRO_SECONDS_IN_ONE_DAY;
    }

    /// The instant `duration` (in whole microseconds) later.
    pub fn add(&self, duration: Duration) -> (r: Self)
        requires
            duration_micros(duration) <= i64::MAX,
            self.unix_microseconds + duration_micros(duration) <= i64::MAX,
        ensures
            r.unix_microseconds == self.unix_microseconds + duration_micros(duration),
    {
        Self { unix_microseconds: self.unix_microseconds + duration_as_micros(&duration) as i64 }
    }

    /// The instant `duration` (in whole microseconds) earlier.
    pub fn sub(&self, duration: Duration) -> (r: Self)
        requires
            duration_micros(duration) <= i64::MAX,
            i64::MIN <= self.unix_microseconds - duration_micros(duration),
        ensures
            r.unix_microseconds == self.unix_microseconds - duration_micros(duration),
    {
        Self { unix_microseconds: self.unix_microseconds - duration_as_micros(&duration) as i64 }
    }

    /// The signed span from `before` to `self`.
    pub fn duration_since(&self, before: DateTimeAsMicroseconds) -> (r: DateTimeDuration)
        requires
            i64::MIN <= self.unix_microseconds - before.unix_microseconds <= i64::MAX,
        ensures
            r.is_exact_span(self.unix_microseconds - before.unix_microseconds),
    {
        DateTimeDuration::new(&before, self)
    }

    pub fn get_client_server_time_difference(&self, server_time: DateTimeAsMicroseconds) -> (r:
        ClientServerTimeDifference)
        ensures
            r.client_time == *self,
            r.server_time == server_time,
    {
        ClientServerTimeDifference::new(*self, server_time)
    }

    pub fn is_later_than(&self, other_time: DateTimeAsMicroseconds) -> (r: bool)
        ensures
            r == (self.unix_microseconds > other_time.unix_microseconds),
    {
        self.unix_microseconds > other_time.unix_microseconds
    }

    pub fn is_earlier_than(&self, other_time: DateTimeAsMicroseconds) -> (r: bool)
        ensures
            r == (self.unix_microseconds < other_time.unix_microseconds),
    {
        self.unix_microseconds < other_time.unix_microseconds
    }

    /// Moves a time the client entered by its own clock onto the server clock: the
    /// difference of the two clocks is rounded to whole half hours and taken off.
    pub fn client_input_time_to_server_time(
        client_input_time: DateTimeAsMicroseconds,
        client_now_time: DateTimeAsMicroseconds,
        server_now_time: DateTimeAsMicroseconds,
    ) -> (r: Self)
        requires
            i64::MIN <= client_now_time.unix_microseconds - server_now_time.unix_microseconds
                <= i64::MAX,
            i64::MIN <= client_input_time.unix_microseconds - half_hours_between(
                client_now_time.unix_microseconds as int,
                server_now_time.unix_microseconds as int,
            ) * 1_800_000_000 <= i64::MAX,
        ensures
            r.unix_microseconds == client_input_time.unix_microseconds - half_hours_between(
                client_now_time.unix_microseconds as int,
                server_now_time.unix_microseconds as int,
            ) * 1_800_000_000,
    {
        let difference = client_now_time.get_client_server_time_difference(server_now_time);
        let mut result = client_input_time;
        let half_hours = difference.difference_in_half_hours();
        proof {
            lemma_half_hours_bound(
                client_now_time.unix_microseconds as int,
                server_now_time.unix_microseconds as int,
            );
        }
        result.add_minutes(-half_hours * 30);
        result
    }
}

/// Rust's `/` on integers: the quotient rounded towards zero.
pub open spec fn truncating_div(a: int, b: int) -> int {
    if a >= 0 {
        a / b
    } else {
        -((-a) / b)
    }
}

/// The distance from `server` to `client` in half hours, rounded to the nearest one (a
/// quarter of an hour exactly rounds away from zero).
pub open spec fn half_hours_between(client: int, server: int) -> int {
    let diff = client - server;
    if diff >= 0 {
        (diff + 900_000_000) / 1_800_000_000
    } else {
        -((-diff + 900_000_000) / 1_800_000_000)
    }
}

proof fn lemma_half_hours_bound(client: int, server: int)
    requires
        i64::MIN <= client - server <= i64::MAX,
    ensures
        -6_000_000_000 < half_hours_between(client, server) < 6_000_000_000,
{
}

/// `std::time::SystemTime`, carried through as it is.
#[verifier::external_type_specification]
#[verifier::external_body]
pub struct ExSystemTime(std::time::SystemTime);

/// `SystemTime::now`.
#[verifier::external_body]
fn system_time_now() -> std::time::SystemTime {
    std::time::SystemTime::now()
}

/// How far a system time lies from the unix epoch, in nanoseconds, negative before it: what
/// `SystemTime::duration_since(UNIX_EPOCH)` measures.
pub uninterp spec fn system_time_nanos(t: std::time::SystemTime) -> int;

/// The instant in microseconds of a system time `nanos` nanoseconds from the epoch, as
/// `from_system_time` takes it: whole microseconds, cut to 64 bits as `as` does, negated
/// before the epoch (the least `i64` stays as it is).
pub open spec fn micros_of_system_time(nanos: int) -> i64 {
    if nanos >= 0 {
        ((nanos / 1000) as u128) as i64
    } else {
        let before = (((-nanos) / 1000) as u128) as i64;
        if before == i64::MIN {
            i64::MIN
        } else {
            (-before) as i64
        }
    }
}

/// `SystemTime::duration_since(UNIX_EPOCH)`: how long after the epoch the time is, or (the
/// error's duration, when the time lies before the epoch) how long before it.
#[verifier::external_body]
fn duration_since_unix_epoch(t: std::time::SystemTime) -> (r: Result<Duration, Duration>)
    ensures
        match r {
            Ok(d) => system_time_nanos(t) >= 0 && duration_nanos(d) == system_time_nanos(t),
            Err(d) => system_time_nanos(t) < 0 && duration_nanos(d) == -system_time_nanos(t),
        },
{
    match t.duration_since(std::time::UNIX_EPOCH) {
        Ok(d) => Ok(d),
        Err(e) => Err(e.duration()),
    }
}

impl DateTimeAsMicroseconds {
    /// The current time of the system clock (a clock before 1970 reads as a negative number):
    /// the instant of the system time the clock reads.
    pub fn now() -> (r: Self)
        ensures
            exists|t: std::time::SystemTime|
                r.unix_microseconds == micros_of_system_time(#[trigger] system_time_nanos(t)),
    {
        let t = system_time_now();
        let r = Self::from_system_time(t);
        proof {
            assert(r.unix_microseconds == micros_of_system_time(system_time_nanos(t)));
        }
        r
    }

    /// The instant of a system time, in whole microseconds (cut to 64 bits as `as` does).
    pub fn from_system_time(t: std::time::SystemTime) -> (r: Self)
        ensures
            r.unix_microseconds == micros_of_system_time(system_time_nanos(t)),
    {
        match duration_since_unix_epoch(t) {
            Ok(d) => Self { unix_microseconds: duration_as_micros(&d) as i64 },
            Err(d) => {
                let before = duration_as_micros(&d) as i64;
                Self {
                    unix_microseconds: if before == i64::MIN {
                        i64::MIN
                    } else {
                        -before
                    },
                }
            },
        }
    }

    /// The instant of a date and a time of day in UTC, plus `microsecond` microseconds, as
    /// `chrono` counts it. The date must be a real one of a year `chrono` handles and the time a
    /// real time of day.
    pub fn create(
        year: i32,
        month: u32,
        day: u32,
        hour: u32,
        minute: u32,
        second: u32,
        microsecond: i64,
    ) -> (r: Self)
        requires
            -262143 <= year <= 262142,
            is_valid_date(year as int, month as int, day as int),
            hour < 24,
            minute < 60,
            second < 60,
            i64::MIN <= (days_from_civil(year as int, month as int, day as int) * 86_400_000
                + hour * 3_600_000 + minute * 60_000 + second * 1_000) * 1000 <= i64::MAX,
            i64::MIN <= (days_from_civil(year as int, month as int, day as int) * 86_400_000
                + hour * 3_600_000 + minute * 60_000 + second * 1_000) * 1000 + microsecond
                <= i64::MAX,
        ensures
            r.unix_microseconds == (days_from_civil(year as int, month as int, day as int)
                * 86_400_000 + hour * 3_600_000 + minute * 60_000 + second * 1_000) * 1000
                + microsecond,
    {
        match chrono_timestamp_millis(year, month, day, hour, minute, second) {
            Some(millis) => Self { unix_microseconds: millis * 1000 + microsecond },
            None => {
                proof {
                    assert(false);
                }
                unreached()
            },
        }
    }

    /// `Sep  8 18:41:54 2032 GMT`
    pub fn to_rfc5322(&self) -> (r: String)
        ensures
            r@ == rfc5322_text(date_time_struct_of(self.unix_microseconds as int)),
    {
        DateTimeStruct::from_date_time(self).to_rfc5322()
    }

    /// `Thu, 04 Jan 2024 14:45:39 GMT`
    pub fn to_rfc7231(&self) -> (r: String)
        ensures
            r@ == rfc7231_text(date_time_struct_of(self.unix_microseconds as int)),
    {
        DateTimeStruct::from_date_time(self).to_rfc7231()
    }

    /// `Thu, 04 Jan 2024 14:45:39 +0000`
    pub fn to_rfc2822(&self) -> (r: String)
        ensures
            r@ == rfc2822_text(date_time_struct_of(self.unix_microseconds as int)),
    {
        DateTimeStruct::from_date_time(self).to_rfc2822()
    }

    /// `2024-01-04 14:45:39`
    pub fn to_compact_date_time_string(&self) -> (r: String)
        ensures
            r@ == compact_text(date_time_struct_of(self.unix_microseconds as int)),
    {
        DateTimeStruct::from_date_time(self).to_compact_date_time_string()
    }
}

impl DateTimeStruct {
    /// The instant the fields name; `None` when they are no valid date and time or the
    /// instant does not fit.
    pub fn to_date_time_as_microseconds(&self) -> (r: Option<DateTimeAsMicroseconds>)
        ensures
            r == (if self.is_valid() && i64::MIN <= self.unix_micros() <= i64::MAX {
                Some(DateTimeAsMicroseconds { unix_microseconds: self.unix_micros() as i64 })
            } else {
                None::<DateTimeAsMicroseconds>
            }),
    {
        match self.to_unix_microseconds() {
            Some(v) => Some(DateTimeAsMicroseconds::new(v)),
            None => None,
        }
    }

    /// The calendar fields of an instant, in UTC.
    pub fn from_date_time(src: &DateTimeAsMicroseconds) -> (r: DateTimeStruct)
        ensures
            r == date_time_struct_of(src.unix_microseconds as int),
            r.represents(src.unix_microseconds as int),
            year_in_range(r.year as int),
    {
        DateTimeStruct::from_unix_microseconds(src.unix_microseconds)
    }
}

impl From<i64> for DateTimeAsMicroseconds {
    /// See `micros_from_number`.
    fn from(src: i64) -> (r: Self) {
        Self::from_i64(src)
    }
}

impl vstd::std_specs::convert::FromSpecImpl<i64> for DateTimeAsMicroseconds {
    open spec fn obeys_from_spec() -> bool {
        true
    }

    open spec fn from_spec(v: i64) -> Self {
        DateTimeAsMicroseconds { unix_microseconds: micros_from_number(v as int) as i64 }
    }
}

impl From<u64> for DateTimeAsMicroseconds {
    /// The `i64` with the same bits, read by `micros_from_number`.
    fn from(src: u64) -> (r: Self) {
        Self::from_u64(src)
    }
}

impl vstd::std_specs::convert::FromSpecImpl<u64> for DateTimeAsMicroseconds {
    open spec fn obeys_from_spec() -> bool {
        true
    }

    open spec fn from_spec(v: u64) -> Self {
        DateTimeAsMicroseconds { unix_microseconds: micros_from_number(v as i64 as int) as i64 }
    }
}

impl From<&DateTimeAsMicroseconds> for DateTimeStruct {
    fn from(src: &DateTimeAsMicroseconds) -> (r: Self) {
        DateTimeStruct::from_date_time(src)
    }
}

impl vstd::std_specs::convert::FromSpecImpl<&DateTimeAsMicroseconds> for DateTimeStruct {
    open spec fn obeys_from_spec() -> bool {
        true
    }

    open spec fn from_spec(v: &DateTimeAsMicroseconds) -> Self {
        date_time_struct_of(v.unix_microseconds as int)
    }
}

impl From<DateTimeAsMicroseconds> for DateTimeStruct {
    fn from(src: DateTimeAsMicroseconds) -> (r: Self) {
        DateTimeStruct::from_date_time(&src)
    }
}

impl vstd::std_specs::convert::FromSpecImpl<DateTimeAsMicroseconds> for DateTimeStruct {
    open spec fn obeys_from_spec() -> bool {
        true
    }

    open spec fn from_spec(v: DateTimeAsMicroseconds) -> Self {
        date_time_struct_of(v.unix_microseconds as int)
    }
}

impl std::ops::Sub<DateTimeAsMicroseconds> for DateTimeAsMicroseconds {
    type Output = DateTimeDuration;

    /// The span from `before` to `self`.
    fn sub(self, before: DateTimeAsMicroseconds) -> (r: DateTimeDuration)
        ensures
            r.is_exact_span(self.unix_microseconds - before.unix_microseconds),
    {
        self.duration_since(before)
    }
}

impl vstd::std_specs::ops::SubSpecImpl<DateTimeAsMicroseconds> for DateTimeAsMicroseconds {
    open spec fn obeys_sub_spec() -> bool {
        false
    }

    open spec fn sub_req(self, rhs: DateTimeAsMicroseconds) -> bool {
        i64::MIN <= self.unix_microseconds - rhs.unix_microseconds <= i64::MAX
    }

    open spec fn sub_spec(self, rhs: DateTimeAsMicroseconds) -> DateTimeDuration {
        DateTimeDuration::Zero
    }
}

/// The bytes of what `str::trim` leaves of a string.
pub open spec fn trim_spec_bytes(s: Seq<char>) -> Seq<u8> {
    vstd::utf8::encode_utf8(trimmed(s))
}

} // verus!
