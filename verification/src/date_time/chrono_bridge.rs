//! The calls into `chrono`: writing and reading RFC 3339 text.
use super::as_microseconds::DateTimeAsMicroseconds;
use super::calendar::{days_from_civil, is_valid_date};
use super::date_time_struct::date_time_struct_of;
use super::rfc3339_text::{auto_fraction_text, fixed_digits, offset_text, rfc3339_seconds_text, rfc3339_utc_text};
use vstd::prelude::*;

verus! {

/// The instants `chrono` represents: its dates run from the year -262143 to the year 262142
/// (`NaiveDate::MIN` and `NaiveDate::MAX`).
pub open spec fn in_chrono_range(unix_micros: int) -> bool {
    days_from_civil(-262143, 1, 1) * 86_400_000_000 <= unix_micros < days_from_civil(262143, 1, 1)
        * 86_400_000_000
}

/// Whether `chrono` represents the instant: the check to make before asking it for text.
pub fn is_in_chrono_range(unix_micros: i64) -> (r: bool)
    ensures
        r == in_chrono_range(unix_micros as int),
{
    proof {
        assert(days_from_civil(-262143, 1, 1) == -96465292);
        assert(days_from_civil(262143, 1, 1) == 95026237);
    }
    -8_334_601_228_800_000_000 <= unix_micros && unix_micros < 8_210_266_876_800_000_000
}

/// What `DateTime<Utc>::to_rfc3339` writes for an instant, e.g.
/// `2021-04-25T17:30:03.123456+00:00` (the fraction as short as the value allows).
pub uninterp spec fn chrono_rfc3339(unix_micros: int) -> Seq<char>;

/// What `DateTime<Utc>::to_rfc3339_opts(SecondsFormat::Micros, true)` writes for an instant,
/// e.g. `2021-04-25T17:30:03.000000Z`.
pub uninterp spec fn chrono_rfc3339_micros_z(unix_micros: int) -> Seq<char>;

/// What `to_rfc3339_opts(SecondsFormat::Micros, false)` writes for an instant shown in the
/// fixed offset of `offset_seconds` east of UTC, e.g. `2021-04-25T18:30:03.000000+01:00`.
pub uninterp spec fn chrono_rfc3339_micros_offset(unix_micros: int, offset_seconds: int) -> Seq<
    char,
>;

/// What `DateTime::parse_from_rfc3339` reads from a text: the instant in microseconds since
/// the unix epoch (`timestamp_micros`) and the offset in seconds east of UTC
/// (`local_minus_utc`), or `None` when the text is refused.
pub uninterp spec fn chrono_parse_rfc3339(s: Seq<char>) -> Option<(i64, i32)>;

/// `NaiveDate::from_ymd_opt(year, month, day)`, then `and_hms_milli_opt(hour, minute,
/// second, 0)` and `and_utc().timestamp_millis()`: the milliseconds since the unix epoch of a
/// real date of the years `chrono` represents at a real time of day, `None` for anything else.
#[verifier::external_body]
pub(crate) fn chrono_timestamp_millis(
    year: i32,
    month: u32,
    day: u32,
    hour: u32,
    minute: u32,
    second: u32,
) -> (r: Option<i64>)
    ensures
        r is Some <==> (-262143 <= year <= 262142 && is_valid_date(
            year as int,
            month as int,
            day as int,
        ) && hour < 24 && minute < 60 && second < 60),
        r matches Some(millis) ==> millis == days_from_civil(year as int, month as int, day as int)
            * 86_400_000 + hour * 3_600_000 + minute * 60_000 + second * 1_000,
{
    match chrono::NaiveDate::from_ymd_opt(year, month, day) {
        Some(date) => match date.and_hms_milli_opt(hour, minute, second, 0) {
            Some(date_time) => Some(date_time.and_utc().timestamp_millis()),
            None => None,
        },
        None => None,
    }
}

/// `DateTime::<Utc>::from_timestamp_micros(..)` then `to_rfc3339()`. The instant is in the
/// range `chrono` represents, so the timestamp converts. For the years 0 to 9999 `chrono`
/// writes the year as four digits, every other field as two, the shortest fraction that
/// holds the sub-second part (`SecondsFormat::AutoSi`) and the zero offset as `+00:00` (its
/// `write_rfc3339`); other years it writes with a sign, which is left unsaid here.
#[verifier::external_body]
fn rfc3339_of(unix_micros: i64) -> (r: String)
    requires
        in_chrono_range(unix_micros as int),
    ensures
        r@ == chrono_rfc3339(unix_micros as int),
        0 <= date_time_struct_of(unix_micros as int).year <= 9999 ==> r@ == rfc3339_seconds_text(
            date_time_struct_of(unix_micros as int),
        ) + auto_fraction_text(date_time_struct_of(unix_micros as int).time.micros as nat)
            + offset_text(0),
{
    match chrono::DateTime::from_timestamp_micros(unix_micros) {
        Some(date_time) => date_time.to_rfc3339(),
        None => String::new(),
    }
}

/// `DateTime::<Utc>::from_timestamp_micros(..)` then
/// `to_rfc3339_opts(SecondsFormat::Micros, true)`. For the years 0 to 9999 `chrono` writes
/// the year as four digits, every other field as two, the microseconds as six and the zero
/// offset as `Z` (its `write_rfc3339`); other years it writes with a sign, which is left
/// unsaid here.
#[verifier::external_body]
fn rfc3339_micros_z_of(unix_micros: i64) -> (r: String)
    requires
        in_chrono_range(unix_micros as int),
    ensures
        r@ == chrono_rfc3339_micros_z(unix_micros as int),
        0 <= date_time_struct_of(unix_micros as int).year <= 9999 ==> r@ == rfc3339_utc_text(
            date_time_struct_of(unix_micros as int),
        ),
{
    match chrono::DateTime::from_timestamp_micros(unix_micros) {
        Some(date_time) => date_time.to_rfc3339_opts(chrono::SecondsFormat::Micros, true),
        None => String::new(),
    }
}

/// `from_timestamp_micros`, `with_timezone(&FixedOffset::east_opt(offset_seconds))` and
/// `to_rfc3339_opts(SecondsFormat::Micros, false)`. The offset is one `FixedOffset` takes
/// and the local time stays in the range `chrono` represents, so nothing here fails. For
/// local times of the years 0 to 9999 `chrono` writes the local date and time with a
/// four-digit year and two-digit fields, six digits of microseconds and the offset as
/// `+hh:mm` or `-hh:mm` (its `write_rfc3339`); other years it writes with a sign, which is
/// left unsaid here.
#[verifier::external_body]
pub(crate) fn rfc3339_micros_offset_of(unix_micros: i64, offset_seconds: i32) -> (r: String)
    requires
        in_chrono_range(unix_micros as int),
        in_chrono_range(unix_micros + offset_seconds * 1_000_000),
        -86_400 < offset_seconds < 86_400,
    ensures
        r@ == chrono_rfc3339_micros_offset(unix_micros as int, offset_seconds as int),
        ({
            let local = date_time_struct_of(unix_micros + offset_seconds * 1_000_000);
            0 <= local.year <= 9999 ==> r@ == rfc3339_seconds_text(local) + seq!['.']
                + fixed_digits(local.time.micros as nat, 6) + offset_text(offset_seconds as int)
        }),
{
    match (
        chrono::DateTime::from_timestamp_micros(unix_micros),
        chrono::FixedOffset::east_opt(offset_seconds),
    ) {
        (Some(date_time), Some(offset)) => date_time.with_timezone(&offset).to_rfc3339_opts(
            chrono::SecondsFormat::Micros,
            false,
        ),
        _ => String::new(),
    }
}

/// `DateTime::parse_from_rfc3339`, its result taken apart into `timestamp_micros()` and
/// `offset().local_minus_utc()`. A `FixedOffset` always lies within a day of UTC.
#[verifier::external_body]
pub(crate) fn parse_rfc3339_with_offset(src: &str) -> (r: Option<(i64, i32)>)
    ensures
        r == chrono_parse_rfc3339(src@),
        r matches Some(p) ==> -86_400 < p.1 < 86_400,
{
    match chrono::DateTime::parse_from_rfc3339(src) {
        Ok(date_time) => Some((date_time.timestamp_micros(), date_time.offset().local_minus_utc())),
        Err(_) => None,
    }
}

impl DateTimeAsMicroseconds {
    /// RFC 3339 as `chrono` writes it, with the offset `+00:00`.
    pub fn to_rfc3339(&self) -> (r: String)
        requires
            in_chrono_range(self.unix_microseconds as int),
        ensures
            r@ == chrono_rfc3339(self.unix_microseconds as int),
            0 <= date_time_struct_of(self.unix_microseconds as int).year <= 9999 ==> r@
                == rfc3339_seconds_text(date_time_struct_of(self.unix_microseconds as int))
                + auto_fraction_text(
                date_time_struct_of(self.unix_microseconds as int).time.micros as nat,
            ) + offset_text(0),
    {
        rfc3339_of(self.unix_microseconds)
    }

    /// RFC 3339 in UTC with a `Z` and six digits of fraction, so that text order is time
    /// order: `2021-04-25T17:30:03.000000Z`.
    pub fn to_rfc3339_utc(&self) -> (r: String)
        requires
            in_chrono_range(self.unix_microseconds as int),
        ensures
            r@ == chrono_rfc3339_micros_z(self.unix_microseconds as int),
            0 <= date_time_struct_of(self.unix_microseconds as int).year <= 9999 ==> r@
                == rfc3339_utc_text(date_time_struct_of(self.unix_microseconds as int)),
    {
        rfc3339_micros_z_of(self.unix_microseconds)
    }
}

} // verus!
