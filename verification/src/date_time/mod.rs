pub mod calendar;
pub mod date_time_struct;
pub mod utils;
pub mod parse_rfc3339;
pub mod duration_units;
pub mod as_microseconds;
pub mod date_time_duration;
pub mod format;
pub mod interval_key;
pub mod rfc_5322;
pub mod rfc3339_text;
pub mod chrono_bridge;
pub mod time_zone;
pub mod date_time_with_time_zone;

pub use as_microseconds::DateTimeAsMicroseconds;
pub use date_time_duration::{ClientServerTimeDifference, DateTimeDuration};
pub use date_time_struct::{
    DateTimeStruct, DayOfWeek, TimeStruct, MICRO_SECONDS_IN_ONE_DAY, MICRO_SECONDS_IN_ONE_HOUR,
    MICRO_SECONDS_IN_ONE_MINUTE, MICRO_SECONDS_IN_ONE_SECOND,
};
pub use date_time_with_time_zone::DateTimeAsMicrosecondsWithTimeZone;
pub use interval_key::date_time_interval::DateTimeInterval;
pub use interval_key::interval_key::IntervalKey;
pub use interval_key::interval_key_option::{
    DayKey, Hour2Key, Hour4Key, HourKey, IntervalKeyOption, Minute15Key, Minute30Key, Minute5Key,
    MinuteKey, MonthKey, WeekMondayKey, WeekSundayKey, YearKey,
};
pub use time_zone::TimeZone;
pub mod laws;
pub mod weekday_laws;
pub mod offset_laws;
