//! `std::time::Duration` as the library reads it: a whole amount of nanoseconds.
use std::time::Duration;
use vstd::prelude::*;

verus! {

/// The length of a `Duration` in nanoseconds, as `Duration::as_nanos` reports it.
pub uninterp spec fn duration_nanos(d: Duration) -> u128;

/// The length of a `Duration` in whole microseconds.
pub open spec fn duration_micros(d: Duration) -> int {
    (duration_nanos(d) / 1000) as int
}

/// `Duration::as_nanos`: the whole length of the duration in nanoseconds.
#[verifier::external_body]
pub(crate) fn duration_as_nanos(d: &Duration) -> (r: u128)
    ensures
        r == duration_nanos(*d),
{
    d.as_nanos()
}

/// `Duration::from_micros`: a duration of `micros` microseconds.
#[verifier::external_body]
pub(crate) fn duration_from_micros(micros: u64) -> (r: Duration)
    ensures
        duration_nanos(r) == micros * 1000,
{
    Duration::from_micros(micros)
}

/// `Duration::from_secs`: a duration of `secs` seconds.
#[verifier::external_body]
pub(crate) fn duration_from_secs(secs: u64) -> (r: Duration)
    ensures
        duration_nanos(r) == secs * 1_000_000_000,
{
    Duration::from_secs(secs)
}

/// The whole microseconds of a duration (what `Duration::as_micros` gives).
pub fn duration_as_micros(d: &Duration) -> (r: u128)
    ensures
        r == duration_micros(*d),
{
    duration_as_nanos(d) / 1000
}

} // verus!
