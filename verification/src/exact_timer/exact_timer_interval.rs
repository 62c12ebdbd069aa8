//! The intervals an exact timer fires at: each divides a minute or an hour, so that marks
//! aligned to the unix epoch land on the natural wall clock marks.
use std::time::Duration;

use crate::date_time::duration_units::{duration_from_secs, duration_micros, duration_nanos};
use vstd::prelude::*;

verus! {

#[derive(Debug, Clone, Copy, PartialEq, Eq, Structural)]
pub enum ExactTimerInterval {
    Every1Second,
    Every5Seconds,
    Every10Seconds,
    Every15Seconds,
    Every20Seconds,
    Every30Seconds,
    Every1Minute,
    Every5Minutes,
    Every10Minutes,
    Every15Minutes,
    Every20Minutes,
    Every30Minutes,
}

impl ExactTimerInterval {
    /// The length of the interval in seconds.
    pub open spec fn seconds(self) -> int {
        match self {
            ExactTimerInterval::Every1Second => 1,
            ExactTimerInterval::Every5Seconds => 5,
            ExactTimerInterval::Every10Seconds => 10,
            ExactTimerInterval::Every15Seconds => 15,
            ExactTimerInterval::Every20Seconds => 20,
            ExactTimerInterval::Every30Seconds => 30,
            ExactTimerInterval::Every1Minute => 60,
            ExactTimerInterval::Every5Minutes => 300,
            ExactTimerInterval::Every10Minutes => 600,
            ExactTimerInterval::Every15Minutes => 900,
            ExactTimerInterval::Every20Minutes => 1200,
            ExactTimerInterval::Every30Minutes => 1800,
        }
    }

    pub fn get_duration(&self) -> (r: Duration)
        ensures
            duration_nanos(r) == self.seconds() * 1_000_000_000,
    {
        match self {
            ExactTimerInterval::Every1Second => duration_from_secs(1),
            ExactTimerInterval::Every5Seconds => duration_from_secs(5),
            ExactTimerInterval::Every10Seconds => duration_from_secs(10),
            ExactTimerInterval::Every15Seconds => duration_from_secs(15),
            ExactTimerInterval::Every20Seconds => duration_from_secs(20),
            ExactTimerInterval::Every30Seconds => duration_from_secs(30),
            ExactTimerInterval::Every1Minute => duration_from_secs(60),
            ExactTimerInterval::Every5Minutes => duration_from_secs(5 * 60),
            ExactTimerInterval::Every10Minutes => duration_from_secs(10 * 60),
            ExactTimerInterval::Every15Minutes => duration_from_secs(15 * 60),
            ExactTimerInterval::Every20Minutes => duration_from_secs(20 * 60),
            ExactTimerInterval::Every30Minutes => duration_from_secs(30 * 60),
        }
    }

    /// The length of the interval in microseconds.
    pub fn get_duration_micros(&self) -> (r: u64)
        ensures
            r == self.seconds() * 1_000_000,
    {
        let d = self.get_duration();
        crate::date_time::duration_units::duration_as_micros(&d) as u64
    }
}

} // verus!
