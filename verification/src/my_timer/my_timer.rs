//! A timer that sleeps a fixed interval between rounds of ticks: its registry, and which
//! ticks a round runs again at once.
use std::time::Duration;

use super::my_timer_tick::RepeatTimerIteration;
use crate::date_time::duration_units::{duration_from_secs, duration_nanos};
use crate::exact_timer::my_exact_timer::has_name;
use vstd::prelude::*;

verus! {

/// The registry of a timer: the interval between rounds, the ticks by name, the time one
/// iteration may take and whether the first round waits an interval. Running the ticks is
/// the caller's.
pub struct MyTimer<TTick> {
    interval: Duration,
    timers: Vec<(String, TTick)>,
    iteration_timeout: Duration,
    delay_before_first_tick: bool,
}

impl<TTick> MyTimer<TTick> {
    pub closed spec fn interval(&self) -> Duration {
        self.interval
    }

    pub closed spec fn timers(&self) -> Seq<(String, TTick)> {
        self.timers@
    }

    pub closed spec fn iteration_timeout(&self) -> Duration {
        self.iteration_timeout
    }

    pub closed spec fn delay_before_first_tick(&self) -> bool {
        self.delay_before_first_tick
    }

    /// A timer with no ticks, an iteration timeout of a minute, whose first round waits.
    pub fn new(interval: Duration) -> (r: Self)
        ensures
            r.interval() == interval,
            r.timers() == Seq::<(String, TTick)>::empty(),
            duration_nanos(r.iteration_timeout()) == 60_000_000_000,
            r.delay_before_first_tick(),
    {
        Self {
            interval,
            timers: Vec::new(),
            iteration_timeout: duration_from_secs(60),
            delay_before_first_tick: true,
        }
    }

    pub fn set_iteration_timeout(&mut self, iteration_timeout: Duration)
        ensures
            final(self).iteration_timeout() == iteration_timeout,
            final(self).interval() == old(self).interval(),
            final(self).timers() == old(self).timers(),
            final(self).delay_before_first_tick() == old(self).delay_before_first_tick(),
    {
        self.iteration_timeout = iteration_timeout;
    }

    pub fn new_with_execute_timeout(interval: Duration, iteration_timeout: Duration) -> (r: Self)
        ensures
            r.interval() == interval,
            r.timers() == Seq::<(String, TTick)>::empty(),
            r.iteration_timeout() == iteration_timeout,
            r.delay_before_first_tick(),
    {
        Self { interval, timers: Vec::new(), iteration_timeout, delay_before_first_tick: true }
    }

    /// The first round runs at once instead of after an interval.
    pub fn set_first_tick_before_delay(&mut self)
        ensures
            !final(self).delay_before_first_tick(),
            final(self).interval() == old(self).interval(),
            final(self).timers() == old(self).timers(),
            final(self).iteration_timeout() == old(self).iteration_timeout(),
    {
        self.delay_before_first_tick = false;
    }

    /// Whether a tick of the name is registered.
    pub fn is_registered(&self, name: &str) -> (r: bool)
        ensures
            r == has_name(self.timers(), name@),
    {
        let name_string = name.to_owned();
        let mut i: usize = 0;
        while i < self.timers.len()
            invariant
                i <= self.timers@.len(),
                name_string@ == name@,
                forall|j: int| 0 <= j < i ==> (#[trigger] self.timers@[j]).0@ != name@,
            decreases self.timers@.len() - i,
        {
            if self.timers[i].0 == name_string {
                return true;
            }
            i = i + 1;
        }
        false
    }

    /// Registers a tick under a name no other tick has (registering a name twice is a fault).
    pub fn register_timer(&mut self, name: &str, my_timer_tick: TTick)
        requires
            !has_name(old(self).timers(), name@),
        ensures
            final(self).timers() == old(self).timers().push(
                (final(self).timers().last().0, my_timer_tick),
            ),
            final(self).timers().last().0@ == name@,
            final(self).interval() == old(self).interval(),
            final(self).iteration_timeout() == old(self).iteration_timeout(),
            final(self).delay_before_first_tick() == old(self).delay_before_first_tick(),
    {
        self.timers.push((name.to_owned(), my_timer_tick));
    }

    pub fn get_interval(&self) -> (r: Duration)
        ensures
            r == self.interval(),
    {
        self.interval
    }

    pub fn get_iteration_timeout(&self) -> (r: Duration)
        ensures
            r == self.iteration_timeout(),
    {
        self.iteration_timeout
    }

    pub fn get_delay_before_first_tick(&self) -> (r: bool)
        ensures
            r == self.delay_before_first_tick(),
    {
        self.delay_before_first_tick
    }

    /// The registered ticks, in the order of registration.
    pub fn get_timers(&self) -> (r: &Vec<(String, TTick)>)
        ensures
            r@ == self.timers(),
    {
        &self.timers
    }
}

/// The ticks a round runs again at once: those that answered `Immediately`, in their order.
/// A tick that answered `WithInterval` keeps its schedule; one that panicked or timed out
/// (no answer) is not repeated either.
pub open spec fn repeated<T>(ticks: Seq<T>, answers: Seq<Option<RepeatTimerIteration>>) -> Seq<T>
    decreases ticks.len(),
{
    if ticks.len() == 0 {
        seq![]
    } else {
        let rest = repeated(ticks.drop_last(), answers.take(ticks.len() - 1));
        if answers[ticks.len() - 1] == Some(RepeatTimerIteration::Immediately) {
            rest.push(ticks.last())
        } else {
            rest
        }
    }
}

/// Picks the ticks to run again at once from the answers of a round.
pub fn ticks_to_repeat<T: Copy>(ticks: &Vec<T>, answers: &Vec<Option<RepeatTimerIteration>>) -> (r:
    Vec<T>)
    requires
        ticks@.len() == answers@.len(),
    ensures
        r@ == repeated(ticks@, answers@),
{
    let mut result: Vec<T> = Vec::new();
    let mut i: usize = 0;
    while i < ticks.len()
        invariant
            i <= ticks@.len(),
            ticks@.len() == answers@.len(),
            result@ == repeated(ticks@.take(i as int), answers@.take(i as int)),
        decreases ticks@.len() - i,
    {
        proof {
            assert(ticks@.take(i + 1).drop_last() =~= ticks@.take(i as int));
            assert(answers@.take(i + 1).take(i as int) =~= answers@.take(i as int));
        }
        match answers[i] {
            Some(answer) => {
                if answer.is_immediately() {
                    result.push(ticks[i]);
                }
            },
            None => {},
        }
        i = i + 1;
    }
    assert(ticks@.take(ticks@.len() as int) =~= ticks@);
    assert(answers@.take(answers@.len() as int) =~= answers@);
    result
}

} // verus!
