//! A timer that fires exactly on the wall clock marks of its interval: its registry of
//! ticks, and the arithmetic that picks the next mark and how long to sleep towards it.
use std::time::Duration;

use super::exact_timer_interval::ExactTimerInterval;
use crate::date_time::duration_units::{duration_as_nanos, duration_from_secs, duration_nanos};
use vstd::prelude::*;

verus! {

/// The next multiple of `interval_micros` strictly after `now_micros` (marks are aligned
/// to the unix epoch).
pub fn get_next_tick_micros(now_micros: u64, interval_micros: u64) -> (r: u64)
    requires
        interval_micros > 0,
        (now_micros / interval_micros + 1) * interval_micros <= u64::MAX,
    ensures
        r == (now_micros / interval_micros + 1) * interval_micros,
{
    let q = now_micros / interval_micros;
    assert(q + 1 <= (q + 1) * interval_micros) by (nonlinear_arith)
        requires
            interval_micros >= 1,
            q >= 0,
    ;
    (q + 1) * interval_micros
}

/// Keeps the wait within one interval: a target more than one interval away (the clock went
/// back) is moved to the next mark after `now_micros`; any other target stays.
pub fn realign_target_on_clock_jump(target_micros: u64, now_micros: u64, interval_micros: u64) -> (r:
    u64)
    requires
        interval_micros > 0,
        (now_micros / interval_micros + 1) * interval_micros <= u64::MAX,
    ensures
        r == (if target_micros > now_micros && target_micros - now_micros > interval_micros {
            (now_micros / interval_micros + 1) * interval_micros
        } else {
            target_micros as int
        }),
{
    let distance = if target_micros > now_micros {
        target_micros - now_micros
    } else {
        0
    };
    if distance > interval_micros {
        get_next_tick_micros(now_micros, interval_micros)
    } else {
        target_micros
    }
}

/// How long to sleep while `remaining` is left to the mark: ten, five or one second while
/// more than that is left, else exactly what is left.
pub fn get_sleep_chunk(remaining: Duration) -> (r: Duration)
    ensures
        duration_nanos(r) == (if duration_nanos(remaining) > 10_000_000_000 {
            10_000_000_000
        } else if duration_nanos(remaining) > 5_000_000_000 {
            5_000_000_000
        } else if duration_nanos(remaining) > 1_000_000_000 {
            1_000_000_000
        } else {
            duration_nanos(remaining) as int
        }),
        duration_nanos(remaining) <= 1_000_000_000 ==> r == remaining,
{
    let nanos = duration_as_nanos(&remaining);
    if nanos > 10_000_000_000 {
        duration_from_secs(10)
    } else if nanos > 5_000_000_000 {
        duration_from_secs(5)
    } else if nanos > 1_000_000_000 {
        duration_from_secs(1)
    } else {
        remaining
    }
}

/// What the timer does next while it waits for a mark.
pub enum SleepStep {
    /// The mark is reached: fire.
    Fire,
    /// Sleep this long, then look again, aiming at `target_micros`.
    Sleep { target_micros: u64, chunk: Duration },
}

/// The next tick lies strictly after `now`, on a mark, at most one interval away: a tick
/// that ends right on a mark schedules the following one.
pub proof fn lemma_next_mark(now: int, interval: int)
    requires
        now >= 0,
        interval > 0,
    ensures
        now < (now / interval + 1) * interval <= now + interval,
        ((now / interval + 1) * interval) % interval == 0,
{
    let q = now / interval;
    vstd::arithmetic::div_mod::lemma_fundamental_div_mod(now, interval);
    assert(now < (q + 1) * interval <= now + interval) by (nonlinear_arith)
        requires
            now == interval * q + now % interval,
            0 <= now % interval < interval,
    ;
    vstd::arithmetic::div_mod::lemma_mod_multiples_basic(q + 1, interval);
}

/// The marks of an interval of a whole number of seconds that divides a minute fall on
/// seconds of the minute that the interval divides, and those of an interval of a whole
/// number of minutes that divides an hour fall on whole minutes that it divides.
pub proof fn law_marks_on_wall_clock(interval: ExactTimerInterval, mark: int)
    requires
        mark >= 0,
        mark % (interval.seconds() * 1_000_000) == 0,
    ensures
        mark % 1_000_000 == 0,
        interval.seconds() < 60 ==> ((mark / 1_000_000) % 60) % interval.seconds() == 0,
        interval.seconds() >= 60 ==> mark % 60_000_000 == 0 && ((mark / 60_000_000) % 60) % (
        interval.seconds() / 60) == 0,
{
    let secs = interval.seconds();
    let k = mark / (secs * 1_000_000);
    vstd::arithmetic::div_mod::lemma_fundamental_div_mod(mark, secs * 1_000_000);
    assert(mark == k * secs * 1_000_000) by (nonlinear_arith)
        requires
            mark == (secs * 1_000_000) * k + mark % (secs * 1_000_000),
            mark % (secs * 1_000_000) == 0,
    ;
    assert(mark % 1_000_000 == 0 && mark / 1_000_000 == k * secs) by {
        vstd::arithmetic::div_mod::lemma_fundamental_div_mod_converse(
            mark,
            1_000_000,
            k * secs,
            0,
        );
    }
    if secs < 60 {
        let m = 60int / secs;
        assert(60 == m * secs);
        assert(((k * secs) % 60) % secs == 0) by {
            vstd::arithmetic::div_mod::lemma_fundamental_div_mod(k * secs, 60);
            let r = (k * secs) % 60;
            let q = (k * secs) / 60;
            assert(r == (k - q * m) * secs) by (nonlinear_arith)
                requires
                    k * secs == 60 * q + r,
                    60 == m * secs,
            ;
            vstd::arithmetic::div_mod::lemma_mod_multiples_basic(k - q * m, secs);
        }
    } else {
        let mins = secs / 60;
        let m = 60int / mins;
        assert(secs == 60 * mins && 60 == m * mins) by {
            if secs == 60 {
                assert(mins == 1 && m == 60);
            } else if secs == 300 {
                assert(mins == 5 && m == 12);
            } else if secs == 600 {
                assert(mins == 10 && m == 6);
            } else if secs == 900 {
                assert(mins == 15 && m == 4);
            } else if secs == 1200 {
                assert(mins == 20 && m == 3);
            } else {
                assert(secs == 1800);
                assert(mins == 30);
                assert(m == 2);
            }
        }
        assert(mark == (k * mins) * 60_000_000) by (nonlinear_arith)
            requires
                mark == k * secs * 1_000_000,
                secs == 60 * mins,
        ;
        vstd::arithmetic::div_mod::lemma_fundamental_div_mod_converse(
            mark,
            60_000_000,
            k * mins,
            0,
        );
        assert(((k * mins) % 60) % mins == 0) by {
            vstd::arithmetic::div_mod::lemma_fundamental_div_mod(k * mins, 60);
            let r = (k * mins) % 60;
            let q = (k * mins) / 60;
            assert(r == (k - q * m) * mins) by (nonlinear_arith)
                requires
                    k * mins == 60 * q + r,
                    60 == m * mins,
            ;
            vstd::arithmetic::div_mod::lemma_mod_multiples_basic(k - q * m, mins);
        }
    }
}

/// How many nanoseconds one sleep takes while `remaining` nanoseconds are left to the mark
/// (what `get_sleep_chunk` picks).
pub open spec fn sleep_chunk_nanos(remaining: int) -> int {
    if remaining > 10_000_000_000 {
        10_000_000_000
    } else if remaining > 5_000_000_000 {
        5_000_000_000
    } else if remaining > 1_000_000_000 {
        1_000_000_000
    } else {
        remaining
    }
}

/// One step of the wait for the mark `target_micros` at the time `now_micros`.
pub fn next_sleep_step(target_micros: u64, now_micros: u64, interval_micros: u64) -> (r: SleepStep)
    requires
        interval_micros > 0,
        (now_micros / interval_micros + 1) * interval_micros <= u64::MAX,
    ensures
        now_micros >= target_micros <==> r is Fire,
        r matches SleepStep::Sleep { target_micros: t, chunk } ==> t == (if target_micros
            - now_micros > interval_micros {
            (now_micros / interval_micros + 1) * interval_micros
        } else {
            target_micros as int
        }) && now_micros < t <= now_micros + interval_micros && duration_nanos(chunk) <= (t
            - now_micros) * 1000 && duration_nanos(chunk) <= 10_000_000_000 && duration_nanos(chunk)
            > 0 && duration_nanos(chunk) == sleep_chunk_nanos((t - now_micros) * 1000),
{
    if now_micros >= target_micros {
        return SleepStep::Fire;
    }
    let target = realign_target_on_clock_jump(target_micros, now_micros, interval_micros);
    proof {
        lemma_next_mark(now_micros as int, interval_micros as int);
    }
    let remaining = crate::date_time::duration_units::duration_from_micros(target - now_micros);
    SleepStep::Sleep { target_micros: target, chunk: get_sleep_chunk(remaining) }
}

/// Where the loop of an exact timer stands.
pub enum ExactTimerState {
    /// The application is not initialized yet: nothing runs.
    WaitingForStart,
    /// Between passes: the next wait starts from the time of the next step.
    Idle,
    /// Waiting for the mark `target_micros`.
    Waiting { target_micros: u64 },
    /// The application shuts down: the loop is over.
    Stopped,
}

/// What the loop of an exact timer does after a step.
pub enum ExactTimerAction {
    /// Sleep a second, then look at the application again.
    WaitForStart,
    /// Sleep this long, then step again.
    Sleep(Duration),
    /// Run one pass: each registered tick once.
    RunTicks,
    /// End the loop.
    Stop,
}

/// Every mark the state waits for lies on the grid of the interval.
pub open spec fn waits_on_marks(state: ExactTimerState, interval_micros: int) -> bool {
    state matches ExactTimerState::Waiting { target_micros } ==> (target_micros as int)
        % interval_micros == 0
}

/// The start of a wait at the time `now`: none once the application shuts down, else the
/// wait for the next mark after `now`, with its first sleep.
pub open spec fn starts_wait(
    r: (ExactTimerState, ExactTimerAction),
    shutting_down: bool,
    now: int,
    interval: int,
) -> bool {
    if shutting_down {
        r == (ExactTimerState::Stopped, ExactTimerAction::Stop)
    } else {
        let mark = (now / interval + 1) * interval;
        &&& r.0 == ExactTimerState::Waiting { target_micros: mark as u64 }
        &&& r.1 matches ExactTimerAction::Sleep(chunk) && duration_nanos(chunk)
            == sleep_chunk_nanos((mark - now) * 1000)
    }
}

/// What one step of the loop of an exact timer does, from what it sees at the time `now`:
/// the next state and the action, `r`. Before the application is initialized the timer
/// only waits for it. Then it waits for the next mark after the time the wait starts,
/// sleeping in chunks and realigning after a backward jump of the clock; at the mark it
/// runs one pass, and the next wait starts after the pass. It stops once the application
/// shuts down, and from then on stays stopped.
pub open spec fn exact_timer_steps_to(
    state: ExactTimerState,
    initialized: bool,
    shutting_down: bool,
    now: int,
    interval: int,
    r: (ExactTimerState, ExactTimerAction),
) -> bool {
    match state {
        ExactTimerState::WaitingForStart => if !initialized {
            r == (ExactTimerState::WaitingForStart, ExactTimerAction::WaitForStart)
        } else {
            starts_wait(r, shutting_down, now, interval)
        },
        ExactTimerState::Idle => starts_wait(r, shutting_down, now, interval),
        ExactTimerState::Waiting { target_micros } => if shutting_down {
            r == (ExactTimerState::Stopped, ExactTimerAction::Stop)
        } else if now >= target_micros {
            r == (ExactTimerState::Idle, ExactTimerAction::RunTicks)
        } else {
            let t = if target_micros - now > interval {
                (now / interval + 1) * interval
            } else {
                target_micros as int
            };
            &&& r.0 == ExactTimerState::Waiting { target_micros: t as u64 }
            &&& r.1 matches ExactTimerAction::Sleep(chunk) && duration_nanos(chunk)
                == sleep_chunk_nanos((t - now) * 1000)
        },
        ExactTimerState::Stopped => r == (ExactTimerState::Stopped, ExactTimerAction::Stop),
    }
}

/// One step of the loop of an exact timer (see `exact_timer_steps_to`).
pub fn exact_timer_step(
    state: ExactTimerState,
    initialized: bool,
    shutting_down: bool,
    now_micros: u64,
    interval_micros: u64,
) -> (r: (ExactTimerState, ExactTimerAction))
    requires
        interval_micros > 0,
        (now_micros / interval_micros + 1) * interval_micros <= u64::MAX,
    ensures
        exact_timer_steps_to(
            state,
            initialized,
            shutting_down,
            now_micros as int,
            interval_micros as int,
            r,
        ),
{
    proof {
        lemma_next_mark(now_micros as int, interval_micros as int);
    }
    match state {
        ExactTimerState::WaitingForStart => {
            if !initialized {
                return (ExactTimerState::WaitingForStart, ExactTimerAction::WaitForStart);
            }
            start_wait(shutting_down, now_micros, interval_micros)
        },
        ExactTimerState::Idle => start_wait(shutting_down, now_micros, interval_micros),
        ExactTimerState::Waiting { target_micros } => {
            if shutting_down {
                return (ExactTimerState::Stopped, ExactTimerAction::Stop);
            }
            match next_sleep_step(target_micros, now_micros, interval_micros) {
                SleepStep::Fire => (ExactTimerState::Idle, ExactTimerAction::RunTicks),
                SleepStep::Sleep { target_micros: t, chunk } => (
                    ExactTimerState::Waiting { target_micros: t },
                    ExactTimerAction::Sleep(chunk),
                ),
            }
        },
        ExactTimerState::Stopped => (ExactTimerState::Stopped, ExactTimerAction::Stop),
    }
}

/// Step `k` of a run goes from the state before it to the state after it, with its action.
pub open spec fn run_step_at(
    states: Seq<ExactTimerState>,
    events: Seq<(bool, bool, u64)>,
    actions: Seq<ExactTimerAction>,
    interval: int,
    k: int,
) -> bool {
    exact_timer_steps_to(
        states[k],
        events[k].0,
        events[k].1,
        events[k].2 as int,
        interval,
        (states[k + 1], actions[k]),
    )
}

/// A run of the loop of an exact timer: it starts before the application is initialized,
/// sees at each step whether the application is initialized, whether it shuts down and the
/// time (one whose next mark fits the clock), and goes from step to step as
/// `exact_timer_steps_to` says.
pub open spec fn is_exact_timer_run(
    states: Seq<ExactTimerState>,
    events: Seq<(bool, bool, u64)>,
    actions: Seq<ExactTimerAction>,
    interval: int,
) -> bool {
    &&& 0 < interval <= u64::MAX
    &&& states.len() == events.len() + 1
    &&& actions.len() == events.len()
    &&& states[0] == ExactTimerState::WaitingForStart
    &&& forall|k: int|
        0 <= k < events.len() ==> (((#[trigger] events[k]).2 as int) / interval + 1) * interval
            <= u64::MAX
    &&& forall|k: int|
        0 <= k < events.len() ==> #[trigger] run_step_at(states, events, actions, interval, k)
}

/// No pass runs at the steps from `i` up to `k`.
pub open spec fn no_pass_between(actions: Seq<ExactTimerAction>, i: int, k: int) -> bool {
    forall|j: int| i <= j < k ==> !(#[trigger] actions[j] is RunTicks)
}

/// What holds of the state before step `k` of a run: the timer left its start only after
/// it saw the application initialized; once it saw the application shut down after its
/// start it is stopped; and a mark it waits for is a mark of the interval, chosen at a step
/// at which the time was before it, with no pass since.
spec fn run_holds_at(
    states: Seq<ExactTimerState>,
    events: Seq<(bool, bool, u64)>,
    actions: Seq<ExactTimerAction>,
    interval: int,
    k: int,
) -> bool {
    &&& !(states[k] is WaitingForStart) ==> exists|i: int| 0 <= i < k && (#[trigger] events[i]).0
    &&& forall|j: int|
        0 <= j < k && (#[trigger] events[j]).1 && !(states[j] is WaitingForStart) ==> states[k] is Stopped
    &&& states[k] matches ExactTimerState::Waiting { target_micros: m } ==> ((m as int) % interval
        == 0 && exists|i: int|
        0 <= i < k && m > (#[trigger] events[i]).2 && no_pass_between(actions, i, k))
}

/// What holds of every state of a run, step by step.
proof fn lemma_run_holds(
    states: Seq<ExactTimerState>,
    events: Seq<(bool, bool, u64)>,
    actions: Seq<ExactTimerAction>,
    interval: int,
    k: int,
)
    requires
        is_exact_timer_run(states, events, actions, interval),
        0 <= k <= events.len(),
    ensures
        run_holds_at(states, events, actions, interval, k),
    decreases k,
{
    if k > 0 {
        let p = k - 1;
        lemma_run_holds(states, events, actions, interval, p);
        assert(run_step_at(states, events, actions, interval, p));
        let now = events[p].2 as int;
        assert(((events[p].2 as int) / interval + 1) * interval <= u64::MAX);
        lemma_next_mark(now, interval);
        if !(states[k] is WaitingForStart) {
            if states[p] is WaitingForStart {
                assert(events[p].0);
            } else {
                let i = choose|i: int| 0 <= i < p && (#[trigger] events[i]).0;
                assert(0 <= i < k && events[i].0);
            }
        }
        assert forall|j: int|
            0 <= j < k && (#[trigger] events[j]).1 && !(states[j] is WaitingForStart) implies states[k] is Stopped by {
            if j < p {
                assert(states[p] is Stopped);
            }
        }
        if let ExactTimerState::Waiting { target_micros: m } = states[k] {
            if states[p] == (ExactTimerState::Waiting { target_micros: m }) {
                let i = choose|i: int|
                    0 <= i < p && m > (#[trigger] events[i]).2 && no_pass_between(actions, i, p);
                assert(!(actions[p] is RunTicks));
                assert(no_pass_between(actions, i, k));
            } else {
                assert(m > events[p].2 && (m as int) % interval == 0);
                assert(no_pass_between(actions, p, k));
            }
        }
    }
}

/// When an exact timer runs a pass: only after it saw the application initialized, never
/// once it saw the application shut down after its start, and only at or after a mark of
/// the interval that was still ahead at a step since the previous pass - so at most one pass
/// runs for a mark, and each runs for a mark after the previous pass.
pub proof fn law_exact_timer_passes(
    states: Seq<ExactTimerState>,
    events: Seq<(bool, bool, u64)>,
    actions: Seq<ExactTimerAction>,
    interval: int,
    k: int,
)
    requires
        is_exact_timer_run(states, events, actions, interval),
        0 <= k < events.len(),
        actions[k] is RunTicks,
    ensures
        exists|i: int| 0 <= i < k && (#[trigger] events[i]).0,
        !events[k].1,
        forall|j: int| 0 <= j < k && (#[trigger] events[j]).1 ==> states[j] is WaitingForStart,
        states[k] matches ExactTimerState::Waiting { target_micros: m } && events[k].2 >= m && (m as int)
            % interval == 0 && exists|i: int|
            0 <= i < k && m > (#[trigger] events[i]).2 && no_pass_between(actions, i, k),
{
    lemma_run_holds(states, events, actions, interval, k);
    assert(run_step_at(states, events, actions, interval, k));
}

/// The start of a wait (see `starts_wait`).
fn start_wait(shutting_down: bool, now_micros: u64, interval_micros: u64) -> (r: (
    ExactTimerState,
    ExactTimerAction,
))
    requires
        interval_micros > 0,
        (now_micros / interval_micros + 1) * interval_micros <= u64::MAX,
    ensures
        starts_wait(r, shutting_down, now_micros as int, interval_micros as int),
{
    if shutting_down {
        return (ExactTimerState::Stopped, ExactTimerAction::Stop);
    }
    let mark = get_next_tick_micros(now_micros, interval_micros);
    proof {
        lemma_next_mark(now_micros as int, interval_micros as int);
    }
    let remaining = crate::date_time::duration_units::duration_from_micros(mark - now_micros);
    (ExactTimerState::Waiting { target_micros: mark }, ExactTimerAction::Sleep(get_sleep_chunk(remaining)))
}

/// The registry of an exact timer: its interval, its ticks by name and the time one
/// iteration may take. Running the ticks is the caller's.
pub struct MyExactTimer<TTick> {
    interval: ExactTimerInterval,
    timers: Vec<(String, TTick)>,
    iteration_timeout: Duration,
}

/// No two ticks share a name.
pub open spec fn names_unique<TTick>(timers: Seq<(String, TTick)>) -> bool {
    forall|i: int, j: int|
        0 <= i < j < timers.len() ==> (#[trigger] timers[i]).0@ != (#[trigger] timers[j]).0@
}

/// Whether a tick of the name is in the registry.
pub open spec fn has_name<TTick>(timers: Seq<(String, TTick)>, name: Seq<char>) -> bool {
    exists|i: int| 0 <= i < timers.len() && (#[trigger] timers[i]).0@ == name
}

impl<TTick> MyExactTimer<TTick> {
    pub closed spec fn interval(&self) -> ExactTimerInterval {
        self.interval
    }

    pub closed spec fn timers(&self) -> Seq<(String, TTick)> {
        self.timers@
    }

    pub closed spec fn iteration_timeout(&self) -> Duration {
        self.iteration_timeout
    }

    /// A timer with no ticks and an iteration timeout of a minute.
    pub fn new(interval: ExactTimerInterval) -> (r: Self)
        ensures
            r.interval() == interval,
            r.timers() == Seq::<(String, TTick)>::empty(),
            duration_nanos(r.iteration_timeout()) == 60_000_000_000,
    {
        Self { interval, timers: Vec::new(), iteration_timeout: duration_from_secs(60) }
    }

    pub fn new_with_execute_timeout(interval: ExactTimerInterval, iteration_timeout: Duration) -> (r:
        Self)
        ensures
            r.interval() == interval,
            r.timers() == Seq::<(String, TTick)>::empty(),
            r.iteration_timeout() == iteration_timeout,
    {
        Self { interval, timers: Vec::new(), iteration_timeout }
    }

    pub fn set_iteration_timeout(&mut self, iteration_timeout: Duration)
        ensures
            final(self).iteration_timeout() == iteration_timeout,
            final(self).interval() == old(self).interval(),
            final(self).timers() == old(self).timers(),
    {
        self.iteration_timeout = iteration_timeout;
    }

    /// Whether a tick of the name is registered.
    pub fn is_registered(&self, name: &str) -> (r: bool)
        ensures
            r == has_name(self.timers(), name@),
    {
        let name_string = name.to_owned();
        let mut i: usize = 0;
        while i < self.timers.len()
            invariant
                i <= self.timers@.len(),
                name_string@ == name@,
                forall|j: int| 0 <= j < i ==> (#[trigger] self.timers@[j]).0@ != name@,
            decreases self.timers@.len() - i,
        {
            if self.timers[i].0 == name_string {
                return true;
            }
            i = i + 1;
        }
        false
    }

    /// Registers a tick under a name no other tick has (registering a name twice is a fault).
    pub fn register_timer(&mut self, name: &str, my_timer_tick: TTick)
        requires
            !has_name(old(self).timers(), name@),
        ensures
            final(self).timers() == old(self).timers().push((final(self).timers().last().0, my_timer_tick)),
            final(self).timers().last().0@ == name@,
            final(self).interval() == old(self).interval(),
            final(self).iteration_timeout() == old(self).iteration_timeout(),
    {
        self.timers.push((name.to_owned(), my_timer_tick));
    }

    pub fn get_interval(&self) -> (r: ExactTimerInterval)
        ensures
            r == self.interval(),
    {
        self.interval
    }

    pub fn get_iteration_timeout(&self) -> (r: Duration)
        ensures
            r == self.iteration_timeout(),
    {
        self.iteration_timeout
    }

    /// The registered ticks, in the order of registration.
    pub fn get_timers(&self) -> (r: &Vec<(String, TTick)>)
        ensures
            r@ == self.timers(),
    {
        &self.timers
    }
}

} // verus!
