//! The decisions of the loop of a timer, one step at a time: wait for the application, wait
//! an interval before the first round if asked to, run every tick, run again at once the
//! ticks that asked for it, and stop once the application shuts down. Sleeping and running
//! the ticks are the caller's.
use super::my_timer::{repeated, ticks_to_repeat};
use super::my_timer_tick::RepeatTimerIteration;
use vstd::prelude::*;

verus! {

/// Where the loop of a timer stands.
pub enum TimerState {
    /// The application is not initialized yet: nothing runs.
    WaitingForStart,
    /// Sleeping the interval before the next round.
    Idle,
    /// A round runs these ticks (indices into the registered ticks).
    Running(Vec<usize>),
    /// The loop is over.
    Stopped,
}

/// What the loop saw since its last step.
pub enum TimerEvent {
    /// A look at the application, whether it is initialized.
    Polled { initialized: bool },
    /// The interval was slept.
    Slept,
    /// The ticks that ran answered, one answer each in their order; no answer for a tick that
    /// panicked or timed out.
    Answered(Vec<Option<RepeatTimerIteration>>),
}

/// What the loop does after a step.
pub enum TimerAction {
    /// Sleep a second, then look at the application again.
    WaitForStart,
    /// Sleep the interval.
    SleepInterval,
    /// Run these ticks, each once.
    Run(Vec<usize>),
    /// End the loop.
    Stop,
}

/// The indices of `n` registered ticks, in order.
pub open spec fn all_ticks(n: nat) -> Seq<usize> {
    Seq::new(n, |i: int| i as usize)
}

/// The start of a round: none once the application shuts down, else all `n` ticks run.
pub open spec fn starts_round(r: (TimerState, TimerAction), n: nat, shutting_down: bool) -> bool {
    if shutting_down {
        r.0 is Stopped && r.1 is Stop
    } else {
        &&& r.0 matches TimerState::Running(ticks) && ticks@ == all_ticks(n)
        &&& r.1 matches TimerAction::Run(ticks) && ticks@ == all_ticks(n)
    }
}

/// What one step of the loop of a timer with `n` ticks does: the next state and action `r`.
/// Before the application is initialized the timer only waits for it; then it sleeps an
/// interval first if `delay_before_first_tick`. A round starts, unless the application
/// shuts down, by running every tick; the ticks that answered `Immediately` run again at
/// once, until none asks or the application shuts down; then the timer sleeps the interval
/// before the next round. A stopped loop stays stopped.
pub open spec fn timer_steps_to(
    state: TimerState,
    n: nat,
    delay_before_first_tick: bool,
    shutting_down: bool,
    event: TimerEvent,
    r: (TimerState, TimerAction),
) -> bool {
    match state {
        TimerState::WaitingForStart => if event matches TimerEvent::Polled { initialized: true } {
            if delay_before_first_tick {
                r.0 is Idle && r.1 is SleepInterval
            } else {
                starts_round(r, n, shutting_down)
            }
        } else {
            r.0 is WaitingForStart && r.1 is WaitForStart
        },
        TimerState::Idle => starts_round(r, n, shutting_down),
        TimerState::Running(ticks) => {
            let again = match event {
                TimerEvent::Answered(answers) => repeated(ticks@, answers@),
                _ => Seq::empty(),
            };
            if again.len() == 0 || shutting_down {
                r.0 is Idle && r.1 is SleepInterval
            } else {
                &&& r.0 matches TimerState::Running(next) && next@ == again
                &&& r.1 matches TimerAction::Run(next) && next@ == again
            }
        },
        TimerState::Stopped => r.0 is Stopped && r.1 is Stop,
    }
}

/// A copy of the indices.
fn copy_indices(v: &Vec<usize>) -> (r: Vec<usize>)
    ensures
        r@ == v@,
{
    let mut r: Vec<usize> = Vec::new();
    let mut i: usize = 0;
    while i < v.len()
        invariant
            i <= v@.len(),
            r@ == v@.take(i as int),
        decreases v@.len() - i,
    {
        proof {
            assert(v@.take(i + 1) =~= v@.take(i as int).push(v@[i as int]));
        }
        r.push(v[i]);
        i = i + 1;
    }
    assert(v@.take(v@.len() as int) =~= v@);
    r
}

/// The start of a round (see `starts_round`).
fn start_round(n: usize, shutting_down: bool) -> (r: (TimerState, TimerAction))
    ensures
        starts_round(r, n as nat, shutting_down),
{
    if shutting_down {
        return (TimerState::Stopped, TimerAction::Stop);
    }
    let mut all: Vec<usize> = Vec::new();
    let mut i: usize = 0;
    while i < n
        invariant
            i <= n,
            all@ == all_ticks(i as nat),
        decreases n - i,
    {
        proof {
            assert(all_ticks((i + 1) as nat) =~= all_ticks(i as nat).push(i));
        }
        all.push(i);
        i = i + 1;
    }
    let run = copy_indices(&all);
    (TimerState::Running(all), TimerAction::Run(run))
}

/// One step of the loop of a timer with `n` ticks (see `timer_steps_to`).
pub fn timer_step(
    state: TimerState,
    n: usize,
    delay_before_first_tick: bool,
    shutting_down: bool,
    event: TimerEvent,
) -> (r: (TimerState, TimerAction))
    requires
        state matches TimerState::Running(ticks) ==> (event matches TimerEvent::Answered(answers)
            ==> answers@.len() == ticks@.len()),
    ensures
        timer_steps_to(state, n as nat, delay_before_first_tick, shutting_down, event, r),
{
    match state {
        TimerState::WaitingForStart => match event {
            TimerEvent::Polled { initialized: true } => {
                if delay_before_first_tick {
                    (TimerState::Idle, TimerAction::SleepInterval)
                } else {
                    start_round(n, shutting_down)
                }
            },
            _ => (TimerState::WaitingForStart, TimerAction::WaitForStart),
        },
        TimerState::Idle => start_round(n, shutting_down),
        TimerState::Running(ticks) => {
            let again = match event {
                TimerEvent::Answered(answers) => ticks_to_repeat(&ticks, &answers),
                _ => Vec::new(),
            };
            if again.len() == 0 || shutting_down {
                (TimerState::Idle, TimerAction::SleepInterval)
            } else {
                let run = copy_indices(&again);
                (TimerState::Running(again), TimerAction::Run(run))
            }
        },
        TimerState::Stopped => (TimerState::Stopped, TimerAction::Stop),
    }
}

/// The ticks a round runs again at once are exactly those that answered `Immediately`: each
/// one that runs again answered so, and each one that answered so runs again. A tick that
/// answered `WithInterval`, panicked or timed out (no answer) waits for the next round.
pub proof fn law_only_ticks_that_asked_run_again<T>(
    ticks: Seq<T>,
    answers: Seq<Option<RepeatTimerIteration>>,
)
    requires
        ticks.len() == answers.len(),
    ensures
        forall|x: T|
            repeated(ticks, answers).contains(x) ==> exists|i: int|
                0 <= i < ticks.len() && ticks[i] == x && answers[i] == Some(
                    RepeatTimerIteration::Immediately,
                ),
        forall|i: int|
            0 <= i < ticks.len() && answers[i] == Some(RepeatTimerIteration::Immediately)
                ==> repeated(ticks, answers).contains(ticks[i]),
    decreases ticks.len(),
{
    if ticks.len() > 0 {
        let n = ticks.len() - 1;
        let t = ticks.drop_last();
        let a = answers.take(n);
        law_only_ticks_that_asked_run_again(t, a);
        let rest = repeated(t, a);
        assert forall|x: T| repeated(ticks, answers).contains(x) implies exists|i: int|
            0 <= i < ticks.len() && ticks[i] == x && answers[i] == Some(
                RepeatTimerIteration::Immediately,
            ) by {
            if rest.contains(x) {
                let i = choose|i: int|
                    0 <= i < t.len() && t[i] == x && a[i] == Some(RepeatTimerIteration::Immediately);
                assert(ticks[i] == t[i] && answers[i] == a[i]);
            } else {
                let k = choose|k: int| 0 <= k < repeated(ticks, answers).len() && repeated(ticks, answers)[k] == x;
                assert(k == rest.len());
                assert(ticks[n] == x);
            }
        }
        assert forall|i: int|
            0 <= i < ticks.len() && answers[i] == Some(
                RepeatTimerIteration::Immediately,
            ) implies repeated(ticks, answers).contains(ticks[i]) by {
            if i < n {
                assert(t[i] == ticks[i] && a[i] == answers[i]);
                assert(rest.contains(t[i]));
                let k = choose|k: int| 0 <= k < rest.len() && rest[k] == t[i];
                assert(repeated(ticks, answers)[k] == ticks[i]);
            } else {
                assert(repeated(ticks, answers) == rest.push(ticks[n]));
                assert(repeated(ticks, answers)[rest.len() as int] == ticks[i]);
            }
        }
    }
}

} // verus!
