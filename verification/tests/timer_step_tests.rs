use rust_extensions::my_timer::my_timer_tick::RepeatTimerIteration;
use rust_extensions::my_timer::timer_step::{timer_step, TimerAction, TimerEvent, TimerState};

/// How a scripted tick answers: `Some(n)` asks for `n` immediate repeats and then settles,
/// `None` panics on every run.
type Script = Option<usize>;

/// Drives the timer's decisions (no delay before the first round) until the first round is
/// over and the timer sleeps the interval; returns how often each tick ran.
fn first_round(scripts: &[Script]) -> Vec<usize> {
    let mut runs = vec![0usize; scripts.len()];
    let mut state = TimerState::WaitingForStart;
    let mut event = TimerEvent::Polled { initialized: true };
    for _ in 0..100 {
        let (next, action) = timer_step(state, scripts.len(), false, false, event);
        state = next;
        event = match action {
            TimerAction::WaitForStart => TimerEvent::Polled { initialized: true },
            TimerAction::SleepInterval => return runs,
            TimerAction::Run(indices) => {
                let mut answers = Vec::new();
                for index in indices {
                    runs[index] += 1;
                    answers.push(match scripts[index] {
                        Some(repeats) if runs[index] <= repeats => {
                            Some(RepeatTimerIteration::Immediately)
                        }
                        Some(_) => Some(RepeatTimerIteration::WithInterval),
                        None => None,
                    });
                }
                TimerEvent::Answered(answers)
            }
            TimerAction::Stop => panic!("nothing asked the timer to stop"),
        };
    }
    panic!("the round did not end");
}

#[test]
fn immediately_runs_again_without_waiting_for_the_interval() {
    // 1 scheduled tick + 2 immediate repeats before the interval is slept.
    assert_eq!(first_round(&[Some(2)]), vec![3]);
}

#[test]
fn only_the_tick_which_asked_is_repeated() {
    assert_eq!(first_round(&[Some(2), Some(0)]), vec![3, 1]);
}

#[test]
fn panicked_tick_is_not_repeated() {
    assert_eq!(first_round(&[None]), vec![1]);
}

#[test]
fn timer_waits_first_when_asked_and_stops_on_shutdown() {
    let (state, action) =
        timer_step(TimerState::WaitingForStart, 2, true, false, TimerEvent::Polled {
            initialized: false,
        });
    assert!(matches!(state, TimerState::WaitingForStart));
    assert!(matches!(action, TimerAction::WaitForStart));
    let (state, action) = timer_step(state, 2, true, false, TimerEvent::Polled { initialized: true });
    assert!(matches!(state, TimerState::Idle));
    assert!(matches!(action, TimerAction::SleepInterval));
    let (state, action) = timer_step(state, 2, true, false, TimerEvent::Slept);
    assert!(matches!(&action, TimerAction::Run(indices) if indices == &vec![0, 1]));
    let (state, action) = timer_step(
        state,
        2,
        true,
        true,
        TimerEvent::Answered(vec![Some(RepeatTimerIteration::Immediately), None]),
    );
    assert!(matches!(state, TimerState::Idle));
    assert!(matches!(action, TimerAction::SleepInterval));
    let (state, action) = timer_step(state, 2, true, true, TimerEvent::Slept);
    assert!(matches!(state, TimerState::Stopped));
    assert!(matches!(action, TimerAction::Stop));
}
