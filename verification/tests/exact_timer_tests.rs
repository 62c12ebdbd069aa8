use std::time::Duration;

use rust_extensions::exact_timer::exact_timer_interval::ExactTimerInterval;
use rust_extensions::exact_timer::my_exact_timer::{
    exact_timer_step, get_next_tick_micros, get_sleep_chunk, next_sleep_step,
    realign_target_on_clock_jump, ExactTimerAction, ExactTimerState, MyExactTimer, SleepStep,
};
use rust_extensions::my_timer::my_timer::{ticks_to_repeat, MyTimer};
use rust_extensions::my_timer::my_timer_tick::RepeatTimerIteration;

#[test]
fn next_tick_is_strictly_in_the_future_and_aligned() {
    let interval_micros = ExactTimerInterval::Every15Seconds.get_duration_micros();

    for now in [
        0u64,
        1,
        14_999_999,
        15_000_000,
        15_000_001,
        1_752_000_000_000_000,
        1_752_000_000_123_456,
    ] {
        let next = get_next_tick_micros(now, interval_micros);
        assert!(next > now, "next {} must be strictly after now {}", next, now);
        assert_eq!(next % interval_micros, 0, "next {} must be aligned", next);
        assert!(
            next - now <= interval_micros,
            "we must never wait more than one full interval"
        );
    }
}

#[test]
fn on_the_mark_jumps_to_the_following_one() {
    // Finishing exactly on a mark must schedule the NEXT mark, never re-fire
    // the current one.
    let d = ExactTimerInterval::Every5Seconds.get_duration_micros();
    assert_eq!(get_next_tick_micros(0, d), 5_000_000);
    assert_eq!(get_next_tick_micros(5_000_000, d), 10_000_000);
    assert_eq!(get_next_tick_micros(10_000_000, d), 15_000_000);
}

#[test]
fn marks_land_on_natural_wall_clock_seconds() {
    // For any "now", the 15s mark falls on a second divisible by 15.
    let d = ExactTimerInterval::Every15Seconds.get_duration_micros();
    for now in [1_752_003_123_456u64, 999_999_999, 61_000_000, 123_456_789] {
        let next = get_next_tick_micros(now, d);
        let second_in_minute = (next / 1_000_000) % 60;
        assert_eq!(second_in_minute % 15, 0);
    }
}

#[test]
fn sleep_ladder_never_overshoots_and_steps_down() {
    assert_eq!(get_sleep_chunk(Duration::from_secs(30)), Duration::from_secs(10));
    assert_eq!(get_sleep_chunk(Duration::from_secs(10)), Duration::from_secs(5));
    assert_eq!(get_sleep_chunk(Duration::from_secs(6)), Duration::from_secs(5));
    assert_eq!(get_sleep_chunk(Duration::from_secs(5)), Duration::from_secs(1));
    assert_eq!(get_sleep_chunk(Duration::from_millis(1500)), Duration::from_secs(1));

    // Under one second -> sleep exactly what remains, in one shot.
    assert_eq!(get_sleep_chunk(Duration::from_secs(1)), Duration::from_secs(1));
    assert_eq!(get_sleep_chunk(Duration::from_millis(999)), Duration::from_millis(999));
    assert_eq!(get_sleep_chunk(Duration::from_millis(500)), Duration::from_millis(500));
    assert_eq!(get_sleep_chunk(Duration::from_millis(7)), Duration::from_millis(7));
    assert_eq!(get_sleep_chunk(Duration::from_micros(250)), Duration::from_micros(250));

    // The chunk must never be larger than what remains.
    for ms in [1u64, 9, 10, 11, 99, 100, 101, 999, 1000, 5000, 5001, 9999, 60_000] {
        let remaining = Duration::from_millis(ms);
        assert!(get_sleep_chunk(remaining) <= remaining);
    }
}

#[test]
fn steady_state_keeps_the_target_fixed() {
    let d = ExactTimerInterval::Every30Minutes.get_duration_micros();
    let target = get_next_tick_micros(1_000_000_000, d); // some future mark

    // As `now` advances toward the mark, the target must not move.
    for now in [1_000_000_000u64, 1_000_500_000, target - 1] {
        assert_eq!(realign_target_on_clock_jump(target, now, d), target);
    }
    // Exactly one interval away is still legitimate (not a jump).
    let now = target - d;
    assert_eq!(realign_target_on_clock_jump(target, now, d), target);
}

#[test]
fn backward_clock_jump_realigns_to_a_near_mark() {
    let d = ExactTimerInterval::Every30Minutes.get_duration_micros();
    let now_before = 12 * 3_600_000_000u64; // 12:00:00 since epoch-ish origin
    let target = get_next_tick_micros(now_before, d); // 12:30:00 mark

    // Clock steps back 2 hours -> target is now > one interval away.
    let now_after = now_before - 2 * 3_600_000_000u64; // 10:00:00
    let realigned = realign_target_on_clock_jump(target, now_after, d);

    assert!(realigned < target, "must re-align to a nearer mark");
    assert!(
        realigned - now_after <= d,
        "wait must be bounded to one interval after a jump"
    );
    assert_eq!(realigned % d, 0, "re-aligned target stays on a mark");
    assert_eq!(realigned, get_next_tick_micros(now_after, d));
}

#[test]
fn interval_durations_divide_a_minute_or_an_hour() {
    let all = [
        (ExactTimerInterval::Every1Second, 1u64),
        (ExactTimerInterval::Every5Seconds, 5),
        (ExactTimerInterval::Every10Seconds, 10),
        (ExactTimerInterval::Every15Seconds, 15),
        (ExactTimerInterval::Every20Seconds, 20),
        (ExactTimerInterval::Every30Seconds, 30),
        (ExactTimerInterval::Every1Minute, 60),
        (ExactTimerInterval::Every5Minutes, 300),
        (ExactTimerInterval::Every10Minutes, 600),
        (ExactTimerInterval::Every15Minutes, 900),
        (ExactTimerInterval::Every20Minutes, 1200),
        (ExactTimerInterval::Every30Minutes, 1800),
    ];
    for (interval, secs) in all {
        assert_eq!(interval.get_duration(), Duration::from_secs(secs));
        assert_eq!(interval.get_duration_micros(), secs * 1_000_000);
    }
}

#[test]
fn sleep_steps_fire_on_the_mark_and_never_overshoot() {
    let d = ExactTimerInterval::Every5Seconds.get_duration_micros();
    match next_sleep_step(10_000_000, 10_000_000, d) {
        SleepStep::Fire => {}
        SleepStep::Sleep { .. } => panic!("the mark is reached"),
    }
    match next_sleep_step(10_000_000, 6_000_000, d) {
        SleepStep::Sleep { target_micros, chunk } => {
            assert_eq!(target_micros, 10_000_000);
            assert_eq!(chunk, Duration::from_secs(1));
        }
        SleepStep::Fire => panic!("the mark is ahead"),
    }
    // A target far ahead (the clock went back) is moved to the next mark.
    match next_sleep_step(100_000_000, 2_500_000, d) {
        SleepStep::Sleep { target_micros, chunk } => {
            assert_eq!(target_micros, 5_000_000);
            assert_eq!(chunk, Duration::from_secs(1));
        }
        SleepStep::Fire => panic!("the mark is ahead"),
    }
}

#[test]
fn registered_timers_keep_their_names_in_order() {
    let mut timer: MyExactTimer<u32> = MyExactTimer::new(ExactTimerInterval::Every1Minute);
    assert_eq!(timer.get_iteration_timeout(), Duration::from_secs(60));
    timer.register_timer("first", 1);
    timer.register_timer("second", 2);
    assert!(timer.is_registered("first"));
    assert!(!timer.is_registered("third"));
    let names: Vec<&str> = timer.get_timers().iter().map(|(n, _)| n.as_str()).collect();
    assert_eq!(names, vec!["first", "second"]);
    timer.set_iteration_timeout(Duration::from_secs(3));
    assert_eq!(timer.get_iteration_timeout(), Duration::from_secs(3));
    assert_eq!(timer.get_interval(), ExactTimerInterval::Every1Minute);

    let mut my_timer: MyTimer<u32> = MyTimer::new(Duration::from_secs(2));
    assert!(my_timer.get_delay_before_first_tick());
    my_timer.set_first_tick_before_delay();
    assert!(!my_timer.get_delay_before_first_tick());
    my_timer.register_timer("a", 7);
    assert!(my_timer.is_registered("a"));
    assert_eq!(my_timer.get_timers()[0].1, 7);
}

#[test]
fn only_ticks_that_asked_are_repeated() {
    let ticks = vec![1, 2, 3, 4];
    let answers = vec![
        Some(RepeatTimerIteration::Immediately),
        Some(RepeatTimerIteration::WithInterval),
        None,
        Some(RepeatTimerIteration::Immediately),
    ];
    assert_eq!(ticks_to_repeat(&ticks, &answers), vec![1, 4]);
    assert!(RepeatTimerIteration::Immediately.is_immediately());
    assert!(RepeatTimerIteration::WithInterval.is_with_interval());
}

#[test]
fn exact_timer_steps_wait_for_start_run_on_marks_and_stop() {
    let second = 1_000_000;
    let (state, action) = exact_timer_step(ExactTimerState::WaitingForStart, false, false, 1_500_000, second);
    assert!(matches!(state, ExactTimerState::WaitingForStart));
    assert!(matches!(action, ExactTimerAction::WaitForStart));

    let (state, action) = exact_timer_step(state, true, false, 1_500_000, second);
    assert!(matches!(state, ExactTimerState::Waiting { target_micros: 2_000_000 }));
    assert!(matches!(action, ExactTimerAction::Sleep(d) if d == Duration::from_millis(500)));

    let (state, action) = exact_timer_step(state, true, false, 1_999_999, second);
    assert!(matches!(state, ExactTimerState::Waiting { target_micros: 2_000_000 }));
    assert!(matches!(action, ExactTimerAction::Sleep(d) if d == Duration::from_micros(1)));

    let (state, action) = exact_timer_step(state, true, false, 2_000_000, second);
    assert!(matches!(state, ExactTimerState::Idle));
    assert!(matches!(action, ExactTimerAction::RunTicks));

    // the pass ended on the next mark: the wait aims at the one after it
    let (state, action) = exact_timer_step(state, true, false, 3_000_000, second);
    assert!(matches!(state, ExactTimerState::Waiting { target_micros: 4_000_000 }));
    assert!(matches!(action, ExactTimerAction::Sleep(d) if d == Duration::from_secs(1)));

    let (state, action) = exact_timer_step(state, true, true, 3_500_000, second);
    assert!(matches!(state, ExactTimerState::Stopped));
    assert!(matches!(action, ExactTimerAction::Stop));

    let (state, action) = exact_timer_step(state, true, false, 5_000_000, second);
    assert!(matches!(state, ExactTimerState::Stopped));
    assert!(matches!(action, ExactTimerAction::Stop));
}

#[test]
fn exact_timer_waits_for_initialization_even_while_shutting_down() {
    let (state, action) = exact_timer_step(ExactTimerState::WaitingForStart, false, true, 10, 1_000);
    assert!(matches!(state, ExactTimerState::WaitingForStart));
    assert!(matches!(action, ExactTimerAction::WaitForStart));
    let (state, action) = exact_timer_step(state, true, true, 10, 1_000);
    assert!(matches!(state, ExactTimerState::Stopped));
    assert!(matches!(action, ExactTimerAction::Stop));
}

#[test]
fn exact_timer_realigns_after_the_clock_goes_back() {
    let minute = 60_000_000;
    let waiting = ExactTimerState::Waiting { target_micros: 10 * minute };
    let (state, action) = exact_timer_step(waiting, true, false, 2 * minute + 30_000_000, minute);
    assert!(matches!(state, ExactTimerState::Waiting { target_micros } if target_micros == 3 * minute));
    assert!(matches!(action, ExactTimerAction::Sleep(d) if d == Duration::from_secs(10)));
}
