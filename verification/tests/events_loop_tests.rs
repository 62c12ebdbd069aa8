use std::collections::VecDeque;

use rust_extensions::events_loop::events_loop_message::EventsLoopMessage;
use rust_extensions::events_loop::events_loop_step::{
    events_loop_step, EventsLoopAction, EventsLoopEvent, EventsLoopState,
};
use rust_extensions::events_loop::repeat_iteration::RepeatIteration;

#[derive(Clone, Copy)]
enum Answer {
    Served,
    RepeatIt,
    Panic,
    TimeOut,
}

/// Drives the loop's decisions over the events of a channel that closes after them; the
/// tick answers its n-th iteration as the script says (the last answer is reused). Returns
/// the model of every iteration, and whether `started` and `finished` were each called once.
fn run(events: &[&str], script: &[Answer]) -> (Vec<String>, usize, usize) {
    let mut channel: VecDeque<String> = events.iter().map(|e| e.to_string()).collect();
    let mut seen: Vec<String> = Vec::new();
    let mut started = 0;
    let mut finished = 0;
    let mut state = EventsLoopState::WaitingForStart;
    let mut event = EventsLoopEvent::Polled { initialized: false };
    for _ in 0..1000 {
        let (next, action) = events_loop_step(state, false, event);
        state = next;
        event = match action {
            EventsLoopAction::WaitForStart => EventsLoopEvent::Polled { initialized: true },
            EventsLoopAction::CallStarted => {
                started += 1;
                EventsLoopEvent::Polled { initialized: true }
            }
            EventsLoopAction::Receive => match channel.pop_front() {
                Some(model) => EventsLoopEvent::Received(EventsLoopMessage::NewMessage(model)),
                None => EventsLoopEvent::ChannelClosed,
            },
            EventsLoopAction::Tick(model) => {
                seen.push(model.clone());
                match script[(seen.len() - 1).min(script.len() - 1)] {
                    Answer::Served => EventsLoopEvent::Answered(RepeatIteration::No),
                    Answer::RepeatIt => EventsLoopEvent::Answered(RepeatIteration::Yes(model)),
                    Answer::Panic | Answer::TimeOut => EventsLoopEvent::Failed,
                }
            }
            EventsLoopAction::LogAndDrop => EventsLoopEvent::Polled { initialized: true },
            EventsLoopAction::CallFinished => {
                finished += 1;
                EventsLoopEvent::Polled { initialized: true }
            }
            EventsLoopAction::Exit => return (seen, started, finished),
        };
    }
    panic!("the loop did not end");
}

#[test]
fn each_event_is_served_once() {
    let (seen, started, finished) = run(&["first", "second", "third"], &[Answer::Served]);
    assert_eq!(seen, vec!["first", "second", "third"]);
    assert_eq!((started, finished), (1, 1));
}

#[test]
fn repeat_iteration_yes_runs_the_same_event_again() {
    let (seen, _, _) =
        run(&["event", "next-event"], &[Answer::RepeatIt, Answer::RepeatIt, Answer::Served]);
    assert_eq!(seen, vec!["event", "event", "event", "next-event"]);
}

#[test]
fn panicked_iteration_drops_the_event() {
    let (seen, _, _) = run(&["event", "next-event"], &[Answer::Panic, Answer::Served]);
    assert_eq!(seen, vec!["event", "next-event"]);
}

#[test]
fn timed_out_iteration_drops_the_event() {
    let (seen, _, _) = run(&["event", "next-event"], &[Answer::TimeOut, Answer::Served]);
    assert_eq!(seen, vec!["event", "next-event"]);
}

#[test]
fn events_loop_waits_for_the_application_and_stops_on_request() {
    let (state, action) =
        events_loop_step::<u32>(EventsLoopState::WaitingForStart, true, EventsLoopEvent::Polled {
            initialized: false,
        });
    assert!(matches!(state, EventsLoopState::WaitingForStart));
    assert!(matches!(action, EventsLoopAction::WaitForStart));

    let (state, action) = events_loop_step::<u32>(
        EventsLoopState::Receiving,
        false,
        EventsLoopEvent::Received(EventsLoopMessage::Shutdown),
    );
    assert!(matches!(state, EventsLoopState::Stopped));
    assert!(matches!(action, EventsLoopAction::CallFinished));

    let (state, action) = events_loop_step::<u32>(
        EventsLoopState::Receiving,
        true,
        EventsLoopEvent::Polled { initialized: true },
    );
    assert!(matches!(state, EventsLoopState::Stopped));
    assert!(matches!(action, EventsLoopAction::CallFinished));

    let (state, action) = events_loop_step::<u32>(state, false, EventsLoopEvent::ChannelClosed);
    assert!(matches!(state, EventsLoopState::Stopped));
    assert!(matches!(action, EventsLoopAction::Exit));
}

#[test]
fn a_repeated_event_stops_when_the_application_shuts_down() {
    let (state, action) = events_loop_step(
        EventsLoopState::Serving,
        true,
        EventsLoopEvent::Answered(RepeatIteration::Yes(7u32)),
    );
    assert!(matches!(state, EventsLoopState::Stopped));
    assert!(matches!(action, EventsLoopAction::CallFinished));
    let (state, action) = events_loop_step(
        EventsLoopState::Serving,
        false,
        EventsLoopEvent::Answered(RepeatIteration::Yes(7u32)),
    );
    assert!(matches!(state, EventsLoopState::Serving));
    assert!(matches!(action, EventsLoopAction::Tick(7)));
}
