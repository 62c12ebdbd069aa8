//! The decisions of an events loop, one step at a time: when it starts, which event it
//! serves, when a tick runs again, what happens to an event whose tick failed, and when it
//! stops. Waiting, receiving from the channel and running the tick are the caller's.
use super::events_loop_message::EventsLoopMessage;
use super::repeat_iteration::RepeatIteration;
use vstd::prelude::*;

verus! {

/// Where an events loop stands.
pub enum EventsLoopState {
    /// The application is not initialized yet: nothing is served.
    WaitingForStart,
    /// Between events: the next one is received from the channel.
    Receiving,
    /// An event is being served by the tick.
    Serving,
    /// The loop is over.
    Stopped,
}

/// What the loop saw since its last step.
pub enum EventsLoopEvent<TModel> {
    /// A look at the application, whether it is initialized; also what comes after the loop
    /// called `started` or logged a failed event.
    Polled { initialized: bool },
    /// A message came from the channel.
    Received(EventsLoopMessage<TModel>),
    /// The tick returned its answer.
    Answered(RepeatIteration<TModel>),
    /// The tick panicked or timed out.
    Failed,
    /// Every publisher is gone: nothing can come any more.
    ChannelClosed,
}

/// What the loop does after a step.
pub enum EventsLoopAction<TModel> {
    /// Sleep a second, then look at the application again.
    WaitForStart,
    /// Call the tick's `started`.
    CallStarted,
    /// Wait for the next message of the channel.
    Receive,
    /// Run the tick with this model.
    Tick(TModel),
    /// Log that the event failed; it is dropped.
    LogAndDrop,
    /// Call the tick's `finished`: the loop ends.
    CallFinished,
    /// Nothing more: the loop has ended.
    Exit,
}

/// Between events: the loop stops if the application shuts down, else it receives.
pub open spec fn next_event_or_stop<TModel>(shutting_down: bool) -> (
    EventsLoopState,
    EventsLoopAction<TModel>,
) {
    if shutting_down {
        (EventsLoopState::Stopped, EventsLoopAction::CallFinished)
    } else {
        (EventsLoopState::Receiving, EventsLoopAction::Receive)
    }
}

/// One step of an events loop. Before the application is initialized the loop only waits;
/// once it is, `started` is called. Between events the loop stops when the application
/// shuts down, and otherwise receives a message: a shutdown message or a closed channel
/// stops the loop, an event is handed to the tick. A tick that hands the model back runs
/// again with it unless the application shuts down; one that is done lets the loop go on to
/// the next event; one that panics or times out has its event logged and dropped. A stopped
/// loop calls `finished` once and then does nothing more. An event that does not fit the
/// state is taken as the end of the current one.
pub open spec fn events_loop_next<TModel>(
    state: EventsLoopState,
    shutting_down: bool,
    event: EventsLoopEvent<TModel>,
) -> (EventsLoopState, EventsLoopAction<TModel>) {
    match state {
        EventsLoopState::WaitingForStart => if event matches EventsLoopEvent::Polled {
            initialized: true,
        } {
            (EventsLoopState::Receiving, EventsLoopAction::CallStarted)
        } else {
            (EventsLoopState::WaitingForStart, EventsLoopAction::WaitForStart)
        },
        EventsLoopState::Receiving => match event {
            EventsLoopEvent::Received(EventsLoopMessage::NewMessage(model)) => (
                EventsLoopState::Serving,
                EventsLoopAction::Tick(model),
            ),
            EventsLoopEvent::Received(EventsLoopMessage::Shutdown) => (
                EventsLoopState::Stopped,
                EventsLoopAction::CallFinished,
            ),
            EventsLoopEvent::ChannelClosed => (
                EventsLoopState::Stopped,
                EventsLoopAction::CallFinished,
            ),
            _ => next_event_or_stop(shutting_down),
        },
        EventsLoopState::Serving => match event {
            EventsLoopEvent::Answered(RepeatIteration::Yes(model)) => if shutting_down {
                (EventsLoopState::Stopped, EventsLoopAction::CallFinished)
            } else {
                (EventsLoopState::Serving, EventsLoopAction::Tick(model))
            },
            EventsLoopEvent::Failed => (EventsLoopState::Receiving, EventsLoopAction::LogAndDrop),
            _ => next_event_or_stop(shutting_down),
        },
        EventsLoopState::Stopped => (EventsLoopState::Stopped, EventsLoopAction::Exit),
    }
}

fn next_event_or_stop_exec<TModel>(shutting_down: bool) -> (r: (
    EventsLoopState,
    EventsLoopAction<TModel>,
))
    ensures
        r == next_event_or_stop::<TModel>(shutting_down),
{
    if shutting_down {
        (EventsLoopState::Stopped, EventsLoopAction::CallFinished)
    } else {
        (EventsLoopState::Receiving, EventsLoopAction::Receive)
    }
}

/// One step of an events loop (see `events_loop_next`).
pub fn events_loop_step<TModel>(
    state: EventsLoopState,
    shutting_down: bool,
    event: EventsLoopEvent<TModel>,
) -> (r: (EventsLoopState, EventsLoopAction<TModel>))
    ensures
        r == events_loop_next(state, shutting_down, event),
{
    match state {
        EventsLoopState::WaitingForStart => match event {
            EventsLoopEvent::Polled { initialized: true } => (
                EventsLoopState::Receiving,
                EventsLoopAction::CallStarted,
            ),
            _ => (EventsLoopState::WaitingForStart, EventsLoopAction::WaitForStart),
        },
        EventsLoopState::Receiving => match event {
            EventsLoopEvent::Received(EventsLoopMessage::NewMessage(model)) => (
                EventsLoopState::Serving,
                EventsLoopAction::Tick(model),
            ),
            EventsLoopEvent::Received(EventsLoopMessage::Shutdown) => (
                EventsLoopState::Stopped,
                EventsLoopAction::CallFinished,
            ),
            EventsLoopEvent::ChannelClosed => (
                EventsLoopState::Stopped,
                EventsLoopAction::CallFinished,
            ),
            _ => next_event_or_stop_exec(shutting_down),
        },
        EventsLoopState::Serving => match event {
            EventsLoopEvent::Answered(RepeatIteration::Yes(model)) => if shutting_down {
                (EventsLoopState::Stopped, EventsLoopAction::CallFinished)
            } else {
                (EventsLoopState::Serving, EventsLoopAction::Tick(model))
            },
            EventsLoopEvent::Failed => (EventsLoopState::Receiving, EventsLoopAction::LogAndDrop),
            _ => next_event_or_stop_exec(shutting_down),
        },
        EventsLoopState::Stopped => (EventsLoopState::Stopped, EventsLoopAction::Exit),
    }
}

/// A tick that hands its model back runs again with that very model, unless the
/// application shuts down; then the loop stops.
pub proof fn law_events_loop_repeats_the_answer<TModel>(shutting_down: bool, model: TModel)
    ensures
        events_loop_next(
            EventsLoopState::Serving,
            shutting_down,
            EventsLoopEvent::Answered(RepeatIteration::Yes(model)),
        ) == (if shutting_down {
            (EventsLoopState::Stopped, EventsLoopAction::CallFinished)
        } else {
            (EventsLoopState::Serving, EventsLoopAction::Tick(model))
        }),
{
}

/// An event whose tick failed is dropped: the failure is logged, and whatever the loop sees
/// next, the tick runs again only with a model that came from the channel as a new event.
pub proof fn law_events_loop_drops_a_failed_event<TModel>(
    shutting_down: bool,
    next_shutting_down: bool,
    next_event: EventsLoopEvent<TModel>,
)
    ensures
        events_loop_next::<TModel>(EventsLoopState::Serving, shutting_down, EventsLoopEvent::Failed)
            == (EventsLoopState::Receiving, EventsLoopAction::<TModel>::LogAndDrop),
        events_loop_next(EventsLoopState::Receiving, next_shutting_down, next_event).1 matches EventsLoopAction::Tick(m)
            ==> next_event == EventsLoopEvent::Received(EventsLoopMessage::NewMessage(m)),
{
}

/// Step `k` of a run goes from the state before it to the state after it, with its action.
pub open spec fn events_loop_step_at<TModel>(
    states: Seq<EventsLoopState>,
    shutting: Seq<bool>,
    events: Seq<EventsLoopEvent<TModel>>,
    actions: Seq<EventsLoopAction<TModel>>,
    k: int,
) -> bool {
    (states[k + 1], actions[k]) == events_loop_next(states[k], shutting[k], events[k])
}

/// A run of an events loop: it starts waiting for the application, and goes from step to
/// step as `events_loop_next` says, seeing at each step whether the application shuts down
/// and what happened.
pub open spec fn is_events_loop_run<TModel>(
    states: Seq<EventsLoopState>,
    shutting: Seq<bool>,
    events: Seq<EventsLoopEvent<TModel>>,
    actions: Seq<EventsLoopAction<TModel>>,
) -> bool {
    &&& states.len() == events.len() + 1
    &&& shutting.len() == events.len()
    &&& actions.len() == events.len()
    &&& states[0] == EventsLoopState::WaitingForStart
    &&& forall|k: int|
        0 <= k < events.len() ==> #[trigger] events_loop_step_at(
            states,
            shutting,
            events,
            actions,
            k,
        )
}

/// Whether `started` was called before step `k`.
pub open spec fn started_before<TModel>(actions: Seq<EventsLoopAction<TModel>>, k: int) -> bool {
    exists|i: int| 0 <= i < k && (#[trigger] actions[i]) is CallStarted
}

/// What holds of the state before step `k` of a run: the loop waits for the start exactly
/// while `started` was not called, and once it is stopped `finished` was called.
spec fn events_run_holds_at<TModel>(
    states: Seq<EventsLoopState>,
    actions: Seq<EventsLoopAction<TModel>>,
    k: int,
) -> bool {
    &&& states[k] is WaitingForStart <==> !started_before(actions, k)
    &&& states[k] is Stopped ==> exists|i: int| 0 <= i < k && (#[trigger] actions[i]) is CallFinished
}

/// What holds of every state of a run, step by step.
proof fn lemma_events_run_holds<TModel>(
    states: Seq<EventsLoopState>,
    shutting: Seq<bool>,
    events: Seq<EventsLoopEvent<TModel>>,
    actions: Seq<EventsLoopAction<TModel>>,
    k: int,
)
    requires
        is_events_loop_run(states, shutting, events, actions),
        0 <= k <= events.len(),
    ensures
        events_run_holds_at(states, actions, k),
    decreases k,
{
    if k > 0 {
        let p = k - 1;
        lemma_events_run_holds(states, shutting, events, actions, p);
        assert(events_loop_step_at(states, shutting, events, actions, p));
        if started_before(actions, p) {
            let i = choose|i: int| 0 <= i < p && (#[trigger] actions[i]) is CallStarted;
            assert(0 <= i < k && actions[i] is CallStarted);
        }
        if actions[p] is CallStarted {
            assert(started_before(actions, k));
        }
        if started_before(actions, k) && !started_before(actions, p) {
            assert(actions[p] is CallStarted);
        }
        if states[k] is Stopped && !(states[p] is Stopped) {
            assert(actions[p] is CallFinished);
        }
        if states[p] is Stopped {
            let i = choose|i: int| 0 <= i < p && (#[trigger] actions[i]) is CallFinished;
            assert(0 <= i < k && actions[i] is CallFinished);
        }
    }
}

/// Over a whole run of an events loop: `started` is called at most once, and every tick
/// comes after it; `finished` is called at most once, and after it the loop does nothing.
pub proof fn law_events_loop_run<TModel>(
    states: Seq<EventsLoopState>,
    shutting: Seq<bool>,
    events: Seq<EventsLoopEvent<TModel>>,
    actions: Seq<EventsLoopAction<TModel>>,
    k: int,
)
    requires
        is_events_loop_run(states, shutting, events, actions),
        0 <= k < events.len(),
    ensures
        actions[k] is Tick ==> started_before(actions, k),
        actions[k] is CallStarted ==> !started_before(actions, k),
        forall|j: int|
            0 <= j < k && (#[trigger] actions[j]) is CallFinished ==> actions[k] is Exit,
{
    lemma_events_run_holds(states, shutting, events, actions, k);
    assert(events_loop_step_at(states, shutting, events, actions, k));
    assert forall|j: int| 0 <= j < k && (#[trigger] actions[j]) is CallFinished implies actions[k] is Exit by {
        assert(events_loop_step_at(states, shutting, events, actions, j));
        lemma_stays_stopped(states, shutting, events, actions, j + 1, k);
    }
}

/// A stopped loop stays stopped.
proof fn lemma_stays_stopped<TModel>(
    states: Seq<EventsLoopState>,
    shutting: Seq<bool>,
    events: Seq<EventsLoopEvent<TModel>>,
    actions: Seq<EventsLoopAction<TModel>>,
    i: int,
    k: int,
)
    requires
        is_events_loop_run(states, shutting, events, actions),
        0 <= i <= k <= events.len(),
        states[i] is Stopped,
    ensures
        states[k] is Stopped,
    decreases k - i,
{
    if i < k {
        assert(events_loop_step_at(states, shutting, events, actions, i));
        lemma_stays_stopped(states, shutting, events, actions, i + 1, k);
    }
}

} // verus!
