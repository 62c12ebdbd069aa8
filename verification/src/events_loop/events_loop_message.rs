//! A message of an events loop: an event, or the request to stop.
use vstd::prelude::*;

verus! {

pub enum EventsLoopMessage<TModel> {
    NewMessage(TModel),
    Shutdown,
}

impl<TModel> EventsLoopMessage<TModel> {
    pub fn is_shutdown(&self) -> (r: bool)
        ensures
            r == (*self is Shutdown),
    {
        match self {
            EventsLoopMessage::Shutdown => true,
            _ => false,
        }
    }

    /// The event of a message that carries one (a shutdown carries none).
    pub fn unwrap_message(self) -> (r: TModel)
        requires
            self is NewMessage,
        ensures
            r == self->NewMessage_0,
    {
        match self {
            EventsLoopMessage::NewMessage(message) => message,
            EventsLoopMessage::Shutdown => { proof { assert(false); } unreached() },
        }
    }
}

} // verus!
