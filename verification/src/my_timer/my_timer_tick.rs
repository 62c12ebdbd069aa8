//! What a timer tick tells the timer once it returned.
use vstd::prelude::*;

verus! {

#[derive(Debug, Clone, Copy, PartialEq, Eq, Structural)]
pub enum RepeatTimerIteration {
    /// The iteration is complete: wait for the next scheduled tick.
    WithInterval,
    /// Run the tick again right away, with a fresh iteration timeout.
    Immediately,
}

impl RepeatTimerIteration {
    pub fn is_immediately(&self) -> (r: bool)
        ensures
            r == (*self is Immediately),
    {
        match self {
            RepeatTimerIteration::Immediately => true,
            RepeatTimerIteration::WithInterval => false,
        }
    }

    pub fn is_with_interval(&self) -> (r: bool)
        ensures
            r == (*self is WithInterval),
    {
        !self.is_immediately()
    }
}

} // verus!
