//! What a background job tells its executor once an iteration returned.
use vstd::prelude::*;

verus! {

/// Whether the job wants to be started again at once.
#[derive(Debug, Clone, Copy, PartialEq, Eq, Structural)]
pub enum RepeatIteration {
    /// Run the job again straight away; the trigger being served is not consumed.
    Yes,
    /// The iteration is complete: consume the trigger.
    No,
}

impl RepeatIteration {
    pub fn is_yes(&self) -> (r: bool)
        ensures
            r == (*self is Yes),
    {
        match self {
            RepeatIteration::Yes => true,
            RepeatIteration::No => false,
        }
    }
}

} // verus!
