//! What an events loop tick tells the loop once it returned.
use vstd::prelude::*;

verus! {

/// Whether the event is served: if not, the very model comes back to be ticked again.
pub enum RepeatIteration<TModel> {
    /// The event is not served yet: here is the model back.
    Yes(TModel),
    /// The iteration is complete and the model is consumed.
    No,
}

impl<TModel> RepeatIteration<TModel> {
    pub fn is_yes(&self) -> (r: bool)
        ensures
            r == (*self is Yes),
    {
        match self {
            RepeatIteration::Yes(_) => true,
            RepeatIteration::No => false,
        }
    }

    /// The model that was handed back, if the tick asked for another iteration.
    pub fn into_model(self) -> (r: Option<TModel>)
        ensures
            r == (match self {
                RepeatIteration::Yes(model) => Some(model),
                RepeatIteration::No => None,
            }),
    {
        match self {
            RepeatIteration::Yes(model) => Some(model),
            RepeatIteration::No => None,
        }
    }
}

} // verus!
