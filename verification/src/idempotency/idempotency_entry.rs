//! What an idempotency cache holds for a key.
use vstd::prelude::*;

verus! {

/// The state of a key: being executed right now, with those who came in meanwhile parked
/// on it, or done, with its result memorized (an error as much as a success).
pub enum IdempotencyEntry<W, R> {
    Executing(Vec<W>),
    Completed(R),
}

impl<W, R> IdempotencyEntry<W, R> {
    pub fn is_completed(&self) -> (r: bool)
        ensures
            r == (*self is Completed),
    {
        match self {
            Self::Completed(_) => true,
            Self::Executing(_) => false,
        }
    }
}

/// A key and its state.
pub struct IdempotencyCacheItem<W, R> {
    pub key: String,
    pub entry: IdempotencyEntry<W, R>,
}

} // verus!
