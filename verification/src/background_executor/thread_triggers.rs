//! The triggers not served yet, counted per thread id in a hash map, of an executor that
//! serves each thread id by a reader of its own.
use crate::keyed_entries::PlainId;
use vstd::hash_map::HashMapWithView;
use vstd::prelude::*;

verus! {

/// The counters after a trigger of `id`: a new thread id starts at one.
pub open spec fn after_trigger<ID>(counters: Map<ID, u64>, id: ID) -> Map<ID, u64> {
    if counters.contains_key(id) {
        counters.insert(id, (counters[id] + 1) as u64)
    } else {
        counters.insert(id, 1)
    }
}

/// The counters after the reader of `id` served one trigger: a drained thread id is gone.
pub open spec fn after_consume<ID>(counters: Map<ID, u64>, id: ID) -> Map<ID, u64> {
    if counters.contains_key(id) && counters[id] > 1 {
        counters.insert(id, (counters[id] - 1) as u64)
    } else {
        counters.remove(id)
    }
}

/// Every thread id that is present has a trigger to serve.
pub open spec fn all_pending<ID>(counters: Map<ID, u64>) -> bool {
    forall|id: ID| #[trigger] counters.contains_key(id) ==> counters[id] > 0
}

/// The thread ids whose reader is alive, each with the number of its triggers not served yet.
#[verifier::reject_recursive_types(ID)]
pub struct ThreadTriggers<ID: PlainId> {
    threads: HashMapWithView<ID, u64>,
}

impl<ID: PlainId> View for ThreadTriggers<ID> {
    type V = Map<ID, u64>;

    closed spec fn view(&self) -> Map<ID, u64> {
        self.threads@
    }
}

impl<ID: PlainId> ThreadTriggers<ID> {
    /// Every thread id that is present has a trigger to serve.
    pub closed spec fn well_formed(&self) -> bool {
        all_pending(self@)
    }

    /// No thread id has a trigger to serve.
    pub fn new() -> (r: Self)
        ensures
            r.well_formed(),
            r@ == Map::<ID, u64>::empty(),
    {
        proof {
            ID::lemma_hash_key();
        }
        Self { threads: HashMapWithView::new() }
    }

    /// The number of thread ids whose reader is alive.
    pub fn working_threads_amount(&self) -> (r: usize)
        requires
            self.well_formed(),
        ensures
            r == self@.len(),
            all_pending(self@),
    {
        self.threads.len()
    }

    /// The triggers of `id` not served yet (none for a thread id whose reader is gone).
    pub fn pending(&self, id: &ID) -> (r: u64)
        requires
            self.well_formed(),
        ensures
            r == (if self@.contains_key(*id) {
                self@[*id]
            } else {
                0
            }),
    {
        proof {
            ID::lemma_hash_key();
        }
        match self.threads.get(id) {
            Some(count) => *count,
            None => 0,
        }
    }

    /// Counts a trigger of `id`. Returns whether it is the first one of its thread id, whose
    /// reader has to be started; otherwise the reader that is alive picks it up.
    pub fn trigger(&mut self, id: ID) -> (first: bool)
        requires
            old(self).well_formed(),
            old(self)@.contains_key(id) ==> old(self)@[id] < u64::MAX,
        ensures
            final(self).well_formed(),
            first == !old(self)@.contains_key(id),
            final(self)@ == after_trigger(old(self)@, id),
    {
        proof {
            ID::lemma_hash_key();
        }
        let count = match self.threads.get(&id) {
            Some(count) => Some(*count),
            None => None,
        };
        match count {
            Some(count) => {
                self.threads.insert(id, count + 1);
                false
            },
            None => {
                self.threads.insert(id, 1);
                true
            },
        }
    }

    /// Counts off the trigger that the reader of `id` has just served. Returns whether the
    /// thread id is drained: it is then gone, and its reader exits.
    pub fn consume_trigger(&mut self, id: &ID) -> (drained: bool)
        requires
            old(self).well_formed(),
        ensures
            final(self).well_formed(),
            drained == !(old(self)@.contains_key(*id) && old(self)@[*id] > 1),
            final(self)@ == after_consume(old(self)@, *id),
    {
        proof {
            ID::lemma_hash_key();
        }
        let count = match self.threads.get(id) {
            Some(count) => *count,
            None => 0,
        };
        if count > 1 {
            self.threads.insert(id.clone_id(), count - 1);
            false
        } else {
            self.threads.remove(id);
            true
        }
    }
}

/// A trigger served takes back exactly the trigger counted: consuming right after a trigger
/// of the same thread id leaves the counters as they were.
pub proof fn law_consume_undoes_trigger<ID>(counters: Map<ID, u64>, id: ID)
    requires
        all_pending(counters),
        counters.contains_key(id) ==> counters[id] < u64::MAX,
    ensures
        after_consume(after_trigger(counters, id), id) == counters,
        all_pending(after_trigger(counters, id)),
        all_pending(after_consume(counters, id)),
{
    if counters.contains_key(id) {
        assert(after_consume(after_trigger(counters, id), id) =~= counters);
    } else {
        assert(after_consume(after_trigger(counters, id), id) =~= counters);
    }
}

} // verus!
