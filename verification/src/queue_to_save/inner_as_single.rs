//! Items waiting to be saved one by one, first in, first out.
use std::collections::VecDeque;
use std::time::Duration;
use vstd::prelude::*;

use crate::date_time::duration_units::{duration_from_secs, duration_nanos};

verus! {

/// Items waiting to be handed to the saver, in the order they came.
pub struct QueueToSaveInnerAsSingle<T> {
    queue: VecDeque<T>,
    timeout: Duration,
    name: String,
}

impl<T> View for QueueToSaveInnerAsSingle<T> {
    type V = Seq<T>;

    closed spec fn view(&self) -> Seq<T> {
        self.queue@
    }
}

/// Nothing is waiting: the reader waits for the next enqueue.
pub struct NothingToSave;

impl<T> QueueToSaveInnerAsSingle<T> {
    /// How long saving one item may take.
    pub closed spec fn save_timeout(&self) -> Duration {
        self.timeout
    }

    pub closed spec fn queue_name(&self) -> String {
        self.name
    }

    /// An empty queue whose items may take 10 seconds each to save.
    pub fn new(name: String) -> (r: Self)
        ensures
            r@ == Seq::<T>::empty(),
            duration_nanos(r.save_timeout()) == 10_000_000_000,
            r.queue_name() == name,
    {
        Self { queue: VecDeque::new(), timeout: duration_from_secs(10), name }
    }

    pub fn get_timeout(&self) -> (r: Duration)
        ensures
            r == self.save_timeout(),
    {
        self.timeout
    }

    pub fn get_name(&self) -> (r: &str)
        ensures
            r@ == self.queue_name()@,
    {
        self.name.as_str()
    }

    /// Appends `items`, in their order, behind those already waiting.
    pub fn enqueue(&mut self, items: Vec<T>)
        ensures
            final(self)@ == old(self)@ + items@,
            final(self).save_timeout() == old(self).save_timeout(),
            final(self).queue_name() == old(self).queue_name(),
    {
        let ghost all = items@;
        let mut rest = items;
        while rest.len() > 0
            invariant
                rest@.len() <= all.len(),
                rest@ == all.subrange(all.len() - rest@.len(), all.len() as int),
                self@ == old(self)@ + all.take(all.len() - rest@.len()),
                self.timeout == old(self).timeout,
                self.name == old(self).name,
            decreases rest@.len(),
        {
            let ghost done = all.len() - rest@.len();
            let item = rest.remove(0);
            proof {
                assert(item == all[done]);
                assert(rest@ =~= all.subrange(all.len() - rest@.len(), all.len() as int));
            }
            self.queue.push_back(item);
            proof {
                assert(self@ =~= old(self)@ + all.take(done + 1));
            }
        }
        proof {
            assert(all.take(all.len() as int) =~= all);
        }
    }

    /// Appends one item behind those already waiting.
    pub fn enqueue_single(&mut self, item: T)
        ensures
            final(self)@ == old(self)@.push(item),
            final(self).save_timeout() == old(self).save_timeout(),
            final(self).queue_name() == old(self).queue_name(),
    {
        self.queue.push_back(item);
    }

    /// Takes the item that has waited longest; with nothing waiting, the reader is told to
    /// wait.
    pub fn try_dequeue(&mut self) -> (r: Result<T, NothingToSave>)
        ensures
            final(self).save_timeout() == old(self).save_timeout(),
            final(self).queue_name() == old(self).queue_name(),
            r is Err <==> old(self)@.len() == 0,
            r is Err ==> final(self)@ == old(self)@,
            r matches Ok(item) ==> item == old(self)@[0] && final(self)@ == old(self)@.drop_first(),
    {
        match self.queue.pop_front() {
            Some(item) => Ok(item),
            None => Err(NothingToSave),
        }
    }
}

} // verus!
