//! What is pending to be flushed, one state per id: the latest upsert or delete of each id.
use std::collections::HashMap;
use std::time::Duration;
use vstd::prelude::*;
use vstd::std_specs::hash::spec_keys_iter;

use super::upsert_or_delete::{PersistObjectId, UpsertOrDelete};
use crate::keyed_entries::PlainId;
use crate::date_time::duration_units::{duration_from_secs, duration_nanos};

verus! {

/// What is pending for an id. `Delete` holds nothing: the id is the key, and the object
/// itself is dropped as soon as the delete is enqueued.
pub enum PendingState<T> {
    Upsert(T),
    Delete,
}

impl<T> PendingState<T> {
    /// The state as it is flushed for `id`.
    pub fn into_upsert_or_delete<ID>(self, id: ID) -> (r: UpsertOrDelete<ID, T>)
        ensures
            flushed_state(r) == self,
            self is Delete ==> r == UpsertOrDelete::<ID, T>::Delete(id),
    {
        match self {
            Self::Upsert(value) => UpsertOrDelete::Upsert(value),
            Self::Delete => UpsertOrDelete::Delete(id),
        }
    }
}

/// The id a flushed state is for.
pub open spec fn flushed_id<ID, T: PersistObjectId<ID>>(item: UpsertOrDelete<ID, T>) -> ID {
    match item {
        UpsertOrDelete::Upsert(value) => value.persist_object_id(),
        UpsertOrDelete::Delete(id) => id,
    }
}

/// The pending state a flushed state came from.
pub open spec fn flushed_state<ID, T>(item: UpsertOrDelete<ID, T>) -> PendingState<T> {
    match item {
        UpsertOrDelete::Upsert(value) => PendingState::Upsert(value),
        UpsertOrDelete::Delete(_) => PendingState::Delete,
    }
}

/// The ids of a chunk.
pub open spec fn chunk_ids<ID, T: PersistObjectId<ID>>(chunk: Seq<UpsertOrDelete<ID, T>>) -> Set<
    ID,
> {
    Set::new(|id: ID| exists|i: int| 0 <= i < chunk.len() && flushed_id(chunk[i]) == id)
}

/// The pending states after upserting `items`, one after the other.
pub open spec fn with_upserts<ID, T: PersistObjectId<ID>>(
    pending: Map<ID, PendingState<T>>,
    items: Seq<T>,
) -> Map<ID, PendingState<T>>
    decreases items.len(),
{
    if items.len() == 0 {
        pending
    } else {
        with_upserts(pending, items.drop_last()).insert(
            items.last().persist_object_id(),
            PendingState::Upsert(items.last()),
        )
    }
}

/// The pending states after deleting `ids`, one after the other.
pub open spec fn with_deletes<ID, T>(pending: Map<ID, PendingState<T>>, ids: Seq<ID>) -> Map<
    ID,
    PendingState<T>,
>
    decreases ids.len(),
{
    if ids.len() == 0 {
        pending
    } else {
        with_deletes(pending, ids.drop_last()).insert(ids.last(), PendingState::Delete)
    }
}

/// An upsert waits under the id of its object.
pub open spec fn upserts_keyed<ID, T: PersistObjectId<ID>>(pending: Map<ID, PendingState<T>>) -> bool {
    forall|id: ID|
        #[trigger] pending.contains_key(id) ==> (pending[id] matches PendingState::Upsert(value)
            ==> value.persist_object_id() == id)
}

/// The objects and deletes waiting to be flushed, at most one state per id.
#[verifier::reject_recursive_types(ID)]
#[verifier::reject_recursive_types(T)]
pub struct QueueToSaveOrDeleteInnerWithId<ID: PlainId, T: PersistObjectId<ID>> {
    entries: HashMap<ID, PendingState<T>>,
    max_chunk_size: usize,
    timeout: Duration,
    name: String,
}

impl<ID: PlainId, T: PersistObjectId<ID>> View for QueueToSaveOrDeleteInnerWithId<ID, T> {
    type V = Map<ID, PendingState<T>>;

    closed spec fn view(&self) -> Map<ID, PendingState<T>> {
        self.entries@
    }
}

/// Nothing is pending: the reader waits for the next enqueue.
pub struct QueueIsEmpty;

impl<ID: PlainId, T: PersistObjectId<ID>> QueueToSaveOrDeleteInnerWithId<ID, T> {
    /// The most states one flush takes.
    pub closed spec fn chunk_limit(&self) -> usize {
        self.max_chunk_size
    }

    /// How long one flush may take.
    pub closed spec fn flush_timeout(&self) -> Duration {
        self.timeout
    }

    pub closed spec fn queue_name(&self) -> String {
        self.name
    }

    pub closed spec fn well_formed(&self) -> bool {
        upserts_keyed(self.entries@)
    }

    /// An empty queue that flushes at most 50 states at a time, with a timeout of 10 seconds
    /// for each flush.
    pub fn new(name: String) -> (r: Self)
        ensures
            r.well_formed(),
            r@ == Map::<ID, PendingState<T>>::empty(),
            r.chunk_limit() == 50,
            duration_nanos(r.flush_timeout()) == 10_000_000_000,
            r.queue_name() == name,
    {
        let r = Self {
            entries: HashMap::new(),
            max_chunk_size: 50,
            timeout: duration_from_secs(10),
            name,
        };
        proof {
            assert(r@ =~= Map::<ID, PendingState<T>>::empty());
        }
        r
    }

    pub fn get_max_chunk_size(&self) -> (r: usize)
        ensures
            r == self.chunk_limit(),
    {
        self.max_chunk_size
    }

    pub fn set_max_chunk_size(&mut self, max_chunk_size: usize)
        ensures
            final(self).chunk_limit() == max_chunk_size,
            final(self)@ == old(self)@,
            final(self).well_formed() == old(self).well_formed(),
            final(self).flush_timeout() == old(self).flush_timeout(),
            final(self).queue_name() == old(self).queue_name(),
    {
        self.max_chunk_size = max_chunk_size;
    }

    pub fn get_timeout(&self) -> (r: Duration)
        ensures
            r == self.flush_timeout(),
    {
        self.timeout
    }

    pub fn get_name(&self) -> (r: &str)
        ensures
            r@ == self.queue_name()@,
    {
        self.name.as_str()
    }

    /// The number of ids that have something pending.
    pub fn len(&self) -> (r: usize)
        requires
            self.well_formed(),
        ensures
            r == self@.len(),
    {
        broadcast use vstd::std_specs::hash::group_hash_axioms;

        proof {
            ID::lemma_hash_key();
        }
        self.entries.len()
    }

    /// Makes `state` the pending state of `id`, in place of what was pending for it.
    fn put(&mut self, id: ID, state: PendingState<T>)
        requires
            old(self).well_formed(),
            state matches PendingState::Upsert(value) ==> value.persist_object_id() == id,
        ensures
            final(self).well_formed(),
            final(self)@ == old(self)@.insert(id, state),
            final(self).chunk_limit() == old(self).chunk_limit(),
            final(self).flush_timeout() == old(self).flush_timeout(),
            final(self).queue_name() == old(self).queue_name(),
    {
        broadcast use vstd::std_specs::hash::group_hash_axioms;

        proof {
            ID::lemma_hash_key();
        }
        self.entries.insert(id, state);
    }

    /// Upserts each of `items` in turn: the last state enqueued for an id is the one pending.
    pub fn enqueue(&mut self, items: Vec<T>)
        requires
            old(self).well_formed(),
        ensures
            final(self).well_formed(),
            final(self)@ == with_upserts(old(self)@, items@),
            final(self).chunk_limit() == old(self).chunk_limit(),
            final(self).flush_timeout() == old(self).flush_timeout(),
            final(self).queue_name() == old(self).queue_name(),
    {
        let ghost all = items@;
        let mut rest = items;
        while rest.len() > 0
            invariant
                self.well_formed(),
                rest@.len() <= all.len(),
                rest@ == all.subrange(all.len() - rest@.len(), all.len() as int),
                self@ == with_upserts(old(self)@, all.take(all.len() - rest@.len())),
                self.max_chunk_size == old(self).max_chunk_size,
                self.timeout == old(self).timeout,
                self.name == old(self).name,
            decreases rest@.len(),
        {
            let ghost done = all.len() - rest@.len();
            let item = rest.remove(0);
            proof {
                assert(item == all[done]);
                assert(all.take(done + 1).drop_last() =~= all.take(done));
                assert(rest@ =~= all.subrange(all.len() - rest@.len(), all.len() as int));
            }
            let id = item.get_persist_object_id().clone_id();
            self.put(id, PendingState::Upsert(item));
        }
        proof {
            assert(all.take(all.len() as int) =~= all);
        }
    }

    /// Upserts one object: it replaces what was pending for its id.
    pub fn enqueue_single(&mut self, item: T)
        requires
            old(self).well_formed(),
        ensures
            final(self).well_formed(),
            final(self)@ == old(self)@.insert(item.persist_object_id(), PendingState::Upsert(item)),
            final(self).chunk_limit() == old(self).chunk_limit(),
            final(self).flush_timeout() == old(self).flush_timeout(),
            final(self).queue_name() == old(self).queue_name(),
    {
        let id = item.get_persist_object_id().clone_id();
        self.put(id, PendingState::Upsert(item));
    }

    /// Deletes an id: it replaces what was pending for it, and is delivered though nothing
    /// was pending.
    pub fn enqueue_delete(&mut self, id: ID)
        requires
            old(self).well_formed(),
        ensures
            final(self).well_formed(),
            final(self)@ == old(self)@.insert(id, PendingState::Delete),
            final(self).chunk_limit() == old(self).chunk_limit(),
            final(self).flush_timeout() == old(self).flush_timeout(),
            final(self).queue_name() == old(self).queue_name(),
    {
        self.put(id, PendingState::Delete);
    }

    /// Deletes each of `ids` in turn.
    pub fn enqueue_delete_multiple(&mut self, ids: Vec<ID>)
        requires
            old(self).well_formed(),
        ensures
            final(self).well_formed(),
            final(self)@ == with_deletes(old(self)@, ids@),
            final(self).chunk_limit() == old(self).chunk_limit(),
            final(self).flush_timeout() == old(self).flush_timeout(),
            final(self).queue_name() == old(self).queue_name(),
    {
        let ghost all = ids@;
        let mut rest = ids;
        while rest.len() > 0
            invariant
                self.well_formed(),
                rest@.len() <= all.len(),
                rest@ == all.subrange(all.len() - rest@.len(), all.len() as int),
                self@ == with_deletes(old(self)@, all.take(all.len() - rest@.len())),
                self.max_chunk_size == old(self).max_chunk_size,
                self.timeout == old(self).timeout,
                self.name == old(self).name,
            decreases rest@.len(),
        {
            let ghost done = all.len() - rest@.len();
            let id = rest.remove(0);
            proof {
                assert(id == all[done]);
                assert(all.take(done + 1).drop_last() =~= all.take(done));
                assert(rest@ =~= all.subrange(all.len() - rest@.len(), all.len() as int));
            }
            self.put(id, PendingState::Delete);
        }
        proof {
            assert(all.take(all.len() as int) =~= all);
        }
    }

    /// Takes the next chunk to flush off the pending states: as many as are pending, but no
    /// more than `chunk_limit()`, each for a different id, each as it was pending. With
    /// nothing pending, the reader is told to wait.
    pub fn try_dequeue(&mut self) -> (r: Result<Vec<UpsertOrDelete<ID, T>>, QueueIsEmpty>)
        requires
            old(self).well_formed(),
        ensures
            final(self).well_formed(),
            final(self).chunk_limit() == old(self).chunk_limit(),
            final(self).flush_timeout() == old(self).flush_timeout(),
            final(self).queue_name() == old(self).queue_name(),
            r is Err <==> old(self)@.len() == 0,
            r is Err ==> final(self)@ == old(self)@,
            r matches Ok(chunk) ==> {
                &&& chunk@.len() == (if old(self)@.len() <= old(self).chunk_limit() {
                    old(self)@.len()
                } else {
                    old(self).chunk_limit() as nat
                })
                &&& forall|i: int|
                    0 <= i < chunk@.len() ==> old(self)@.contains_key(
                        flushed_id(#[trigger] chunk@[i]),
                    ) && old(self)@[flushed_id(chunk@[i])] == flushed_state(chunk@[i])
                &&& forall|i: int, j: int|
                    0 <= i < j < chunk@.len() ==> flushed_id(#[trigger] chunk@[i]) != flushed_id(
                        #[trigger] chunk@[j],
                    )
                &&& final(self)@ == old(self)@.remove_keys(chunk_ids(chunk@))
                &&& final(self)@.len() + chunk@.len() == old(self)@.len()
            },
    {
        broadcast use vstd::std_specs::hash::group_hash_axioms;

        proof {
            ID::lemma_hash_key();
        }
        let ghost before = self.entries@;
        if self.entries.len() == 0 {
            return Err(QueueIsEmpty);
        }
        let n: usize = if self.entries.len() <= self.max_chunk_size {
            self.entries.len()
        } else {
            self.max_chunk_size
        };
        let keys = first_keys(&self.entries, n);
        let mut chunk: Vec<UpsertOrDelete<ID, T>> = Vec::new();
        let mut k: usize = 0;
        while k < keys.len()
            invariant
                0 <= k <= keys@.len() == n,
                n == (if before.len() <= self.max_chunk_size {
                    before.len()
                } else {
                    self.max_chunk_size as nat
                }),
                keys@.no_duplicates(),
                forall|i: int| 0 <= i < keys@.len() ==> before.contains_key(#[trigger] keys@[i]),
                upserts_keyed(before),
                self.entries@ == before.remove_keys(keys@.take(k as int).to_set()),
                chunk@.len() == k,
                forall|i: int|
                    0 <= i < k ==> flushed_id(#[trigger] chunk@[i]) == keys@[i]
                        && flushed_state(chunk@[i]) == before[keys@[i]],
                self.max_chunk_size == old(self).max_chunk_size,
                self.timeout == old(self).timeout,
                self.name == old(self).name,
                vstd::std_specs::hash::obeys_key_model::<ID>(),
            decreases keys@.len() - k,
        {
            let ghost done = keys@.take(k as int).to_set();
            let ghost id = keys@[k as int];
            proof {
                assert(!done.contains(id)) by {
                    if done.contains(id) {
                        let j = choose|j: int| 0 <= j < k && keys@.take(k as int)[j] == id;
                        assert(keys@[j] == keys@[k as int]);
                    }
                }
                assert(keys@.take(k + 1).to_set() =~= done.insert(id)) by {
                    assert(keys@.take(k + 1) =~= keys@.take(k as int).push(id));
                    keys@.take(k as int).lemma_push_to_set_commute(id);
                }
            }
            match self.entries.remove(&keys[k]) {
                Some(state) => {
                    let item = state.into_upsert_or_delete(keys[k].clone_id());
                    chunk.push(item);
                },
                None => {
                    proof {
                        assert(false);
                    }
                },
            }
            proof {
                assert(self.entries@ =~= before.remove_keys(keys@.take(k + 1).to_set()));
            }
            k = k + 1;
        }
        proof {
            let ids = chunk_ids(chunk@);
            assert(keys@.take(n as int) =~= keys@);
            assert(ids =~= keys@.to_set()) by {
                assert forall|id: ID| ids.contains(id) implies keys@.to_set().contains(id) by {
                    let i = choose|i: int| 0 <= i < chunk@.len() && flushed_id(chunk@[i]) == id;
                    assert(keys@[i] == id);
                }
                assert forall|id: ID| keys@.to_set().contains(id) implies ids.contains(id) by {
                    let i = choose|i: int| 0 <= i < keys@.len() && keys@[i] == id;
                    assert(flushed_id(chunk@[i]) == id);
                }
            }
            assert forall|i: int, j: int| 0 <= i < j < chunk@.len() implies flushed_id(
                #[trigger] chunk@[i],
            ) != flushed_id(#[trigger] chunk@[j]) by {
                assert(keys@[i] != keys@[j]);
            }
            lemma_chunk_ids_len(chunk@);
            assert(ids.subset_of(before.dom()));
            before.lemma_remove_keys_len(ids);
        }
        Ok(chunk)
    }
}

/// The first `n` keys that a walk over the map gives, or all of them if there are fewer.
fn first_keys<ID: PlainId, V>(m: &HashMap<ID, V>, n: usize) -> (r: Vec<ID>)
    ensures
        r@.len() == (if m@.len() <= n {
            m@.len()
        } else {
            n as nat
        }),
        r@.no_duplicates(),
        forall|i: int| 0 <= i < r@.len() ==> m@.contains_key(#[trigger] r@[i]),
{
    broadcast use vstd::std_specs::hash::group_hash_axioms;

    proof {
        ID::lemma_hash_key();
    }
    let mut keys: Vec<ID> = Vec::new();
    let ghost ks = vstd::std_specs::iter::IteratorSpec::remaining(&spec_keys_iter(m));
    assert(ks.unref().to_set() == m@.dom() && ks.no_duplicates() && ks.len() == m@.dom().len());
    for k in it: m.keys()
        invariant
            keys@.len() == (if it.index() <= n {
                it.index() as nat
            } else {
                n as nat
            }),
            forall|i: int| 0 <= i < keys@.len() ==> keys@[i] == *it.seq()[i],
            it.seq() == vstd::std_specs::iter::IteratorSpec::remaining(&spec_keys_iter(m)),
    {
        if keys.len() < n {
            keys.push(k.clone_id());
        }
    }
    assert forall|i: int, j: int| 0 <= i < j < keys@.len() implies keys@[i] != keys@[j] by {
        assert(ks[i] != ks[j]);
    }
    assert forall|i: int| 0 <= i < keys@.len() implies m@.contains_key(#[trigger] keys@[i]) by {
        assert(ks.unref()[i] == keys@[i]);
        assert(ks.unref().to_set().contains(keys@[i]));
    }
    keys
}

proof fn lemma_chunk_ids_len<ID, T: PersistObjectId<ID>>(chunk: Seq<UpsertOrDelete<ID, T>>)
    requires
        forall|i: int, j: int|
            0 <= i < j < chunk.len() ==> flushed_id(#[trigger] chunk[i]) != flushed_id(
                #[trigger] chunk[j],
            ),
    ensures
        chunk_ids(chunk).finite(),
        chunk_ids(chunk).len() == chunk.len(),
    decreases chunk.len(),
{
    if chunk.len() == 0 {
        assert(chunk_ids(chunk) =~= Set::empty());
    } else {
        let rest = chunk.drop_last();
        assert forall|i: int, j: int| 0 <= i < j < rest.len() implies flushed_id(
            #[trigger] rest[i],
        ) != flushed_id(#[trigger] rest[j]) by {
            assert(rest[i] == chunk[i]);
            assert(rest[j] == chunk[j]);
        }
        lemma_chunk_ids_len(rest);
        let last = flushed_id(chunk.last());
        assert forall|id: ID| #[trigger] chunk_ids(chunk).contains(id) <==> chunk_ids(rest).insert(
            last,
        ).contains(id) by {
            if chunk_ids(chunk).contains(id) {
                let i = choose|i: int| 0 <= i < chunk.len() && flushed_id(chunk[i]) == id;
                if i < rest.len() {
                    assert(rest[i] == chunk[i]);
                }
            }
            if chunk_ids(rest).contains(id) {
                let i = choose|i: int| 0 <= i < rest.len() && flushed_id(rest[i]) == id;
                assert(rest[i] == chunk[i]);
            }
        }
        assert(chunk_ids(chunk) =~= chunk_ids(rest).insert(last));
        if chunk_ids(rest).contains(last) {
            let i = choose|i: int| 0 <= i < rest.len() && flushed_id(rest[i]) == last;
            assert(rest[i] == chunk[i]);
            assert(false);
        }
    }
}

} // verus!
