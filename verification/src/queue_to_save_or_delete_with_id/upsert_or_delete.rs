//! What is flushed for an id: the object to insert or replace, or the id to delete.
use vstd::prelude::*;

verus! {

/// An object that knows the id it is stored under.
pub trait PersistObjectId<ID> {
    spec fn persist_object_id(&self) -> ID;

    fn get_persist_object_id(&self) -> (r: &ID)
        ensures
            *r == self.persist_object_id(),
    ;
}

/// The state flushed for an id: `Upsert` carries the object, `Delete` only the id.
pub enum UpsertOrDelete<ID, T> {
    Upsert(T),
    Delete(ID),
}

/// The objects of the upserts, in their order.
pub open spec fn upserts_of<ID, T>(items: Seq<UpsertOrDelete<ID, T>>) -> Seq<T>
    decreases items.len(),
{
    if items.len() == 0 {
        seq![]
    } else {
        let rest = upserts_of(items.drop_last());
        match items.last() {
            UpsertOrDelete::Upsert(value) => rest.push(value),
            UpsertOrDelete::Delete(_) => rest,
        }
    }
}

/// The ids of the deletes, in their order.
pub open spec fn deletes_of<ID, T>(items: Seq<UpsertOrDelete<ID, T>>) -> Seq<ID>
    decreases items.len(),
{
    if items.len() == 0 {
        seq![]
    } else {
        let rest = deletes_of(items.drop_last());
        match items.last() {
            UpsertOrDelete::Upsert(_) => rest,
            UpsertOrDelete::Delete(id) => rest.push(id),
        }
    }
}

impl<ID, T> UpsertOrDelete<ID, T> {
    pub fn is_upsert(&self) -> (r: bool)
        ensures
            r == (*self is Upsert),
    {
        match self {
            Self::Upsert(_) => true,
            Self::Delete(_) => false,
        }
    }

    pub fn is_delete(&self) -> (r: bool)
        ensures
            r == (*self is Delete),
    {
        match self {
            Self::Upsert(_) => false,
            Self::Delete(_) => true,
        }
    }

    pub fn as_upsert(&self) -> (r: Option<&T>)
        ensures
            r == (match *self {
                Self::Upsert(value) => Some(&value),
                Self::Delete(_) => None,
            }),
    {
        match self {
            Self::Upsert(value) => Some(value),
            Self::Delete(_) => None,
        }
    }

    pub fn as_delete(&self) -> (r: Option<&ID>)
        ensures
            r == (match *self {
                Self::Upsert(_) => None,
                Self::Delete(id) => Some(&id),
            }),
    {
        match self {
            Self::Upsert(_) => None,
            Self::Delete(id) => Some(id),
        }
    }

    /// The object of an upsert (asking a delete for one is a fault).
    pub fn unwrap_as_upsert(&self) -> (r: &T)
        requires
            *self is Upsert,
        ensures
            *r == self->Upsert_0,
    {
        match self {
            Self::Upsert(value) => value,
            Self::Delete(_) => {
                proof {
                    assert(false);
                }
                unreached()
            },
        }
    }

    /// The id of a delete (asking an upsert for one is a fault).
    pub fn unwrap_as_delete(&self) -> (r: &ID)
        requires
            *self is Delete,
        ensures
            *r == self->Delete_0,
    {
        match self {
            Self::Upsert(_) => {
                proof {
                    assert(false);
                }
                unreached()
            },
            Self::Delete(id) => id,
        }
    }

    /// Splits a chunk into the objects to insert or replace and the ids to delete, each in
    /// the order of the chunk.
    pub fn split(items: Vec<Self>) -> (r: (Vec<T>, Vec<ID>))
        ensures
            r.0@ == upserts_of(items@),
            r.1@ == deletes_of(items@),
    {
        let mut to_upsert: Vec<T> = Vec::new();
        let mut to_delete: Vec<ID> = Vec::new();
        let ghost all = items@;
        let mut rest = items;
        while rest.len() > 0
            invariant
                rest@.len() <= all.len(),
                rest@ == all.subrange(all.len() - rest@.len(), all.len() as int),
                to_upsert@ == upserts_of(all.take(all.len() - rest@.len())),
                to_delete@ == deletes_of(all.take(all.len() - rest@.len())),
            decreases rest@.len(),
        {
            let ghost done = all.len() - rest@.len();
            let item = rest.remove(0);
            proof {
                assert(item == all[done]);
                assert(all.take(done + 1).drop_last() =~= all.take(done));
                assert(rest@ =~= all.subrange(all.len() - rest@.len(), all.len() as int));
            }
            match item {
                Self::Upsert(value) => to_upsert.push(value),
                Self::Delete(id) => to_delete.push(id),
            }
        }
        proof {
            assert(all.take(all.len() as int) =~= all);
        }
        (to_upsert, to_delete)
    }
}

impl<ID, T: PersistObjectId<ID>> UpsertOrDelete<ID, T> {
    /// The id the state is flushed for.
    pub fn get_id(&self) -> (r: &ID)
        ensures
            *r == (match *self {
                Self::Upsert(value) => value.persist_object_id(),
                Self::Delete(id) => id,
            }),
    {
        match self {
            Self::Upsert(value) => value.get_persist_object_id(),
            Self::Delete(id) => id,
        }
    }
}

/// Splitting a chunk loses nothing: every state lands on exactly one side.
pub proof fn law_split_partitions<ID, T>(items: Seq<UpsertOrDelete<ID, T>>)
    ensures
        upserts_of(items).len() + deletes_of(items).len() == items.len(),
    decreases items.len(),
{
    if items.len() > 0 {
        law_split_partitions(items.drop_last());
    }
}

} // verus!
