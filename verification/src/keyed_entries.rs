//! Plain ids: integers that compare and copy as plain data and key hash maps.
use vstd::prelude::*;

verus! {

/// An id that compares and copies as plain data does, and that keys a hash map as Verus
/// models one.
pub trait PlainId: Sized + View<V = Self> + Eq + std::hash::Hash {
    /// The id keys a hash map as Verus models one, and its view is the id itself.
    proof fn lemma_hash_key()
        ensures
            vstd::std_specs::hash::obeys_key_model::<Self>(),
            forall|a: Self| #[trigger] a@ == a,
    ;

    fn same_id(&self, other: &Self) -> (r: bool)
        ensures
            r == (*self == *other),
    ;

    fn clone_id(&self) -> (r: Self)
        ensures
            r == *self,
    ;
}

impl PlainId for u8 {
    proof fn lemma_hash_key() {
        broadcast use vstd::std_specs::hash::group_hash_axioms;

    }

    fn same_id(&self, other: &Self) -> (r: bool) {
        *self == *other
    }

    fn clone_id(&self) -> (r: Self) {
        *self
    }
}

impl PlainId for u16 {
    proof fn lemma_hash_key() {
        broadcast use vstd::std_specs::hash::group_hash_axioms;

    }

    fn same_id(&self, other: &Self) -> (r: bool) {
        *self == *other
    }

    fn clone_id(&self) -> (r: Self) {
        *self
    }
}

impl PlainId for u32 {
    proof fn lemma_hash_key() {
        broadcast use vstd::std_specs::hash::group_hash_axioms;

    }

    fn same_id(&self, other: &Self) -> (r: bool) {
        *self == *other
    }

    fn clone_id(&self) -> (r: Self) {
        *self
    }
}

impl PlainId for u64 {
    proof fn lemma_hash_key() {
        broadcast use vstd::std_specs::hash::group_hash_axioms;

    }

    fn same_id(&self, other: &Self) -> (r: bool) {
        *self == *other
    }

    fn clone_id(&self) -> (r: Self) {
        *self
    }
}

impl PlainId for usize {
    proof fn lemma_hash_key() {
        broadcast use vstd::std_specs::hash::group_hash_axioms;

    }

    fn same_id(&self, other: &Self) -> (r: bool) {
        *self == *other
    }

    fn clone_id(&self) -> (r: Self) {
        *self
    }
}

impl PlainId for i32 {
    proof fn lemma_hash_key() {
        broadcast use vstd::std_specs::hash::group_hash_axioms;

    }

    fn same_id(&self, other: &Self) -> (r: bool) {
        *self == *other
    }

    fn clone_id(&self) -> (r: Self) {
        *self
    }
}

impl PlainId for i64 {
    proof fn lemma_hash_key() {
        broadcast use vstd::std_specs::hash::group_hash_axioms;

    }

    fn same_id(&self, other: &Self) -> (r: bool) {
        *self == *other
    }

    fn clone_id(&self) -> (r: Self) {
        *self
    }
}

} // verus!
