//! The state of an idempotency cache: one queue of keys, new keys at the back. Completed
//! results are kept up to a limit and evicted oldest completion first; keys being executed
//! are never evicted.
use super::idempotency_entry::{IdempotencyCacheItem, IdempotencyEntry};
use std::collections::VecDeque;
use vstd::prelude::*;

verus! {

/// The number of completed entries.
pub open spec fn completed_count<W, R>(items: Seq<IdempotencyCacheItem<W, R>>) -> nat
    decreases items.len(),
{
    if items.len() == 0 {
        0
    } else {
        completed_count(items.drop_last()) + if items.last().entry is Completed {
            1nat
        } else {
            0nat
        }
    }
}

/// No key occurs twice.
pub open spec fn keys_unique<W, R>(items: Seq<IdempotencyCacheItem<W, R>>) -> bool {
    forall|i: int, j: int|
        0 <= i < items.len() && 0 <= j < items.len() && i != j ==> (#[trigger] items[i]).key@
            != (#[trigger] items[j]).key@
}

/// Whether an entry of the key is held.
pub open spec fn has_key<W, R>(items: Seq<IdempotencyCacheItem<W, R>>, key: Seq<char>) -> bool {
    exists|i: int| 0 <= i < items.len() && (#[trigger] items[i]).key@ == key
}

/// The items without the `n` oldest completed entries.
pub open spec fn drop_oldest_completed<W, R>(items: Seq<IdempotencyCacheItem<W, R>>, n: nat) -> Seq<
    IdempotencyCacheItem<W, R>,
>
    decreases items.len(),
{
    if items.len() == 0 || n == 0 {
        items
    } else if items[0].entry is Completed {
        drop_oldest_completed(items.drop_first(), (n - 1) as nat)
    } else {
        seq![items[0]] + drop_oldest_completed(items.drop_first(), n)
    }
}

/// The entries being executed, in their order.
pub open spec fn executing_of<W, R>(items: Seq<IdempotencyCacheItem<W, R>>) -> Seq<
    IdempotencyCacheItem<W, R>,
>
    decreases items.len(),
{
    if items.len() == 0 {
        seq![]
    } else if items[0].entry is Completed {
        executing_of(items.drop_first())
    } else {
        seq![items[0]] + executing_of(items.drop_first())
    }
}

/// What a key is found as.
pub enum Lookup<'a, R> {
    /// Done: here is its memorized result.
    Completed(&'a R),
    /// Being executed: the entry at this index.
    Executing(usize),
    /// Unknown: nobody executes it and nothing is memorized.
    Unknown,
}

/// What a caller of a key gets when it comes in: the key is done, and its memorized result
/// is read with `lookup`; or another caller executes it, and the waiter is parked on it; or
/// the key is unknown, and this caller executes it. A waiter that is not parked is handed
/// back.
pub enum Claim<W> {
    Completed(W),
    Parked,
    Owner(W),
}

pub struct IdempotencyCacheInner<W, R> {
    items: VecDeque<IdempotencyCacheItem<W, R>>,
    max_amount: usize,
}

impl<W, R> IdempotencyCacheInner<W, R> {
    pub closed spec fn items(&self) -> Seq<IdempotencyCacheItem<W, R>> {
        self.items@
    }

    pub closed spec fn max_amount(&self) -> nat {
        self.max_amount as nat
    }

    /// The state every operation keeps: keys are unique and at most `max_amount` results are
    /// memorized.
    pub open spec fn is_valid(&self) -> bool {
        keys_unique(self.items()) && completed_count(self.items()) <= self.max_amount()
    }

    /// An empty cache that memorizes up to `max_amount` results.
    pub fn new(max_amount: usize) -> (r: Self)
        ensures
            r.is_valid(),
            r.items() == Seq::<IdempotencyCacheItem<W, R>>::empty(),
            r.max_amount() == max_amount,
    {
        Self { items: VecDeque::new(), max_amount }
    }

    /// The index of the entry of the key.
    pub fn find_index(&self, key: &str) -> (r: Option<usize>)
        requires
            self.is_valid(),
        ensures
            match r {
                Some(i) => i < self.items().len() && self.items()[i as int].key@ == key@,
                None => !has_key(self.items(), key@),
            },
    {
        let key_string = key.to_owned();
        let mut i: usize = 0;
        while i < self.items.len()
            invariant
                i <= self.items@.len(),
                key_string@ == key@,
                forall|j: int| 0 <= j < i ==> (#[trigger] self.items@[j]).key@ != key@,
            decreases self.items@.len() - i,
        {
            if self.items[i].key == key_string {
                return Some(i);
            }
            i = i + 1;
        }
        None
    }

    /// How many results are memorized.
    pub fn get_completed_amount(&self) -> (r: usize)
        ensures
            r == completed_count(self.items()),
    {
        let mut count: usize = 0;
        let mut i: usize = 0;
        while i < self.items.len()
            invariant
                i <= self.items@.len(),
                count == completed_count(self.items@.take(i as int)),
                count <= i,
            decreases self.items@.len() - i,
        {
            assert(self.items@.take(i + 1).drop_last() =~= self.items@.take(i as int));
            if self.items[i].entry.is_completed() {
                count = count + 1;
            }
            i = i + 1;
        }
        assert(self.items@.take(self.items@.len() as int) =~= self.items@);
        count
    }

    /// How many executions are in flight.
    pub fn get_executing_amount(&self) -> (r: usize)
        ensures
            r == self.items().len() - completed_count(self.items()),
    {
        proof {
            lemma_completed_count_bound(self.items());
        }
        self.items.len() - self.get_completed_amount()
    }

    /// What the key is found as.
    pub fn lookup(&self, key: &str) -> (r: Lookup<'_, R>)
        requires
            self.is_valid(),
        ensures
            match r {
                Lookup::Completed(result) => exists|i: int|
                    0 <= i < self.items().len() && self.items()[i].key@ == key@
                        && #[trigger] self.items()[i].entry == IdempotencyEntry::<W, R>::Completed(
                        *result,
                    ),
                Lookup::Executing(i) => i < self.items().len() && self.items()[i as int].key@
                    == key@ && self.items()[i as int].entry is Executing,
                Lookup::Unknown => !has_key(self.items(), key@),
            },
    {
        match self.find_index(key) {
            Some(index) => match &self.items[index].entry {
                IdempotencyEntry::Completed(result) => Lookup::Completed(result),
                IdempotencyEntry::Executing(_) => Lookup::Executing(index),
            },
            None => Lookup::Unknown,
        }
    }

    /// Parks a waiter on the entry being executed at `index`.
    pub fn park(&mut self, index: usize, waiter: W)
        requires
            old(self).is_valid(),
            index < old(self).items().len(),
            old(self).items()[index as int].entry is Executing,
        ensures
            final(self).is_valid(),
            final(self).max_amount() == old(self).max_amount(),
            final(self).items().len() == old(self).items().len(),
            forall|j: int|
                0 <= j < old(self).items().len() && j != index ==> final(self).items()[j]
                    == old(self).items()[j],
            final(self).items()[index as int].key == old(self).items()[index as int].key,
            final(self).items()[index as int].entry is Executing,
            final(self).items()[index as int].entry->Executing_0@ == old(self).items()[
                index as int].entry->Executing_0@.push(waiter),
    {
        let mut item = self.take_at(index);
        proof {
            lemma_count_remove(old(self).items(), index as int);
        }
        match &mut item.entry {
            IdempotencyEntry::Executing(waiters) => waiters.push(waiter),
            IdempotencyEntry::Completed(_) => {},
        }
        self.items.insert(index, item);
        proof {
            let a = old(self).items();
            let b = self.items@;
            assert(b =~= a.remove(index as int).insert(index as int, item));
            lemma_count_insert(a.remove(index as int), index as int, item);
            assert forall|i: int, j: int|
                0 <= i < b.len() && 0 <= j < b.len() && i != j implies (#[trigger] b[i]).key@
                != (#[trigger] b[j]).key@ by {
                assert(b[i].key == a[i].key && b[j].key == a[j].key);
            }
        }
    }

    /// Claims an unknown key: an entry being executed, with nobody parked, goes to the back.
    pub fn start_execution(&mut self, key: String)
        requires
            old(self).is_valid(),
            !has_key(old(self).items(), key@),
        ensures
            final(self).is_valid(),
            final(self).max_amount() == old(self).max_amount(),
            final(self).items().len() == old(self).items().len() + 1,
            final(self).items().drop_last() == old(self).items(),
            final(self).items().last().key == key,
            final(self).items().last().entry is Executing,
            final(self).items().last().entry->Executing_0@ == Seq::<W>::empty(),
    {
        let item = IdempotencyCacheItem { key, entry: IdempotencyEntry::Executing(Vec::new()) };
        self.items.push_back(item);
        proof {
            let a = old(self).items();
            let b = self.items@;
            assert(b.drop_last() =~= a);
            assert forall|i: int, j: int|
                0 <= i < b.len() && 0 <= j < b.len() && i != j implies (#[trigger] b[i]).key@
                != (#[trigger] b[j]).key@ by {
                if i < a.len() && j < a.len() {
                    assert(b[i] == a[i] && b[j] == a[j]);
                } else if i < a.len() {
                    assert(b[i] == a[i]);
                } else if j < a.len() {
                    assert(b[j] == a[j]);
                }
            }
        }
    }

    /// The decision for a caller of `key` that brings `waiter`: a completed key is answered
    /// from memory and nothing changes; a key being executed gets the waiter parked on it; an
    /// unknown key is claimed for this caller, as a new entry being executed at the back.
    pub fn claim(&mut self, key: &str, waiter: W) -> (r: Claim<W>)
        requires
            old(self).is_valid(),
        ensures
            final(self).is_valid(),
            final(self).max_amount() == old(self).max_amount(),
            match r {
                Claim::Completed(w) => {
                    &&& w == waiter
                    &&& final(self).items() == old(self).items()
                    &&& exists|i: int|
                        0 <= i < old(self).items().len() && (#[trigger] old(self).items()[i]).key@
                            == key@ && old(self).items()[i].entry is Completed
                },
                Claim::Parked => exists|i: int|
                    {
                        &&& 0 <= i < old(self).items().len()
                        &&& (#[trigger] old(self).items()[i]).key@ == key@
                        &&& old(self).items()[i].entry is Executing
                        &&& final(self).items().len() == old(self).items().len()
                        &&& forall|j: int|
                            0 <= j < old(self).items().len() && j != i ==> final(self).items()[j]
                                == old(self).items()[j]
                        &&& final(self).items()[i].key == old(self).items()[i].key
                        &&& final(self).items()[i].entry is Executing
                        &&& final(self).items()[i].entry->Executing_0@ == old(self).items()[
                            i].entry->Executing_0@.push(waiter)
                    },
                Claim::Owner(w) => {
                    &&& w == waiter
                    &&& !has_key(old(self).items(), key@)
                    &&& final(self).items().len() == old(self).items().len() + 1
                    &&& final(self).items().drop_last() == old(self).items()
                    &&& final(self).items().last().key@ == key@
                    &&& final(self).items().last().entry is Executing
                    &&& final(self).items().last().entry->Executing_0@ == Seq::<W>::empty()
                },
            },
    {
        match self.find_index(key) {
            Some(index) => {
                if self.items[index].entry.is_completed() {
                    Claim::Completed(waiter)
                } else {
                    self.park(index, waiter);
                    Claim::Parked
                }
            },
            None => {
                self.start_execution(key.to_owned());
                Claim::Owner(waiter)
            },
        }
    }

    /// Drops the oldest memorized results until at most `max_amount` are left; entries being
    /// executed are never dropped.
    pub fn gc(&mut self)
        requires
            keys_unique(old(self).items()),
        ensures
            final(self).is_valid(),
            final(self).max_amount() == old(self).max_amount(),
            final(self).items() == drop_oldest_completed(
                old(self).items(),
                if completed_count(old(self).items()) > old(self).max_amount() {
                    (completed_count(old(self).items()) - old(self).max_amount()) as nat
                } else {
                    0
                },
            ),
            completed_count(final(self).items()) == if completed_count(old(self).items())
                > old(self).max_amount() {
                old(self).max_amount()
            } else {
                completed_count(old(self).items())
            },
            executing_of(final(self).items()) == executing_of(old(self).items()),
    {
        let ghost start = self.items@;
        proof {
            let excess: nat = if completed_count(start) > self.max_amount() {
                (completed_count(start) - self.max_amount()) as nat
            } else {
                0
            };
            lemma_drop_count(start, excess);
            law_gc_keeps_executions(start, excess);
        }
        let ghost excess: nat = if completed_count(start) > self.max_amount() {
            (completed_count(start) - self.max_amount()) as nat
        } else {
            0
        };
        let mut count = self.get_completed_amount();
        while count > self.max_amount
            invariant
                keys_unique(self.items@),
                count == completed_count(self.items@),
                self.max_amount == old(self).max_amount,
                drop_oldest_completed(start, excess) == drop_oldest_completed(
                    self.items@,
                    if count > self.max_amount {
                        (count - self.max_amount) as nat
                    } else {
                        0
                    },
                ),
            decreases count,
        {
            let index = self.first_completed_index();
            let ghost before = self.items@;
            proof {
                lemma_drop_first_completed(before, index as int, (count - self.max_amount) as nat);
                lemma_count_remove(before, index as int);
                lemma_unique_remove(before, index as int);
            }
            self.take_at(index);
            count = count - 1;
        }
    }

    /// Takes the entry at `index` out of the queue.
    fn take_at(&mut self, index: usize) -> (r: IdempotencyCacheItem<W, R>)
        requires
            index < old(self).items().len(),
        ensures
            r == old(self).items()[index as int],
            final(self).items() == old(self).items().remove(index as int),
            final(self).max_amount() == old(self).max_amount(),
    {
        match self.items.remove(index) {
            Some(item) => item,
            None => {
                proof {
                    assert(false);
                }
                unreached()
            },
        }
    }

    /// The index of the oldest memorized result.
    fn first_completed_index(&self) -> (r: usize)
        requires
            completed_count(self.items()) > 0,
        ensures
            r < self.items().len(),
            self.items()[r as int].entry is Completed,
            forall|j: int| 0 <= j < r ==> !(#[trigger] self.items()[j].entry is Completed),
    {
        let mut i: usize = 0;
        while i < self.items.len()
            invariant
                i <= self.items@.len(),
                completed_count(self.items@) > 0,
                forall|j: int| 0 <= j < i ==> !(#[trigger] self.items@[j].entry is Completed),
            decreases self.items@.len() - i,
        {
            if self.items[i].entry.is_completed() {
                return i;
            }
            i = i + 1;
        }
        proof {
            lemma_no_completed(self.items@);
        }
        0
    }

    /// Memorizes the result of the execution of the key: its entry moves to the back as
    /// completed (so eviction goes by completion time), old results are evicted, and those
    /// who parked on it are handed back.
    pub fn commit(&mut self, key: &str, result: R) -> (r: Vec<W>)
        requires
            old(self).is_valid(),
        ensures
            final(self).is_valid(),
            final(self).max_amount() == old(self).max_amount(),
            !has_key(old(self).items(), key@) ==> final(self).items() == old(self).items()
                && r@ == Seq::<W>::empty(),
            forall|i: int|
                0 <= i < old(self).items().len() && old(self).items()[i].key@ == key@ ==> {
                    let moved = old(self).items().remove(i).push(
                        IdempotencyCacheItem {
                            key: old(self).items()[i].key,
                            entry: IdempotencyEntry::Completed(result),
                        },
                    );
                    &&& final(self).items() == drop_oldest_completed(
                        moved,
                        if completed_count(moved) > old(self).max_amount() {
                            (completed_count(moved) - old(self).max_amount()) as nat
                        } else {
                            0
                        },
                    )
                    &&& r@ == (match old(self).items()[i].entry {
                        IdempotencyEntry::Executing(waiters) => waiters@,
                        IdempotencyEntry::Completed(_) => Seq::<W>::empty(),
                    })
                },
            has_key(old(self).items(), key@) && old(self).max_amount() > 0 ==> {
                &&& final(self).items().len() > 0
                &&& final(self).items().last().key@ == key@
                &&& final(self).items().last().entry == IdempotencyEntry::<W, R>::Completed(result)
            },
    {
        let index = match self.find_index(key) {
            Some(index) => index,
            None => return Vec::new(),
        };
        let ghost a = self.items@;
        let item = self.take_at(index);
        proof {
            lemma_count_remove(a, index as int);
            lemma_unique_remove(a, index as int);
        }
        let previous = item.entry;
        let completed = IdempotencyCacheItem { key: item.key, entry: IdempotencyEntry::Completed(result) };
        self.items.push_back(completed);
        proof {
            let b = self.items@;
            let mid = a.remove(index as int);
            assert(b.drop_last() =~= mid);
            assert forall|i: int, j: int|
                0 <= i < b.len() && 0 <= j < b.len() && i != j implies (#[trigger] b[i]).key@
                != (#[trigger] b[j]).key@ by {
                if i == b.len() - 1 {
                    assert(b[i].key == a[index as int].key);
                    if j >= index {
                        assert(b[j] == a[j + 1]);
                    } else {
                        assert(b[j] == a[j]);
                    }
                } else if j == b.len() - 1 {
                    assert(b[j].key == a[index as int].key);
                    if i >= index {
                        assert(b[i] == a[i + 1]);
                    } else {
                        assert(b[i] == a[i]);
                    }
                } else {
                    assert(b[i] == mid[i] && b[j] == mid[j]);
                }
            }
            assert forall|i: int| 0 <= i < a.len() && a[i].key@ == key@ implies i == index by {
                if i != index {
                    assert(a[i].key@ != a[index as int].key@);
                }
            }
        }
        proof {
            let moved = self.items@;
            lemma_count_first_push(moved);
            if self.max_amount > 0 {
                lemma_drop_keeps_newest(
                    moved,
                    if completed_count(moved) > self.max_amount() {
                        (completed_count(moved) - self.max_amount()) as nat
                    } else {
                        0
                    },
                );
            }
        }
        self.gc();
        match previous {
            IdempotencyEntry::Executing(waiters) => waiters,
            IdempotencyEntry::Completed(_) => Vec::new(),
        }
    }

    /// Frees the key of an execution that ended without a result (its owner was cancelled,
    /// panicked or timed out): its entry is removed and handed back, with whoever parked on it.
    pub fn release(&mut self, key: &str) -> (r: Option<IdempotencyCacheItem<W, R>>)
        requires
            old(self).is_valid(),
        ensures
            final(self).is_valid(),
            final(self).max_amount() == old(self).max_amount(),
            match r {
                Some(item) => exists|i: int|
                    0 <= i < old(self).items().len() && old(self).items()[i] == item && item.key@
                        == key@ && final(self).items() == old(self).items().remove(i),
                None => !has_key(old(self).items(), key@) && final(self).items() == old(
                    self,
                ).items(),
            },
    {
        match self.find_index(key) {
            Some(index) => {
                proof {
                    lemma_count_remove(self.items@, index as int);
                    lemma_unique_remove(self.items@, index as int);
                }
                Some(self.take_at(index))
            },
            None => None,
        }
    }
}

proof fn lemma_count_remove<W, R>(s: Seq<IdempotencyCacheItem<W, R>>, i: int)
    requires
        0 <= i < s.len(),
    ensures
        completed_count(s.remove(i)) == completed_count(s) - if s[i].entry is Completed {
            1int
        } else {
            0int
        },
    decreases s.len(),
{
    if i == s.len() - 1 {
        assert(s.remove(i) =~= s.drop_last());
    } else {
        lemma_count_remove(s.drop_last(), i);
        assert(s.remove(i).drop_last() =~= s.drop_last().remove(i));
        assert(s.remove(i).last() == s.last());
    }
}

proof fn lemma_count_insert<W, R>(s: Seq<IdempotencyCacheItem<W, R>>, i: int, x: IdempotencyCacheItem<W, R>)
    requires
        0 <= i <= s.len(),
    ensures
        completed_count(s.insert(i, x)) == completed_count(s) + if x.entry is Completed {
            1int
        } else {
            0int
        },
    decreases s.len(),
{
    if i == s.len() {
        assert(s.insert(i, x) =~= s.push(x));
        assert(s.push(x).drop_last() =~= s);
    } else {
        lemma_count_insert(s.drop_last(), i, x);
        assert(s.insert(i, x).drop_last() =~= s.drop_last().insert(i, x));
        assert(s.insert(i, x).last() == s.last());
    }
}

proof fn lemma_unique_remove<W, R>(s: Seq<IdempotencyCacheItem<W, R>>, i: int)
    requires
        0 <= i < s.len(),
        keys_unique(s),
    ensures
        keys_unique(s.remove(i)),
{
    let b = s.remove(i);
    assert forall|x: int, y: int|
        0 <= x < b.len() && 0 <= y < b.len() && x != y implies (#[trigger] b[x]).key@
        != (#[trigger] b[y]).key@ by {
        let xs = if x < i { x } else { x + 1 };
        let ys = if y < i { y } else { y + 1 };
        assert(b[x] == s[xs] && b[y] == s[ys]);
    }
}

proof fn lemma_no_completed<W, R>(s: Seq<IdempotencyCacheItem<W, R>>)
    requires
        forall|j: int| 0 <= j < s.len() ==> !(#[trigger] s[j].entry is Completed),
    ensures
        completed_count(s) == 0,
    decreases s.len(),
{
    if s.len() > 0 {
        assert forall|j: int| 0 <= j < s.drop_last().len() implies !(
        #[trigger] s.drop_last()[j].entry is Completed) by {
            assert(s.drop_last()[j] == s[j]);
        }
        lemma_no_completed(s.drop_last());
    }
}

/// Dropping the oldest completed entry first and then `n - 1` more is dropping `n`.
proof fn lemma_drop_first_completed<W, R>(s: Seq<IdempotencyCacheItem<W, R>>, p: int, n: nat)
    requires
        0 <= p < s.len(),
        s[p].entry is Completed,
        forall|j: int| 0 <= j < p ==> !(#[trigger] s[j].entry is Completed),
        n >= 1,
    ensures
        drop_oldest_completed(s, n) == drop_oldest_completed(s.remove(p), (n - 1) as nat),
    decreases p,
{
    if p == 0 {
        assert(s.remove(0) =~= s.drop_first());
    } else {
        let t = s.drop_first();
        assert forall|j: int| 0 <= j < p - 1 implies !(#[trigger] t[j].entry is Completed) by {
            assert(t[j] == s[j + 1]);
        }
        lemma_drop_first_completed(t, p - 1, n);
        assert(s.remove(p) =~= seq![s[0]] + t.remove(p - 1));
        assert(s.remove(p).drop_first() =~= t.remove(p - 1));
        assert(!(s[0].entry is Completed));
        if n - 1 == 0 {
            assert(drop_oldest_completed(s.remove(p), 0) == s.remove(p));
        }
    }
}

/// Dropping completed entries keeps every entry being executed, in its order.
pub proof fn law_gc_keeps_executions<W, R>(items: Seq<IdempotencyCacheItem<W, R>>, n: nat)
    ensures
        executing_of(drop_oldest_completed(items, n)) == executing_of(items),
    decreases items.len(),
{
    if items.len() > 0 && n > 0 {
        law_gc_keeps_executions(items.drop_first(), if items[0].entry is Completed {
            (n - 1) as nat
        } else {
            n
        });
        if !(items[0].entry is Completed) {
            let rest = drop_oldest_completed(items.drop_first(), n);
            assert((seq![items[0]] + rest)[0] == items[0]);
            assert((seq![items[0]] + rest).drop_first() =~= rest);
        }
    }
}

/// A retry after a commit gets the committed answer back: once the newest entry is the key
/// completed with a result, every entry of that key holds that result.
pub proof fn law_retry_after_commit_gets_the_result<W, R>(
    cache: IdempotencyCacheInner<W, R>,
    key: Seq<char>,
    result: R,
)
    requires
        cache.is_valid(),
        cache.items().len() > 0,
        cache.items().last().key@ == key,
        cache.items().last().entry == IdempotencyEntry::<W, R>::Completed(result),
    ensures
        forall|i: int|
            0 <= i < cache.items().len() && #[trigger] cache.items()[i].key@ == key
                ==> cache.items()[i].entry == IdempotencyEntry::<W, R>::Completed(result),
{
    let items = cache.items();
    assert forall|i: int| 0 <= i < items.len() && #[trigger] items[i].key@ == key implies items[i].entry
        == IdempotencyEntry::<W, R>::Completed(result) by {
        if i != items.len() - 1 {
            assert(items[i].key@ != items[items.len() - 1].key@);
        }
    }
}

/// The last entry counts once more than the ones before it when it is completed.
proof fn lemma_count_first_push<W, R>(s: Seq<IdempotencyCacheItem<W, R>>)
    requires
        s.len() > 0,
        s.last().entry is Completed,
    ensures
        completed_count(s) >= 1,
{
}

/// Counting from the front: the first entry, then the rest.
proof fn lemma_count_first<W, R>(s: Seq<IdempotencyCacheItem<W, R>>)
    requires
        s.len() > 0,
    ensures
        completed_count(s) == completed_count(s.drop_first()) + if s[0].entry is Completed {
            1int
        } else {
            0int
        },
{
    lemma_count_remove(s, 0);
    assert(s.remove(0) =~= s.drop_first());
}

/// Dropping `n` of the oldest completed entries, when there are that many, leaves `n` fewer.
proof fn lemma_drop_count<W, R>(s: Seq<IdempotencyCacheItem<W, R>>, n: nat)
    requires
        n <= completed_count(s),
    ensures
        completed_count(drop_oldest_completed(s, n)) == completed_count(s) - n,
    decreases s.len(),
{
    if s.len() > 0 && n > 0 {
        lemma_count_first(s);
        let rest = s.drop_first();
        if s[0].entry is Completed {
            lemma_drop_count(rest, (n - 1) as nat);
        } else {
            lemma_drop_count(rest, n);
            let kept = seq![s[0]] + drop_oldest_completed(rest, n);
            lemma_count_first(kept);
            assert(kept[0] == s[0]);
            assert(kept.drop_first() =~= drop_oldest_completed(rest, n));
        }
    }
}

/// Dropping fewer completed entries than there are keeps the newest entry, when it is completed.
proof fn lemma_drop_keeps_newest<W, R>(s: Seq<IdempotencyCacheItem<W, R>>, n: nat)
    requires
        s.len() > 0,
        s.last().entry is Completed,
        n < completed_count(s),
    ensures
        drop_oldest_completed(s, n).len() > 0,
        drop_oldest_completed(s, n).last() == s.last(),
    decreases s.len(),
{
    if n > 0 {
        lemma_count_first(s);
        let t = s.drop_first();
        if t.len() == 0 {
            assert(completed_count(t) == 0);
        } else {
            assert(t.last() == s.last());
            if s[0].entry is Completed {
                lemma_drop_keeps_newest(t, (n - 1) as nat);
            } else {
                lemma_drop_keeps_newest(t, n);
                let rest = drop_oldest_completed(t, n);
                assert((seq![s[0]] + rest).last() == rest.last());
            }
        }
    }
}

proof fn lemma_completed_count_bound<W, R>(items: Seq<IdempotencyCacheItem<W, R>>)
    ensures
        completed_count(items) <= items.len(),
    decreases items.len(),
{
    if items.len() > 0 {
        lemma_completed_count_bound(items.drop_last());
    }
}

} // verus!
