//! Searching a slice of items ordered by a key.
use vstd::prelude::*;

verus! {

/// A key by which items are ordered: every key stands for an integer, and two keys compare
/// as their integers do.
pub trait BinarySearchKey: Copy {
    spec fn order_value(self) -> int;

    fn key_lt(&self, other: &Self) -> (r: bool)
        ensures
            r == (self.order_value() < other.order_value()),
    ;

    fn key_eq(&self, other: &Self) -> (r: bool)
        ensures
            r == (self.order_value() == other.order_value()),
    ;
}

impl BinarySearchKey for i64 {
    open spec fn order_value(self) -> int {
        self as int
    }

    fn key_lt(&self, other: &Self) -> (r: bool) {
        *self < *other
    }

    fn key_eq(&self, other: &Self) -> (r: bool) {
        *self == *other
    }
}

impl BinarySearchKey for u64 {
    open spec fn order_value(self) -> int {
        self as int
    }

    fn key_lt(&self, other: &Self) -> (r: bool) {
        *self < *other
    }

    fn key_eq(&self, other: &Self) -> (r: bool) {
        *self == *other
    }
}

impl BinarySearchKey for i32 {
    open spec fn order_value(self) -> int {
        self as int
    }

    fn key_lt(&self, other: &Self) -> (r: bool) {
        *self < *other
    }

    fn key_eq(&self, other: &Self) -> (r: bool) {
        *self == *other
    }
}

impl BinarySearchKey for u32 {
    open spec fn order_value(self) -> int {
        self as int
    }

    fn key_lt(&self, other: &Self) -> (r: bool) {
        *self < *other
    }

    fn key_eq(&self, other: &Self) -> (r: bool) {
        *self == *other
    }
}

impl BinarySearchKey for usize {
    open spec fn order_value(self) -> int {
        self as int
    }

    fn key_lt(&self, other: &Self) -> (r: bool) {
        *self < *other
    }

    fn key_eq(&self, other: &Self) -> (r: bool) {
        *self == *other
    }
}

/// An item that carries the key it is searched by.
pub trait EntityWithBinarySearchKey<TKey: BinarySearchKey> {
    spec fn key_of(&self) -> TKey;

    fn get_key(&self) -> (r: &TKey)
        ensures
            *r == self.key_of(),
    ;
}

/// The integer that orders the item.
pub open spec fn item_order<TKey: BinarySearchKey, TItem: EntityWithBinarySearchKey<TKey>>(
    item: TItem,
) -> int {
    item.key_of().order_value()
}

/// The items come in the order of their keys.
pub open spec fn is_sorted_by_key<TKey: BinarySearchKey, TItem: EntityWithBinarySearchKey<TKey>>(
    items: Seq<TItem>,
) -> bool {
    forall|i: int, j: int|
        0 <= i <= j < items.len() ==> item_order(#[trigger] items[i]) <= item_order(
            #[trigger] items[j],
        )
}

/// Finds `key` among items sorted by key: `Ok(index)` of an item with that key, or
/// `Err(index)` of the place where an item with that key would have to be inserted.
pub fn binary_search<TKey: BinarySearchKey, TItem: EntityWithBinarySearchKey<TKey>>(
    items: &[TItem],
    key: TKey,
) -> (r: Result<usize, usize>)
    requires
        is_sorted_by_key(items@),
    ensures
        match r {
            Ok(index) => index < items@.len() && item_order(items@[index as int])
                == key.order_value(),
            Err(index) => index <= items@.len() && (forall|j: int|
                0 <= j < index ==> item_order(#[trigger] items@[j]) < key.order_value()) && (
            forall|j: int|
                index <= j < items@.len() ==> item_order(#[trigger] items@[j])
                    > key.order_value()),
        },
{
    let len = items.len();
    if len == 0 {
        return Err(0);
    }
    let ghost k = key.order_value();
    let first_item_key = *items[0].get_key();
    if first_item_key.key_eq(&key) {
        return Ok(0);
    }
    if key.key_lt(&first_item_key) {
        return Err(0);
    }
    let last_item_key = *items[len - 1].get_key();
    if last_item_key.key_eq(&key) {
        return Ok(len - 1);
    }
    if last_item_key.key_lt(&key) {
        return Err(len);
    }
    let mut left_index: usize = 0;
    let mut right_index: usize = len;
    loop
        invariant
            len == items@.len(),
            is_sorted_by_key(items@),
            k == key.order_value(),
            left_index < right_index <= len,
            left_index + 1 < len,
            item_order(items@[left_index as int]) < k,
            k < item_order(items@[len - 1]),
            right_index < len ==> k < item_order(items@[right_index as int]),
        decreases right_index - left_index,
    {
        let items_amount = right_index - left_index;
        if items_amount <= 5 {
            let mut prev_item_key = *items[left_index].get_key();
            let mut i = left_index + 1;
            while i <= right_index
                invariant
                    len == items@.len(),
                    is_sorted_by_key(items@),
                    k == key.order_value(),
                    left_index < i <= right_index + 1,
                    left_index < right_index <= len,
                    i <= len,
                    prev_item_key == items@[i - 1].key_of(),
                    prev_item_key.order_value() < k,
                    k < item_order(items@[len - 1]),
                    right_index < len ==> k < item_order(items@[right_index as int]),
                decreases right_index + 1 - i,
            {
                if prev_item_key.key_eq(&key) {
                    return Ok(i - 1);
                }
                if i == len {
                    assert(item_order(items@[len - 1]) <= prev_item_key.order_value());
                }
                let item_key = *items[i].get_key();
                if item_key.key_eq(&key) {
                    return Ok(i);
                }
                if prev_item_key.key_lt(&key) && key.key_lt(&item_key) {
                    return Err(i);
                }
                prev_item_key = item_key;
                i = i + 1;
                if i > right_index && right_index < len {
                    assert(item_order(items@[right_index as int]) < k);
                }
            }
            assert(false);
        }
        let middle_index = items_amount / 2 + left_index;
        let middle_index_key = *items[middle_index].get_key();
        if key.key_lt(&middle_index_key) {
            right_index = middle_index;
        } else if middle_index_key.key_lt(&key) {
            left_index = middle_index;
        } else {
            return Ok(middle_index);
        }
    }
}

} // verus!
