//! The pair with the least key seen so far.
use vstd::prelude::*;

verus! {

/// Keeps the pair with the least key among those offered; of pairs with equal keys, the
/// first offered stays.
pub struct MinKeyValue<TKey: Copy, TValue: Clone> {
    value: Option<(TKey, TValue)>,
}

impl<TKey: Copy, TValue: Clone> View for MinKeyValue<TKey, TValue> {
    type V = Option<(TKey, TValue)>;

    closed spec fn view(&self) -> Option<(TKey, TValue)> {
        self.value
    }
}

/// A key that compares as an integer does.
pub trait MinKey: Copy {
    spec fn order_value(self) -> int;

    fn is_less(&self, other: &Self) -> (r: bool)
        ensures
            r == (self.order_value() < other.order_value()),
    ;
}

impl MinKey for i64 {
    open spec fn order_value(self) -> int {
        self as int
    }

    fn is_less(&self, other: &Self) -> (r: bool) {
        *self < *other
    }
}

impl MinKey for u64 {
    open spec fn order_value(self) -> int {
        self as int
    }

    fn is_less(&self, other: &Self) -> (r: bool) {
        *self < *other
    }
}

impl MinKey for i32 {
    open spec fn order_value(self) -> int {
        self as int
    }

    fn is_less(&self, other: &Self) -> (r: bool) {
        *self < *other
    }
}

impl MinKey for u32 {
    open spec fn order_value(self) -> int {
        self as int
    }

    fn is_less(&self, other: &Self) -> (r: bool) {
        *self < *other
    }
}

impl MinKey for usize {
    open spec fn order_value(self) -> int {
        self as int
    }

    fn is_less(&self, other: &Self) -> (r: bool) {
        *self < *other
    }
}

impl<TKey: MinKey, TValue: Clone> MinKeyValue<TKey, TValue> {
    pub fn new() -> (r: Self)
        ensures
            r@ is None,
    {
        Self { value: None }
    }

    /// The kept pair (its value cloned).
    pub fn get_value(&self) -> (r: Option<(TKey, TValue)>)
        ensures
            r is Some <==> self@ is Some,
            r is Some ==> r.unwrap().0 == self@.unwrap().0 && cloned(self@.unwrap().1, r.unwrap().1),
    {
        match &self.value {
            Some(k_v) => Some((k_v.0, k_v.1.clone())),
            None => None,
        }
    }

    /// Offers a pair: it is kept when nothing is kept yet or its key is less than the kept
    /// one.
    pub fn update(&mut self, key: TKey, value: TValue)
        ensures
            final(self)@ == (match old(self)@ {
                Some(k_v) => if key.order_value() < k_v.0.order_value() {
                    Some((key, value))
                } else {
                    old(self)@
                },
                None => Some((key, value)),
            }),
    {
        match &self.value {
            Some(k_v) => {
                if key.is_less(&k_v.0) {
                    self.value = Some((key, value));
                }
            },
            None => {
                self.value = Some((key, value));
            },
        }
    }
}

} // verus!
