//! Text that can be borrowed as a `&str`.
use vstd::prelude::*;

verus! {

/// Something that holds text and lends it as a `&str`.
pub trait AsStr {
    /// The text held.
    spec fn text(&self) -> Seq<char>;

    fn as_str(&self) -> (r: &str)
        ensures
            r@ == self.text(),
    ;
}

impl AsStr for String {
    open spec fn text(&self) -> Seq<char> {
        self@
    }

    fn as_str(&self) -> (r: &str) {
        self.as_str()
    }
}

impl AsStr for &'_ str {
    open spec fn text(&self) -> Seq<char> {
        (*self)@
    }

    fn as_str(&self) -> (r: &str) {
        self
    }
}

impl AsStr for str {
    open spec fn text(&self) -> Seq<char> {
        self@
    }

    fn as_str(&self) -> (r: &str) {
        self
    }
}

impl AsStr for &'_ String {
    open spec fn text(&self) -> Seq<char> {
        (*self)@
    }

    fn as_str(&self) -> (r: &str) {
        (*self).as_str()
    }
}

} // verus!
