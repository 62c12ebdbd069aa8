//! The type a generated wrapper wraps: `String`, or another type named by its text; what
//! the generated accessors and conversions are decided by.
use crate::date_time::as_microseconds::{trim_str, trimmed};
use crate::date_time::format::push_str;
use vstd::prelude::*;
use vstd::string::StrSliceExecFns;

verus! {

pub enum WrappedType<'s> {
    String,
    Other(&'s str),
}

impl<'s> WrappedType<'s> {
    /// `String` for the text `String`, any other type by its name.
    pub fn from_str(str: &'s str) -> (r: Self)
        ensures
            (r is String) <==> str@ == "String"@,
            r is Other ==> r->Other_0@ == str@,
    {
        if str.to_owned() == "String".to_owned() {
            return Self::String;
        }
        Self::Other(str)
    }

    pub fn is_string(&self) -> (r: bool)
        ensures
            r == (*self is String),
    {
        match self {
            WrappedType::String => true,
            WrappedType::Other(_) => false,
        }
    }

    /// The name of the type: `string` for `String`.
    pub fn as_str(&self) -> (r: &str)
        ensures
            r@ == (match *self {
                WrappedType::String => "string"@,
                WrappedType::Other(tp) => tp@,
            }),
    {
        match self {
            WrappedType::String => "string",
            WrappedType::Other(tp) => tp,
        }
    }
}

/// The first index at or after `i` where `c` stands.
pub open spec fn index_from(s: Seq<char>, c: char, i: int) -> Option<int>
    decreases s.len() - i,
{
    if i < 0 || i >= s.len() {
        None
    } else if s[i] == c {
        Some(i)
    } else {
        index_from(s, c, i + 1)
    }
}

/// The first index where `c` stands.
pub open spec fn first_index_of(s: Seq<char>, c: char) -> Option<int> {
    index_from(s, c, 0)
}

/// The text between `open` and `close` is the part a reader slices: it may not close
/// before it opens.
pub open spec fn brackets_in_order(s: Seq<char>, open: char, close: char) -> bool {
    match (first_index_of(s, open), first_index_of(s, close)) {
        (Some(o), Some(c)) => o < c,
        _ => true,
    }
}

/// The wrapped type a type text names, and whether it names it inside a wrapper such as
/// `Arc<..>`: the trimmed text between the first `<` and the first `>`, else the whole text.
pub open spec fn type_and_wrapper_spec(s: Seq<char>) -> (Seq<char>, bool) {
    match (first_index_of(s, '<'), first_index_of(s, '>')) {
        (Some(open), Some(close)) => (trimmed(s.subrange(open + 1, close)), true),
        _ => (s, false),
    }
}

/// The name of a wrapped type as the accessor names it: `string` for `String`.
pub open spec fn accessor_type_name(tp: Seq<char>) -> Seq<char> {
    if tp == "String"@ {
        "string"@
    } else {
        tp
    }
}

proof fn lemma_index_from(s: Seq<char>, c: char, i: int)
    requires
        0 <= i,
    ensures
        match index_from(s, c, i) {
            Some(j) => i <= j < s.len() && s[j] == c,
            None => true,
        },
    decreases s.len() - i,
{
    if i < s.len() && s[i] != c {
        lemma_index_from(s, c, i + 1);
    }
}

fn find_char(s: &str, c: char) -> (r: Option<usize>)
    ensures
        match first_index_of(s@, c) {
            Some(i) => r is Some && r->0 == i && 0 <= i < s@.len() && s@[i] == c,
            None => r is None,
        },
{
    proof {
        lemma_index_from(s@, c, 0);
    }
    let n = s.unicode_len();
    let mut i: usize = 0;
    while i < n
        invariant
            n == s@.len(),
            0 <= i <= n,
            first_index_of(s@, c) == index_from(s@, c, i as int),
        decreases n - i,
    {
        if s.get_char(i) == c {
            return Some(i);
        }
        i = i + 1;
    }
    None
}

/// The text of the type a wrapper struct wraps.
pub struct ExtractedType<'s> {
    pub tp_str: &'s str,
}

impl<'s> ExtractedType<'s> {
    /// The wrapped type, and whether the type text puts it inside a wrapper (`Arc<String>`
    /// wraps `String`).
    pub fn get_type_and_wrapper(&self) -> (r: (WrappedType<'s>, bool))
        requires
            brackets_in_order(self.tp_str@, '<', '>'),
        ensures
            r.1 == type_and_wrapper_spec(self.tp_str@).1,
            (r.0 is String) <==> type_and_wrapper_spec(self.tp_str@).0 == "String"@,
            r.0 is Other ==> r.0->Other_0@ == type_and_wrapper_spec(self.tp_str@).0,
    {
        let tp_str: &'s str = self.tp_str;
        match find_char(tp_str, '<') {
            Some(start) => match find_char(tp_str, '>') {
                Some(end) => {
                    proof {
                        assert(first_index_of(tp_str@, '<') == Some(start as int));
                        assert(first_index_of(tp_str@, '>') == Some(end as int));
                    }
                    let inner: &'s str = tp_str.substring_char(start + 1, end);
                    (WrappedType::from_str(trim_str(inner)), true)
                },
                None => (WrappedType::from_str(tp_str), false),
            },
            None => (WrappedType::from_str(tp_str), false),
        }
    }

    /// The name of the accessor of the wrapped value: `as_` and the type name; `None` for a
    /// `String` inside a wrapper, which gets `as_str`, `to_string` and `as_ref` instead.
    pub fn as_value_fn_name(&self) -> (r: Option<String>)
        requires
            brackets_in_order(self.tp_str@, '<', '>'),
        ensures
            ({
                let (tp, wrapped) = type_and_wrapper_spec(self.tp_str@);
                if wrapped && tp == "String"@ {
                    r is None
                } else {
                    r matches Some(name) && name@ == "as_"@ + accessor_type_name(tp)
                }
            }),
    {
        let (wrapped_tp, wrapped) = self.get_type_and_wrapper();
        if wrapped && wrapped_tp.is_string() {
            return None;
        }
        let mut name = "as_".to_owned();
        push_str(&mut name, wrapped_tp.as_str());
        proof {
            reveal_strlit("as_");
            reveal_strlit("String");
            reveal_strlit("string");
        }
        Some(name)
    }

    /// Whether a `String` converts into the wrapper too, besides the type text itself: so
    /// for a `String` inside a wrapper.
    pub fn converts_from_string(&self) -> (r: bool)
        requires
            brackets_in_order(self.tp_str@, '<', '>'),
        ensures
            r == (type_and_wrapper_spec(self.tp_str@).1 && type_and_wrapper_spec(self.tp_str@).0
                == "String"@),
    {
        let (wrapped_tp, wrapped) = self.get_type_and_wrapper();
        wrapped && wrapped_tp.is_string()
    }
}

/// The type text inside the first `(` and the first `)` of a tuple struct's text, trimmed.
pub fn extract_type<'s>(input_as_string: &'s str) -> (r: ExtractedType<'s>)
    requires
        first_index_of(input_as_string@, '(') is Some,
        first_index_of(input_as_string@, ')') is Some,
        brackets_in_order(input_as_string@, '(', ')'),
    ensures
        r.tp_str@ == trimmed(
            input_as_string@.subrange(
                first_index_of(input_as_string@, '(')->0 + 1,
                first_index_of(input_as_string@, ')')->0,
            ),
        ),
{
    let open = match find_char(input_as_string, '(') {
        Some(i) => i,
        None => 0,
    };
    let close = match find_char(input_as_string, ')') {
        Some(i) => i,
        None => 0,
    };
    proof {
        assert(first_index_of(input_as_string@, '(') == Some(open as int));
        assert(first_index_of(input_as_string@, ')') == Some(close as int));
    }
    let inner: &'s str = input_as_string.substring_char(open + 1, close);
    ExtractedType { tp_str: trim_str(inner) }
}

} // verus!
