//! JSON values as the web services send and receive them, and reading fields out of them.

use vstd::prelude::*;
use crate::text::str_equal;

verus! {

/// A JSON value. Numbers keep their text; objects keep their members in order, each key once.
pub enum JsonValue {
    Null,
    Bool(bool),
    Number(String),
    Str(String),
    Array(Vec<JsonValue>),
    Object(Vec<(String, JsonValue)>),
}

/// The value of the first member named `key`.
pub open spec fn entry_value(entries: Seq<(String, JsonValue)>, key: Seq<char>) -> Option<JsonValue>
    decreases entries.len(),
{
    if entries.len() == 0 {
        None
    } else if entries[0].0@ == key {
        Some(entries[0].1)
    } else {
        entry_value(entries.drop_first(), key)
    }
}

/// The member `key` of an object; nothing for other values.
pub open spec fn member(v: JsonValue, key: Seq<char>) -> Option<JsonValue> {
    match v {
        JsonValue::Object(entries) => entry_value(entries@, key),
        _ => None,
    }
}

/// The element at `i` of an array; nothing for other values.
pub open spec fn element(v: JsonValue, i: int) -> Option<JsonValue> {
    match v {
        JsonValue::Array(items) => if 0 <= i < items@.len() {
            Some(items@[i])
        } else {
            None
        },
        _ => None,
    }
}

/// The text of a string value; nothing for other values.
pub open spec fn string_of(v: JsonValue) -> Option<Seq<char>> {
    match v {
        JsonValue::Str(s) => Some(s@),
        _ => None,
    }
}

/// `member`, where there is a value.
pub open spec fn opt_member(o: Option<JsonValue>, key: Seq<char>) -> Option<JsonValue> {
    match o {
        Some(v) => member(v, key),
        None => None,
    }
}

/// `element`, where there is a value.
pub open spec fn opt_element(o: Option<JsonValue>, i: int) -> Option<JsonValue> {
    match o {
        Some(v) => element(v, i),
        None => None,
    }
}

/// `string_of`, where there is a value.
pub open spec fn opt_string(o: Option<JsonValue>) -> Option<Seq<char>> {
    match o {
        Some(v) => string_of(v),
        None => None,
    }
}

/// The value of an object that has exactly one member, named `key`.
pub open spec fn only_member(o: Option<JsonValue>, key: Seq<char>) -> Option<JsonValue> {
    match o {
        Some(JsonValue::Object(entries)) => if entries@.len() == 1 && entries@[0].0@ == key {
            Some(entries@[0].1)
        } else {
            None
        },
        _ => None,
    }
}

/// The element of an array that has exactly one element.
pub open spec fn only_element(o: Option<JsonValue>) -> Option<JsonValue> {
    match o {
        Some(JsonValue::Array(items)) => if items@.len() == 1 {
            Some(items@[0])
        } else {
            None
        },
        _ => None,
    }
}

impl JsonValue {
    /// The member `key` of an object; `None` for other values.
    pub fn get_member(&self, key: &str) -> (r: Option<&JsonValue>)
        ensures
            r matches Some(x) ==> member(*self, key@) == Some(*x),
            r is None ==> member(*self, key@) is None,
    {
        match self {
            JsonValue::Object(entries) => {
                let n = entries.len();
                let mut i: usize = 0;
                proof {
                    assert(entries@.skip(0) =~= entries@);
                }
                while i < n
                    invariant
                        n == entries@.len(),
                        i <= n,
                        member(*self, key@) == entry_value(entries@, key@),
                        entry_value(entries@, key@) == entry_value(entries@.skip(i as int), key@),
                    decreases n - i,
                {
                    proof {
                        assert(entries@.skip(i as int).drop_first() =~= entries@.skip(i + 1));
                    }
                    if str_equal(entries[i].0.as_str(), key) {
                        return Some(&entries[i].1);
                    }
                    i = i + 1;
                }
                None
            },
            _ => None,
        }
    }

    /// The element at `i` of an array; `None` for other values.
    pub fn get_element(&self, i: usize) -> (r: Option<&JsonValue>)
        ensures
            r matches Some(x) ==> element(*self, i as int) == Some(*x),
            r is None ==> element(*self, i as int) is None,
    {
        match self {
            JsonValue::Array(items) => if i < items.len() {
                Some(&items[i])
            } else {
                None
            },
            _ => None,
        }
    }

    /// The text of a string value; `None` for other values.
    pub fn get_string(&self) -> (r: Option<&String>)
        ensures
            r matches Some(x) ==> string_of(*self) == Some(x@),
            r is None ==> string_of(*self) is None,
    {
        match self {
            JsonValue::Str(s) => Some(s),
            _ => None,
        }
    }

    /// Whether the value is an array with at least one element.
    pub fn is_nonempty_array(&self) -> (r: bool)
        ensures
            r == (self matches JsonValue::Array(items) && items@.len() > 0),
    {
        match self {
            JsonValue::Array(items) => items.len() > 0,
            _ => false,
        }
    }
}

/// The value that an optional reference points to.
pub open spec fn deref_opt(o: Option<&JsonValue>) -> Option<JsonValue> {
    match o {
        Some(v) => Some(*v),
        None => None,
    }
}

/// `get_member` on an optional value.
pub fn member_of<'a>(o: Option<&'a JsonValue>, key: &str) -> (r: Option<&'a JsonValue>)
    ensures
        r matches Some(x) ==> opt_member(deref_opt(o), key@) == Some(*x),
        r is None ==> opt_member(deref_opt(o), key@) is None,
{
    match o {
        Some(v) => v.get_member(key),
        None => None,
    }
}

/// `get_element` on an optional value.
pub fn element_of<'a>(o: Option<&'a JsonValue>, i: usize) -> (r: Option<&'a JsonValue>)
    ensures
        r matches Some(x) ==> opt_element(deref_opt(o), i as int) == Some(*x),
        r is None ==> opt_element(deref_opt(o), i as int) is None,
{
    match o {
        Some(v) => v.get_element(i),
        None => None,
    }
}

/// The text of an optional string value, copied.
pub fn string_value_of(o: Option<&JsonValue>) -> (r: Option<String>)
    ensures
        r matches Some(x) ==> opt_string(deref_opt(o)) == Some(x@),
        r is None ==> opt_string(deref_opt(o)) is None,
{
    match o {
        Some(v) => match v.get_string() {
            Some(s) => Some(s.clone()),
            None => None,
        },
        None => None,
    }
}

} // verus!
