//! The JSON values a StarkNet node answers with, held as plain values.
//! Object members keep the order they arrived in; a key is looked up by its
//! last occurrence, the one a JSON parser keeps.

use vstd::prelude::*;

verus! {

/// A JSON value. Numbers keep their textual form: nothing here reads them.
#[derive(Debug)]
pub enum JsonValue {
    Null,
    Bool(bool),
    Number(String),
    Str(String),
    Array(Vec<JsonValue>),
    Object(Vec<(String, JsonValue)>),
}

/// The value of the last member named `key`, if any.
pub open spec fn member_value(members: Seq<(String, JsonValue)>, key: Seq<char>) -> Option<JsonValue>
    decreases members.len(),
{
    if members.len() == 0 {
        None
    } else if members.last().0@ == key {
        Some(members.last().1)
    } else {
        member_value(members.drop_last(), key)
    }
}

/// `value[key]`: the member of an object, nothing for a missing key or a
/// value that is no object (JSON `null` in serde_json's indexing).
pub open spec fn field(v: JsonValue, key: Seq<char>) -> Option<JsonValue> {
    match v {
        JsonValue::Object(members) => member_value(members@, key),
        _ => None,
    }
}

/// `as_str`: the text of a string value.
pub open spec fn text_of(v: Option<JsonValue>) -> Option<Seq<char>> {
    match v {
        Some(JsonValue::Str(s)) => Some(s@),
        _ => None,
    }
}

/// `as_array`: the elements of an array value.
pub open spec fn elements_of(v: Option<JsonValue>) -> Option<Seq<JsonValue>> {
    match v {
        Some(JsonValue::Array(items)) => Some(items@),
        _ => None,
    }
}

impl JsonValue {
    /// The member named `key` of an object (its last occurrence).
    pub fn get(&self, key: &str) -> (r: Option<&JsonValue>)
        ensures
            match r {
                Some(x) => field(*self, key@) == Some(*x),
                None => field(*self, key@) is None,
            },
    {
        match self {
            JsonValue::Object(members) => {
                let key_owned = key.to_owned();
                let mut i: usize = members.len();
                assert(members@.subrange(0, i as int) =~= members@);
                while i > 0
                    invariant
                        i <= members@.len(),
                        key_owned@ == key@,
                        field(*self, key@) == member_value(members@, key@),
                        member_value(members@, key@) == member_value(members@.subrange(0, i as int), key@),
                    decreases i,
                {
                    let ghost front = members@.subrange(0, i as int);
                    assert(front.last() == members@[i - 1]);
                    if members[i - 1].0 == key_owned {
                        return Some(&members[i - 1].1);
                    }
                    assert(front.drop_last() =~= members@.subrange(0, i - 1));
                    i = i - 1;
                }
                None
            },
            _ => None,
        }
    }

    /// The text of a string value.
    pub fn as_str(&self) -> (r: Option<&String>)
        ensures
            match r {
                Some(s) => text_of(Some(*self)) == Some(s@),
                None => text_of(Some(*self)) is None,
            },
    {
        match self {
            JsonValue::Str(s) => Some(s),
            _ => None,
        }
    }

    /// The elements of an array value.
    pub fn as_array(&self) -> (r: Option<&Vec<JsonValue>>)
        ensures
            match r {
                Some(items) => elements_of(Some(*self)) == Some(items@),
                None => elements_of(Some(*self)) is None,
            },
    {
        match self {
            JsonValue::Array(items) => Some(items),
            _ => None,
        }
    }
}

/// `value[key].as_str()`.
pub fn field_text<'a>(v: &'a JsonValue, key: &str) -> (r: Option<&'a String>)
    ensures
        match r {
            Some(s) => text_of(field(*v, key@)) == Some(s@),
            None => text_of(field(*v, key@)) is None,
        },
{
    match v.get(key) {
        Some(x) => x.as_str(),
        None => None,
    }
}

/// `value[key].as_array()`.
pub fn field_elements<'a>(v: &'a JsonValue, key: &str) -> (r: Option<&'a Vec<JsonValue>>)
    ensures
        match r {
            Some(items) => elements_of(field(*v, key@)) == Some(items@),
            None => elements_of(field(*v, key@)) is None,
        },
{
    match v.get(key) {
        Some(x) => x.as_array(),
        None => None,
    }
}

} // verus!
