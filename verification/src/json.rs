//! The document model of the token cache's payload.

use vstd::prelude::*;
use crate::text::text_equals;

verus! {

/// A JSON document.
///
/// Numbers come in three kinds: `Integer` for an integer that fits `i64`,
/// `Unsigned` for a larger one that fits `u64`, and `Real` for anything else,
/// held as the bits of its IEEE 754 double. Where a key occurs more than once
/// in an object, readers go by its first occurrence.
#[derive(Debug, PartialEq, Eq)]
pub enum JsonValue {
    Null,
    Bool(bool),
    Integer(i64),
    Unsigned(u64),
    Real(u64),
    Text(String),
    Array(Vec<JsonValue>),
    Object(Vec<(String, JsonValue)>),
}

/// The value under `key` in an object's members: that of the first member
/// with this key.
pub open spec fn member(members: Seq<(String, JsonValue)>, key: Seq<char>) -> Option<JsonValue>
    decreases members.len(),
{
    if members.len() == 0 {
        None
    } else if members[0].0@ == key {
        Some(members[0].1)
    } else {
        member(members.drop_first(), key)
    }
}

/// Looks `key` up among an object's members.
pub fn find_member<'a>(members: &'a Vec<(String, JsonValue)>, key: &str) -> (found: Option<
    &'a JsonValue,
>)
    ensures
        member(members@, key@) == match found {
            Some(value) => Some(*value),
            None => None,
        },
{
    let mut i: usize = 0;
    assert(members@.skip(0) == members@);
    while i < members.len()
        invariant
            i <= members.len(),
            member(members@, key@) == member(members@.skip(i as int), key@),
        decreases members.len() - i,
    {
        assert(members@.skip(i as int).drop_first() == members@.skip(i + 1));
        if text_equals(members[i].0.as_str(), key) {
            return Some(&members[i].1);
        }
        i += 1;
    }
    None
}

} // verus!
