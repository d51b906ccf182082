use vstd::prelude::*;
use crate::text::str_eq;

verus! {

/// A JSON value, as the web view hands it over in a notification's `data`.
///
/// A number is kept as its decimal text; an object as its members in order,
/// each key at most once (as a JSON object read into a map has them).
#[derive(Debug)]
pub enum JsonValue {
    Null,
    Bool(bool),
    Number(String),
    String(String),
    Array(Vec<JsonValue>),
    Object(Vec<(String, JsonValue)>),
}

/// The value of the first member of `members` whose key is `key`.
pub open spec fn member_value(members: Seq<(String, JsonValue)>, key: Seq<char>) -> Option<JsonValue>
    decreases members.len(),
{
    if members.len() == 0 {
        None
    } else if members[0].0@ == key {
        Some(members[0].1)
    } else {
        member_value(members.drop_first(), key)
    }
}

/// What indexing `value` by the object key `key` gives: the member's value for
/// an object that has that key, nothing otherwise.
pub open spec fn json_get(value: JsonValue, key: Seq<char>) -> Option<JsonValue> {
    match value {
        JsonValue::Object(members) => member_value(members@, key),
        _ => None,
    }
}

/// The text of a JSON string, nothing for any other value.
pub open spec fn json_str(value: JsonValue) -> Option<Seq<char>> {
    match value {
        JsonValue::String(s) => Some(s@),
        _ => None,
    }
}

impl JsonValue {
    /// The value of the member `key` of an object.
    pub fn get(&self, key: &str) -> (member: Option<&JsonValue>)
        ensures
            match member {
                Some(v) => json_get(*self, key@) == Some(*v),
                None => json_get(*self, key@) == None::<JsonValue>,
            },
    {
        match self {
            JsonValue::Object(members) => {
                let n = members.len();
                let ghost all = members@;
                assert(all.subrange(0, n as int) =~= all);
                for i in 0..n
                    invariant
                        n == all.len(),
                        all == members@,
                        json_get(*self, key@) == member_value(all, key@),
                        member_value(all, key@) == member_value(all.subrange(i as int, n as int), key@),
                {
                    let ghost rest = all.subrange(i as int, n as int);
                    assert(rest[0] == all[i as int]);
                    assert(rest.drop_first() =~= all.subrange(i + 1, n as int));
                    if str_eq(members[i].0.as_str(), key) {
                        assert(member_value(rest, key@) == Some(rest[0].1));
                        assert(rest[0].1 == members@[i as int].1);
                        return Some(&members[i].1);
                    }
                }
                assert(all.subrange(n as int, n as int).len() == 0);
                None
            },
            _ => None,
        }
    }

    /// The text of a JSON string.
    pub fn as_str(&self) -> (text: Option<&str>)
        ensures
            match text {
                Some(t) => json_str(*self) == Some(t@),
                None => json_str(*self) == None::<Seq<char>>,
            },
    {
        match self {
            JsonValue::String(s) => Some(s.as_str()),
            _ => None,
        }
    }
}

/// Indexing an object by a key gives the value of the first member with that
/// key, wherever it stands among the members; an object without such a member,
/// and every value that is not an object, give nothing.
pub proof fn lemma_json_get(members: Seq<(String, JsonValue)>, key: Seq<char>, i: int)
    requires
        0 <= i < members.len(),
        members[i].0@ == key,
        forall|j: int| 0 <= j < i ==> (#[trigger] members[j]).0@ != key,
    ensures
        member_value(members, key) == Some(members[i].1),
    decreases i,
{
    if i > 0 {
        let rest = members.drop_first();
        assert forall|j: int| 0 <= j < i - 1 implies (#[trigger] rest[j]).0@ != key by {
            assert(rest[j] == members[j + 1]);
        }
        assert(members[0].0@ != key);
        lemma_json_get(rest, key, i - 1);
    }
}

/// An object none of whose members has the key `key` gives nothing for it.
pub proof fn lemma_json_get_absent(members: Seq<(String, JsonValue)>, key: Seq<char>)
    requires
        forall|j: int| 0 <= j < members.len() ==> (#[trigger] members[j]).0@ != key,
    ensures
        member_value(members, key) == None::<JsonValue>,
    decreases members.len(),
{
    if members.len() > 0 {
        let rest = members.drop_first();
        assert forall|j: int| 0 <= j < rest.len() implies (#[trigger] rest[j]).0@ != key by {
            assert(rest[j] == members[j + 1]);
        }
        assert(members[0].0@ != key);
        lemma_json_get_absent(rest, key);
    }
}

/// Only JSON strings have a text, and it is the string's own text.
pub proof fn lemma_json_str(value: JsonValue)
    ensures
        value matches JsonValue::String(s) ==> json_str(value) == Some(s@),
        !(value is String) ==> json_str(value) == None::<Seq<char>>,
        !(value is Object) ==> forall|k: Seq<char>| json_get(value, k) == None::<JsonValue>,
{
}

} // verus!
