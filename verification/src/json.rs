//! A JSON document as plain values, and the lookups the library makes in one.

use crate::text::str_eq;
use vstd::prelude::*;

verus! {

/// A JSON value. Object keys are unique. A parsed object lists its members in
/// serde_json's map order, sorted by key; an object the library builds lists
/// them in the order it writes them.
#[derive(Debug)]
pub enum Json {
    Null,
    Bool(bool),
    /// A non-negative integer.
    UInt(u64),
    /// A negative integer.
    Int(i64),
    /// Any other number, in its textual form.
    Float(String),
    Str(String),
    Array(Vec<Json>),
    Object(Vec<(String, Json)>),
}

/// `serde_json::Value`, carried through the parse below and nothing else.
#[verifier::external_type_specification]
#[verifier::external_body]
pub struct ExJsonValue(serde_json::Value);

/// The document `serde_json::from_str::<serde_json::Value>` reads from `text`,
/// as a `Json`, or the message of its error.
pub uninterp spec fn json_of(text: Seq<char>) -> Result<Json, Seq<char>>;

/// Calls `serde_json::from_str::<serde_json::Value>` on `text` and turns the
/// value into a `Json`. Claimed: the result is the named `json_of` of the text
/// (parsing depends on the text alone); an error is carried as its message.
#[verifier::external_body]
pub(crate) fn parse_json(text: &str) -> (r: Result<Json, String>)
    ensures
        match json_of(text@) {
            Ok(j) => r == Ok::<Json, String>(j),
            Err(m) => r matches Err(e) && e@ == m,
        },
{
    match serde_json::from_str::<serde_json::Value>(text) {
        Ok(v) => Ok(json_from_value(&v)),
        Err(e) => Err(e.to_string()),
    }
}

/// Turns a `serde_json::Value` into a `Json`, variant by variant (a number is
/// `UInt` when it is a `u64`, `Int` when an `i64`, else `Float` of its text).
/// Nothing is claimed of it beyond what `parse_json` claims.
#[verifier::external_body]
fn json_from_value(v: &serde_json::Value) -> (j: Json) {
    match v {
        serde_json::Value::Null => Json::Null,
        serde_json::Value::Bool(b) => Json::Bool(*b),
        serde_json::Value::Number(n) => match (n.as_u64(), n.as_i64()) {
            (Some(u), _) => Json::UInt(u),
            (None, Some(i)) => Json::Int(i),
            _ => Json::Float(n.to_string()),
        },
        serde_json::Value::String(t) => Json::Str(t.clone()),
        serde_json::Value::Array(a) => Json::Array(a.iter().map(json_from_value).collect()),
        serde_json::Value::Object(m) => Json::Object(m.iter().map(|(k, x)| (k.clone(), json_from_value(x))).collect()),
    }
}

/// The value of the first member of `members` named `key`.
pub open spec fn member(members: Seq<(String, Json)>, key: Seq<char>) -> Option<Json>
    decreases members.len(),
{
    if members.len() == 0 {
        None
    } else if members[0].0@ == key {
        Some(members[0].1)
    } else {
        member(members.drop_first(), key)
    }
}

/// `v[key]` when `v` is an object holding `key`.
pub open spec fn get_spec(v: Json, key: Seq<char>) -> Option<Json> {
    match v {
        Json::Object(members) => member(members@, key),
        _ => None,
    }
}

impl Json {
    /// The member `key` of an object; none for other values or a missing key.
    pub fn get(&self, key: &str) -> (r: Option<&Json>)
        ensures
            r matches Some(x) ==> get_spec(*self, key@) == Some(*x),
            r is None ==> get_spec(*self, key@) is None,
    {
        match self {
            Json::Object(members) => {
                let mut i: usize = 0;
                assert(members@.skip(0) == members@);
                while i < members.len()
                    invariant
                        i <= members.len(),
                        member(members@, key@) == member(members@.skip(i as int), key@),
                        get_spec(*self, key@) == member(members@, key@),
                    decreases members.len() - i,
                {
                    assert(members@.skip(i as int).drop_first() == members@.skip(i + 1));
                    assert(members@.skip(i as int)[0] == members@[i as int]);
                    if str_eq(members[i].0.as_str(), key) {
                        assert(member(members@.skip(i as int), key@) == Some(members@[i as int].1));
                        assert(get_spec(*self, key@) == member(members@, key@));
                        return Some(&members[i].1);
                    }
                    i = i + 1;
                }
                None
            },
            _ => None,
        }
    }

    /// The text of a string value.
    pub fn as_str(&self) -> (r: Option<&str>)
        ensures
            r matches Some(s) ==> *self matches Json::Str(t) && s@ == t@,
            r is None ==> !(*self is Str),
    {
        match self {
            Json::Str(s) => Some(s.as_str()),
            _ => None,
        }
    }

    /// The elements of an array value.
    pub fn as_array(&self) -> (r: Option<&Vec<Json>>)
        ensures
            r matches Some(a) ==> *self == Json::Array(*a),
            r is None ==> !(*self is Array),
    {
        match self {
            Json::Array(a) => Some(a),
            _ => None,
        }
    }
}

/// The string elements of a JSON array, in order (others are skipped).
pub open spec fn string_items(v: Seq<Json>) -> Seq<Seq<char>>
    decreases v.len(),
{
    if v.len() == 0 {
        Seq::empty()
    } else {
        let rest = string_items(v.drop_last());
        match v.last() {
            Json::Str(s) => rest.push(s@),
            _ => rest,
        }
    }
}

/// The string elements of a JSON array, in order.
pub fn string_elements(a: &Vec<Json>) -> (r: Vec<String>)
    ensures
        r@.map_values(|s: String| s@) == string_items(a@),
{
    let mut r: Vec<String> = Vec::new();
    let mut i: usize = 0;
    while i < a.len()
        invariant
            i <= a.len(),
            r@.map_values(|s: String| s@) == string_items(a@.take(i as int)),
        decreases a.len() - i,
    {
        assert(a@.take(i + 1).drop_last() == a@.take(i as int));
        assert(a@.take(i + 1).last() == a@[i as int]);
        match a[i].as_str() {
            Some(s) => {
                let ghost before = r@;
                r.push(s.to_owned());
                assert(r@.map_values(|s: String| s@) =~= before.map_values(|s: String| s@).push(s@));
            },
            None => {},
        }
        i = i + 1;
    }
    assert(a@.take(a.len() as int) == a@);
    r
}

} // verus!
