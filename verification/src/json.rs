//! A JSON document as plain data, for what the library reads from the system
//! profiler and what it reports in JSON form.
use vstd::prelude::*;

use crate::text::decimal;

verus! {

/// A JSON value. Numbers keep their textual form; an object keeps its
/// members in the order in which they are iterated.
#[derive(Debug)]
pub enum JsonValue {
    Null,
    Bool(bool),
    Number(String),
    String(String),
    Array(Vec<JsonValue>),
    Object(Vec<(String, JsonValue)>),
}

/// The value of the first member named `key`.
pub open spec fn lookup(members: Seq<(String, JsonValue)>, key: Seq<char>) -> Option<JsonValue>
    decreases members.len(),
{
    if members.len() == 0 {
        None
    } else if members[0].0@ == key {
        Some(members[0].1)
    } else {
        lookup(members.drop_first(), key)
    }
}

/// The value of member `key` of an object; `None` for a missing member or a
/// value that is not an object.
pub open spec fn spec_field(v: JsonValue, key: Seq<char>) -> Option<JsonValue> {
    match v {
        JsonValue::Object(members) => lookup(members@, key),
        _ => None,
    }
}

/// The elements of member `key` when it is an array.
pub open spec fn spec_array_field(v: JsonValue, key: Seq<char>) -> Option<Seq<JsonValue>> {
    match spec_field(v, key) {
        Some(JsonValue::Array(items)) => Some(items@),
        _ => None,
    }
}

/// The text of member `key` when it is a string.
pub open spec fn spec_str_field(v: JsonValue, key: Seq<char>) -> Option<Seq<char>> {
    match spec_field(v, key) {
        Some(JsonValue::String(s)) => Some(s@),
        _ => None,
    }
}

impl JsonValue {
    /// Member `key` of an object (the first one, should the name repeat).
    pub fn field(&self, key: &str) -> (r: Option<&JsonValue>)
        ensures
            match r {
                Some(v) => spec_field(*self, key@) == Some(*v),
                None => spec_field(*self, key@) is None,
            },
    {
        match self {
            JsonValue::Object(members) => {
                let k = key.to_owned();
                let mut i: usize = 0;
                assert(members@.skip(0) =~= members@);
                while i < members.len()
                    invariant
                        i <= members@.len(),
                        k@ == key@,
                        spec_field(*self, key@) == lookup(members@, key@),
                        lookup(members@, key@) == lookup(members@.skip(i as int), key@),
                    decreases members.len() - i,
                {
                    let ghost rest = members@.skip(i as int);
                    assert(rest[0] == members@[i as int]);
                    assert(rest.drop_first() =~= members@.skip(i + 1));
                    if members[i].0 == k {
                        assert(lookup(rest, key@) == Some(members@[i as int].1));
                        assert(spec_field(*self, key@) == lookup(members@, key@));
                        let r = &members[i].1;
                        assert(*r == members@[i as int].1);
                        return Some(r);
                    }
                    i = i + 1;
                }
                None
            },
            _ => None,
        }
    }

    /// The elements of member `key` when it is an array.
    pub fn array_field(&self, key: &str) -> (r: Option<&Vec<JsonValue>>)
        ensures
            match r {
                Some(v) => spec_array_field(*self, key@) == Some(v@),
                None => spec_array_field(*self, key@) is None,
            },
    {
        match self.field(key) {
            Some(JsonValue::Array(items)) => Some(items),
            _ => None,
        }
    }

    /// The text of member `key` when it is a string.
    pub fn str_field(&self, key: &str) -> (r: Option<&String>)
        ensures
            match r {
                Some(s) => spec_str_field(*self, key@) == Some(s@),
                None => spec_str_field(*self, key@) is None,
            },
    {
        match self.field(key) {
            Some(JsonValue::String(s)) => Some(s),
            _ => None,
        }
    }
}

#[verifier::external_type_specification]
#[verifier::external_body]
pub struct ExSerdeJsonValue(serde_json::Value);

/// What `serde_json::from_slice::<serde_json::Value>` makes of `bytes`, as a
/// [`JsonValue`]; `None` where it refuses them.
pub uninterp spec fn json_document(bytes: Seq<u8>) -> Option<JsonValue>;

/// The text that `serde_json::to_string_pretty` writes for the value (as a
/// `serde_json::Value`); `None` where a number's text is not a JSON number.
pub uninterp spec fn pretty_json(v: JsonValue) -> Option<Seq<char>>;

/// Every number of the value is the decimal text of an integer that fits 64
/// bits, without sign or leading zeros.
pub open spec fn integer_numbers(v: JsonValue) -> bool
    decreases v,
{
    match v {
        JsonValue::Number(n) => exists|k: nat| k <= u64::MAX && n@ == #[trigger] decimal(k),
        JsonValue::Array(items) => forall|i: int|
            0 <= i < items@.len() ==> integer_numbers(#[trigger] items@[i]),
        JsonValue::Object(members) => forall|i: int|
            0 <= i < members@.len() ==> integer_numbers(#[trigger] members@[i].1),
        _ => true,
    }
}

/// Converts a `serde_json::Value` to a [`JsonValue`], one variant for one:
/// numbers keep their text, objects keep their members in the map's order.
#[verifier::external_body]
fn from_serde(v: &serde_json::Value) -> JsonValue {
    match v {
        serde_json::Value::Null => JsonValue::Null,
        serde_json::Value::Bool(b) => JsonValue::Bool(*b),
        serde_json::Value::Number(n) => JsonValue::Number(n.to_string()),
        serde_json::Value::String(s) => JsonValue::String(s.clone()),
        serde_json::Value::Array(a) => JsonValue::Array(a.iter().map(from_serde).collect()),
        serde_json::Value::Object(m) => JsonValue::Object(
            m.iter().map(|(k, v)| (k.clone(), from_serde(v))).collect(),
        ),
    }
}

/// Converts a [`JsonValue`] to a `serde_json::Value`, one variant for one;
/// `None` where a number's text is not one that `serde_json::Number` parses.
#[verifier::external_body]
fn to_serde(v: &JsonValue) -> Option<serde_json::Value> {
    Some(match v {
        JsonValue::Null => serde_json::Value::Null,
        JsonValue::Bool(b) => serde_json::Value::Bool(*b),
        JsonValue::Number(n) => serde_json::Value::Number(n.parse::<serde_json::Number>().ok()?),
        JsonValue::String(s) => serde_json::Value::String(s.clone()),
        JsonValue::Array(a) => serde_json::Value::Array(a.iter().map(to_serde).collect::<Option<_>>()?),
        JsonValue::Object(m) => serde_json::Value::Object(
            m.iter().map(|(k, v)| Some((k.clone(), to_serde(v)?))).collect::<Option<_>>()?,
        ),
    })
}

/// Calls `serde_json::from_slice::<serde_json::Value>`: the document that
/// the bytes hold, or the parser's message. Its result is named
/// [`json_document`] of the bytes; nothing more is claimed of the parser.
#[verifier::external_body]
pub fn parse_json(bytes: &[u8]) -> (r: Result<JsonValue, String>)
    ensures
        match r {
            Ok(v) => json_document(bytes@) == Some(v),
            Err(_) => json_document(bytes@) is None,
        },
{
    match serde_json::from_slice::<serde_json::Value>(bytes) {
        Ok(v) => Ok(from_serde(&v)),
        Err(e) => Err(e.to_string()),
    }
}

/// Calls `serde_json::to_string_pretty` on the value: its text, or the
/// serializer's message. Its result is named [`pretty_json`] of the value.
/// A value whose numbers are all decimal integers that fit 64 bits has a text:
/// `serde_json::Number` parses such text, and a `serde_json::Value` with
/// string keys always serializes.
#[verifier::external_body]
pub fn to_pretty_string(v: &JsonValue) -> (r: Result<String, String>)
    ensures
        match r {
            Ok(s) => pretty_json(*v) == Some(s@),
            Err(_) => pretty_json(*v) is None,
        },
        integer_numbers(*v) ==> r is Ok,
{
    match to_serde(v) {
        Some(value) => serde_json::to_string_pretty(&value).map_err(|e| e.to_string()),
        None => Err(String::from("a number is not a JSON number")),
    }
}

} // verus!
