//! The JSON documents that the GitHub REST API returns, as plain values that
//! the response readers can reason about, and their decoding from bytes.

use vstd::prelude::*;

verus! {

#[verifier::external_type_specification]
#[verifier::external_body]
pub struct ExJsonValue(serde_json::Value);

/// A JSON value. An object keeps its members in the decoder's order, each
/// key once.
#[derive(Debug, PartialEq, Eq)]
pub enum Json {
    Null,
    Bool(bool),
    /// A number, with its value when it is a non-negative integer that fits
    /// in `u64`.
    Number(Option<u64>),
    Str(String),
    Array(Vec<Json>),
    Object(Vec<(String, Json)>),
}

/// The value of the first member named `key` among `members`.
pub open spec fn lookup(members: Seq<(String, Json)>, key: Seq<char>) -> Option<Json>
    decreases members.len(),
{
    if members.len() == 0 {
        None
    } else if members[0].0@ == key {
        Some(members[0].1)
    } else {
        lookup(members.drop_first(), key)
    }
}

/// The member `key` of an object; nothing for any other value.
pub open spec fn field(j: Json, key: Seq<char>) -> Option<Json> {
    match j {
        Json::Object(members) => lookup(members@, key),
        _ => None,
    }
}

/// The member `key` when it is a string.
pub open spec fn str_field(j: Json, key: Seq<char>) -> Option<Seq<char>> {
    match field(j, key) {
        Some(Json::Str(s)) => Some(s@),
        _ => None,
    }
}

/// The member `key` when it is a non-negative integer that fits in `u64`.
pub open spec fn u64_field(j: Json, key: Seq<char>) -> Option<u64> {
    match field(j, key) {
        Some(Json::Number(Some(n))) => Some(n),
        _ => None,
    }
}

/// The document that serde_json decodes from `body`; nothing when `body` is
/// not JSON.
pub uninterp spec fn decoded_json(body: Seq<u8>) -> Option<Json>;

/// Relies on serde_json::from_slice: the decoded document depends on the
/// bytes alone, and is turned node for node into a `Json`.
#[verifier::external_body]
pub fn decode_json(body: &[u8]) -> (r: Option<Json>)
    ensures
        r == decoded_json(body@),
{
    match serde_json::from_slice::<serde_json::Value>(body) {
        Ok(v) => Some(json_tree(&v)),
        Err(_) => None,
    }
}

/// Turns serde_json's tree node for node into a `Json`; only `decode_json`
/// calls it.
#[verifier::external_body]
fn json_tree(v: &serde_json::Value) -> Json {
    match v {
        serde_json::Value::Null => Json::Null,
        serde_json::Value::Bool(b) => Json::Bool(*b),
        serde_json::Value::Number(n) => Json::Number(n.as_u64()),
        serde_json::Value::String(s) => Json::Str(s.clone()),
        serde_json::Value::Array(a) => Json::Array(a.iter().map(json_tree).collect()),
        serde_json::Value::Object(m) => Json::Object(
            m.iter().map(|(k, x)| (k.clone(), json_tree(x))).collect(),
        ),
    }
}

impl Json {
    /// The member `key` of an object.
    pub fn get(&self, key: &str) -> (r: Option<&Json>)
        ensures
            match r {
                Some(v) => field(*self, key@) == Some(*v),
                None => field(*self, key@) is None,
            },
    {
        match self {
            Json::Object(members) => {
                let k = key.to_owned();
                let mut i: usize = 0;
                assert(members@.skip(0) =~= members@);
                while i < members.len()
                    invariant
                        0 <= i <= members@.len(),
                        k@ == key@,
                        field(*self, key@) == lookup(members@, key@),
                        lookup(members@, key@) == lookup(members@.skip(i as int), key@),
                    decreases members.len() - i,
                {
                    let ghost rest = members@.skip(i as int);
                    assert(rest.drop_first() =~= members@.skip(i + 1));
                    assert(rest[0] == members@[i as int]);
                    if members[i].0 == k {
                        assert(members@[i as int].0@ == key@);
                        assert(lookup(rest, key@) == Some(members@[i as int].1));
                        return Some(&members[i].1);
                    }
                    i = i + 1;
                }
                None
            },
            _ => None,
        }
    }

    /// The member `key` when it is a string.
    pub fn get_str(&self, key: &str) -> (r: Option<String>)
        ensures
            match r {
                Some(s) => str_field(*self, key@) == Some(s@),
                None => str_field(*self, key@) is None,
            },
    {
        match self.get(key) {
            Some(Json::Str(s)) => Some(s.clone()),
            _ => None,
        }
    }

    /// The member `key` when it is a non-negative integer that fits in `u64`.
    pub fn get_u64(&self, key: &str) -> (r: Option<u64>)
        ensures
            r == u64_field(*self, key@),
    {
        match self.get(key) {
            Some(Json::Number(Some(n))) => Some(*n),
            _ => None,
        }
    }
}

} // verus!
