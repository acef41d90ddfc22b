//! A permissive JSON-like value with typed accessors.
//!
//! Connectors consume arbitrary semi-structured input; they read it through
//! this value shape and fall back gracefully where a field is absent or has
//! an unexpected kind. Parsing the raw text is done by serde_json behind a
//! trusted boundary; everything that reads the parsed value is verified.

use vstd::prelude::*;
use serde_json::Value as SV;
use crate::strutil::str_eq;

verus! {

/// A parsed JSON value, as the connectors read it.
#[derive(Debug)]
pub enum JsonValue {
    /// JSON null, and any number with no `i64` reading.
    Null,
    /// JSON true or false.
    Bool(bool),
    /// A JSON number with an integer reading.
    Int(i64),
    /// A JSON string.
    Str(String),
    /// A JSON array.
    Arr(Vec<JsonValue>),
    /// A JSON object as its ordered key/value pairs.
    Obj(Vec<(String, JsonValue)>),
}

/// What `serde_json::from_str` yields on this text, translated into
/// `JsonValue`; a function of the text alone, `None` for unparseable text.
pub uninterp spec fn json_of(text: Seq<char>) -> Option<JsonValue>;

#[verifier::external_type_specification]
#[verifier::external_body]
pub struct ExSerdeValue(serde_json::Value);

/// Relies on the variants of serde_json's value enum: each is moved
/// one-for-one into the library's value shape; a number without an `i64`
/// reading has no use in this library and becomes `Null`.
#[verifier::external_body]
fn value_from_serde(v: serde_json::Value) -> JsonValue {
    match v {
        SV::Null => JsonValue::Null,
        SV::Bool(b) => JsonValue::Bool(b),
        SV::Number(n) => match n.as_i64() {
            Some(i) => JsonValue::Int(i),
            None => JsonValue::Null,
        },
        SV::String(s) => JsonValue::Str(s),
        SV::Array(a) => JsonValue::Arr(a.into_iter().map(value_from_serde).collect()),
        SV::Object(m) => JsonValue::Obj(m.into_iter().map(|(k, w)| (k, value_from_serde(w))).collect()),
    }
}

/// Relies on `serde_json::from_str`: parses JSON text, a function of the
/// text alone; `None` exactly on text serde_json rejects.
#[verifier::external_body]
pub(crate) fn parse_json(text: &str) -> (r: Option<JsonValue>)
    ensures
        r == json_of(text@),
{
    match serde_json::from_str::<serde_json::Value>(text) {
        Ok(v) => Some(value_from_serde(v)),
        Err(_) => None,
    }
}

/// The string content of a string value.
pub open spec fn spec_as_str(v: JsonValue) -> Option<Seq<char>> {
    match v {
        JsonValue::Str(s) => Some(s@),
        _ => None,
    }
}

/// The integer content of an integer value.
pub open spec fn spec_as_i64(v: JsonValue) -> Option<i64> {
    match v {
        JsonValue::Int(i) => Some(i),
        _ => None,
    }
}

/// The first value under this key in an object's pair list.
pub open spec fn spec_obj_get(pairs: Seq<(String, JsonValue)>, key: Seq<char>) -> Option<
    JsonValue,
>
    decreases pairs.len(),
{
    if pairs.len() == 0 {
        None
    } else if pairs[0].0@ == key {
        Some(pairs[0].1)
    } else {
        spec_obj_get(pairs.drop_first(), key)
    }
}

/// The value under this key, when the value is an object holding it.
pub open spec fn spec_get(v: JsonValue, key: Seq<char>) -> Option<JsonValue> {
    match v {
        JsonValue::Obj(pairs) => spec_obj_get(pairs@, key),
        _ => None,
    }
}

/// The elements, when the value is an array.
pub open spec fn spec_as_arr(v: JsonValue) -> Option<Seq<JsonValue>> {
    match v {
        JsonValue::Arr(items) => Some(items@),
        _ => None,
    }
}

impl JsonValue {
    /// The string content, when this is a string.
    pub fn as_str(&self) -> (r: Option<&String>)
        ensures
            match r {
                Some(s) => spec_as_str(*self) == Some(s@),
                None => spec_as_str(*self) is None,
            },
    {
        match self {
            JsonValue::Str(s) => Some(s),
            _ => None,
        }
    }

    /// The integer content, when this is an integer number.
    pub fn as_i64(&self) -> (r: Option<i64>)
        ensures
            r == spec_as_i64(*self),
    {
        match self {
            JsonValue::Int(i) => Some(*i),
            _ => None,
        }
    }

    /// The elements, when this is an array.
    pub fn as_arr(&self) -> (r: Option<&Vec<JsonValue>>)
        ensures
            match r {
                Some(items) => spec_as_arr(*self) == Some(items@),
                None => spec_as_arr(*self) is None,
            },
    {
        match self {
            JsonValue::Arr(items) => Some(items),
            _ => None,
        }
    }

    /// The first value under this key, when this is an object holding it.
    pub fn get(&self, key: &str) -> (r: Option<&JsonValue>)
        ensures
            match r {
                Some(x) => spec_get(*self, key@) == Some(*x),
                None => spec_get(*self, key@) is None,
            },
    {
        match self {
            JsonValue::Obj(pairs) => {
                let n = pairs.len();
                proof {
                    assert(pairs@.subrange(0, n as int) =~= pairs@);
                    assert(spec_get(*self, key@) == spec_obj_get(pairs@, key@));
                }
                let mut i: usize = 0;
                while i < n
                    invariant
                        i <= n,
                        n == pairs@.len(),
                        spec_get(*self, key@) == spec_obj_get(
                            pairs@.subrange(i as int, n as int),
                            key@,
                        ),
                    decreases n - i,
                {
                    proof {
                        assert(pairs@.subrange(i as int, n as int)[0] == pairs@[i as int]);
                    }
                    if str_eq(pairs[i].0.as_str(), key) {
                        proof {
                            assert(spec_obj_get(pairs@.subrange(i as int, n as int), key@)
                                == Some(pairs@[i as int].1));
                        }
                        return Some(&pairs[i].1);
                    }
                    proof {
                        assert(pairs@.subrange(i as int, n as int).drop_first() =~= pairs@.subrange(
                            i as int + 1,
                            n as int,
                        ));
                    }
                    i = i + 1;
                }
                proof {
                    assert(pairs@.subrange(n as int, n as int).len() == 0);
                }
                None
            },
            _ => None,
        }
    }
}

/// A deep copy of the value, structurally equal to the original.
#[verifier::loop_isolation(false)]
pub fn clone_value(v: &JsonValue) -> (r: JsonValue)
    ensures
        json_eq(r, *v),
    decreases *v,
{
    match v {
        JsonValue::Null => JsonValue::Null,
        JsonValue::Bool(b) => JsonValue::Bool(*b),
        JsonValue::Int(i) => JsonValue::Int(*i),
        JsonValue::Str(s) => JsonValue::Str(s.clone()),
        JsonValue::Arr(items) => {
            let n = items.len();
            let mut out: Vec<JsonValue> = Vec::new();
            let mut i: usize = 0;
            while i < n
                invariant
                    i <= n,
                    n == items@.len(),
                    *v == JsonValue::Arr(*items),
                    out@.len() == i,
                    forall|k: int| 0 <= k < i ==> json_eq(#[trigger] out@[k], items@[k]),
                decreases n - i,
            {
                out.push(clone_value(&items[i]));
                i = i + 1;
            }
            JsonValue::Arr(out)
        },
        JsonValue::Obj(pairs) => {
            let n = pairs.len();
            let mut out: Vec<(String, JsonValue)> = Vec::new();
            let mut i: usize = 0;
            while i < n
                invariant
                    i <= n,
                    n == pairs@.len(),
                    *v == JsonValue::Obj(*pairs),
                    out@.len() == i,
                    forall|k: int|
                        0 <= k < i ==> (#[trigger] out@[k]).0@ == pairs@[k].0@ && json_eq(
                            out@[k].1,
                            pairs@[k].1,
                        ),
                decreases n - i,
            {
                let key = pairs[i].0.clone();
                let val = clone_value(&pairs[i].1);
                out.push((key, val));
                i = i + 1;
            }
            JsonValue::Obj(out)
        },
    }
}

/// Deep structural equality on parsed values: strings compare by their
/// characters, arrays and objects element by element.
pub open spec fn json_eq(a: JsonValue, b: JsonValue) -> bool
    decreases a,
{
    match (a, b) {
        (JsonValue::Null, JsonValue::Null) => true,
        (JsonValue::Bool(x), JsonValue::Bool(y)) => x == y,
        (JsonValue::Int(x), JsonValue::Int(y)) => x == y,
        (JsonValue::Str(x), JsonValue::Str(y)) => x@ == y@,
        (JsonValue::Arr(x), JsonValue::Arr(y)) => {
            &&& x@.len() == y@.len()
            &&& forall|i: int| 0 <= i < x@.len() ==> json_eq(#[trigger] x@[i], y@[i])
        },
        (JsonValue::Obj(x), JsonValue::Obj(y)) => {
            &&& x@.len() == y@.len()
            &&& forall|i: int|
                0 <= i < x@.len() ==> (#[trigger] x@[i]).0@ == y@[i].0@ && json_eq(x@[i].1, y@[i].1)
        },
        _ => false,
    }
}

} // verus!
