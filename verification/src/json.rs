//! A plain model of JSON documents, as the tool-output parsers read them.
//!
//! Parsing text into this model is done by `serde_json`; everything that
//! reads a parsed document is verified against the spec functions here.
use vstd::prelude::*;

verus! {

#[verifier::external_type_specification]
#[verifier::external_body]
pub struct ExJsonValue(serde_json::Value);

/// A JSON value. Numbers keep what `as_u64` gives for them: the value when
/// it is a non-negative integer that fits in a `u64`, `None` otherwise.
/// Objects keep their members in key order, each key once.
#[derive(Debug)]
pub enum Json {
    Null,
    Bool(bool),
    Number(Option<u64>),
    Str(String),
    Array(Vec<Json>),
    Object(Vec<(String, Json)>),
}

/// The member of an object's entries with key `key` (the first one).
pub open spec fn entries_lookup(m: Seq<(String, Json)>, key: Seq<char>) -> Option<Json>
    decreases m.len(),
{
    if m.len() == 0 {
        None
    } else if m[0].0@ == key {
        Some(m[0].1)
    } else {
        entries_lookup(m.skip(1), key)
    }
}

/// `value.get(key)`: the member `key` of an object, `None` for anything else.
pub open spec fn json_get(v: Json, key: Seq<char>) -> Option<Json> {
    match v {
        Json::Object(m) => entries_lookup(m@, key),
        _ => None,
    }
}

/// `get` applied to an optional value.
pub open spec fn json_get_opt(v: Option<Json>, key: Seq<char>) -> Option<Json> {
    match v {
        Some(x) => json_get(x, key),
        None => None,
    }
}

/// `as_str` on an optional value.
pub open spec fn json_as_str(v: Option<Json>) -> Option<Seq<char>> {
    match v {
        Some(Json::Str(s)) => Some(s@),
        _ => None,
    }
}

/// `as_u64` on an optional value.
pub open spec fn json_as_u64(v: Option<Json>) -> Option<u64> {
    match v {
        Some(Json::Number(n)) => n,
        _ => None,
    }
}

/// `as_bool` on an optional value.
pub open spec fn json_as_bool(v: Option<Json>) -> Option<bool> {
    match v {
        Some(Json::Bool(b)) => Some(b),
        _ => None,
    }
}

/// `as_array` on an optional value.
pub open spec fn json_as_array(v: Option<Json>) -> Option<Seq<Json>> {
    match v {
        Some(Json::Array(a)) => Some(a@),
        _ => None,
    }
}

/// The JSON document that `serde_json::from_str::<Value>` reads from `text`,
/// or `None` where it reports an error.
pub uninterp spec fn spec_parse_json(text: Seq<char>) -> Option<Json>;

/// Parses `text` as one JSON document.
///
/// Trusted: wraps `serde_json::from_str::<serde_json::Value>` and converts
/// the value one for one into `Json`. The result is a function of the text
/// alone and is named, not restated: what JSON grammar serde_json accepts is
/// left unsaid.
#[verifier::external_body]
pub(crate) fn parse_json_text(text: &Vec<char>) -> (r: Option<Json>)
    ensures
        r == spec_parse_json(text@),
{
    let s: String = text.iter().collect();
    serde_json::from_str::<serde_json::Value>(&s).ok().map(|v| json_from_value(&v))
}

/// One-for-one conversion of a `serde_json::Value` into `Json`, used by
/// `parse_json_text` only.
#[verifier::external_body]
fn json_from_value(v: &serde_json::Value) -> Json {
    match v {
        serde_json::Value::Null => Json::Null,
        serde_json::Value::Bool(b) => Json::Bool(*b),
        serde_json::Value::Number(n) => Json::Number(n.as_u64()),
        serde_json::Value::String(s) => Json::Str(s.clone()),
        serde_json::Value::Array(a) => Json::Array(a.iter().map(json_from_value).collect()),
        serde_json::Value::Object(m) => Json::Object(
            m.iter().map(|(k, x)| (k.clone(), json_from_value(x))).collect(),
        ),
    }
}

impl Json {
    /// `value.get(key)`.
    pub fn get(&self, key: &str) -> (r: Option<&Json>)
        ensures
            match r {
                Some(x) => json_get(*self, key@) == Some(*x),
                None => json_get(*self, key@) is None,
            },
    {
        match self {
            Json::Object(m) => {
                let kv = crate::text::chars_of(key);
                let mut i: usize = 0;
                assert(m@.skip(0) =~= m@);
                while i < m.len()
                    invariant
                        i <= m.len(),
                        kv@ == key@,
                        json_get(*self, key@) == entries_lookup(m@, key@),
                        entries_lookup(m@, key@) == entries_lookup(m@.skip(i as int), key@),
                    decreases m.len() - i,
                {
                    let kc = crate::text::chars_of(m[i].0.as_str());
                    assert(m@.skip(i as int)[0] == m@[i as int]);
                    if crate::text::chars_eq(&kc, &kv) {
                        assert(m@.skip(i as int)[0].0@ == key@);
                        assert(entries_lookup(m@.skip(i as int), key@) == Some(m@[i as int].1));
                        assert(json_get(*self, key@) == Some(m@[i as int].1));
                        let e = &m[i];
                        assert(*e == m@[i as int]);
                        return Some(&e.1);
                    }
                    assert(m@.skip(i as int).skip(1) =~= m@.skip(i + 1));
                    i = i + 1;
                }
                None
            },
            _ => None,
        }
    }

    /// `value.as_str()`.
    pub fn as_str(&self) -> (r: Option<&String>)
        ensures
            match r {
                Some(s) => json_as_str(Some(*self)) == Some(s@),
                None => json_as_str(Some(*self)) is None,
            },
    {
        match self {
            Json::Str(s) => Some(s),
            _ => None,
        }
    }

    /// `value.as_u64()`.
    pub fn as_u64(&self) -> (r: Option<u64>)
        ensures
            r == json_as_u64(Some(*self)),
    {
        match self {
            Json::Number(n) => *n,
            _ => None,
        }
    }

    /// `value.as_bool()`.
    pub fn as_bool(&self) -> (r: Option<bool>)
        ensures
            r == json_as_bool(Some(*self)),
    {
        match self {
            Json::Bool(b) => Some(*b),
            _ => None,
        }
    }

    /// `value.as_array()`.
    pub fn as_array(&self) -> (r: Option<&Vec<Json>>)
        ensures
            match r {
                Some(a) => json_as_array(Some(*self)) == Some(a@),
                None => json_as_array(Some(*self)) is None,
            },
    {
        match self {
            Json::Array(a) => Some(a),
            _ => None,
        }
    }
}

} // verus!
