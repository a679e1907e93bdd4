//! A JSON document tree held as plain values, and the parser behind it.

use vstd::prelude::*;
use crate::text::chars_of;

verus! {

/// A parsed JSON value. Numbers keep their textual form; an object keeps its
/// members in the parser's order, each key once.
#[derive(Debug, PartialEq)]
pub enum Json {
    Null,
    Bool(bool),
    Number(String),
    Str(String),
    Array(Vec<Json>),
    Object(Vec<(String, Json)>),
}

/// The value of the first member of `entries` named `key`.
pub open spec fn member_spec(entries: Seq<(String, Json)>, key: Seq<char>) -> Option<Json>
    decreases entries.len(),
{
    if entries.len() == 0 {
        None
    } else if entries[0].0@ == key {
        Some(entries[0].1)
    } else {
        member_spec(entries.drop_first(), key)
    }
}

/// The member `key` of an object; `None` for any other value.
pub open spec fn get_spec(v: Json, key: Seq<char>) -> Option<Json> {
    match v {
        Json::Object(m) => member_spec(m@, key),
        _ => None,
    }
}

/// The text of a string value; `None` for anything else.
pub open spec fn str_spec(v: Option<Json>) -> Option<Seq<char>> {
    match v {
        Some(Json::Str(s)) => Some(s@),
        _ => None,
    }
}

/// Names what `serde_json::from_str::<serde_json::Value>` yields for a text:
/// the document tree, or `None` where the text is not one JSON value.
pub uninterp spec fn json_parse(text: Seq<char>) -> Option<Json>;

#[verifier::external_type_specification]
#[verifier::external_body]
pub struct ExJsonValue(serde_json::Value);

/// Relies on `serde_json::from_str::<serde_json::Value>`: parsing depends on
/// the text alone; a text that is not one JSON value gives `None`.
#[verifier::external_body]
pub(crate) fn parse_json(text: &str) -> (r: Option<Json>)
    ensures
        r == json_parse(text@),
{
    serde_json::from_str::<serde_json::Value>(text).ok().map(json_from_value)
}

/// Relies on the variants of `serde_json::Value`: copies a value tree into
/// `Json` one node for one node, numbers by `serde_json::Number`'s text.
#[verifier::external_body]
fn json_from_value(v: serde_json::Value) -> Json {
    match v {
        serde_json::Value::Null => Json::Null,
        serde_json::Value::Bool(b) => Json::Bool(b),
        serde_json::Value::Number(n) => Json::Number(n.to_string()),
        serde_json::Value::String(s) => Json::Str(s),
        serde_json::Value::Array(a) => Json::Array(a.into_iter().map(json_from_value).collect()),
        serde_json::Value::Object(m) => Json::Object(
            m.into_iter().map(|(k, x)| (k, json_from_value(x))).collect(),
        ),
    }
}

/// Names what `serde_json::to_string::<str>` yields for a text: the text as a
/// JSON string literal, quotes and escapes included.
pub uninterp spec fn json_quote(s: Seq<char>) -> Seq<char>;

/// Relies on `serde_json::to_string::<str>`: the literal depends on the text
/// alone, and serialising a `str` into a `String` does not fail.
#[verifier::external_body]
pub(crate) fn quote_json(s: &str) -> (r: String)
    ensures
        r@ == json_quote(s@),
{
    serde_json::to_string(s).unwrap_or_default()
}

/// Whether two texts hold the same characters.
pub fn same_text(a: &str, b: &str) -> (r: bool)
    ensures
        r == (a@ == b@),
{
    let x = chars_of(a);
    let y = chars_of(b);
    assert(x@ == a@);
    assert(y@ == b@);
    if x.len() != y.len() {
        return false;
    }
    let mut i: usize = 0;
    while i < x.len()
        invariant
            x@.len() == y@.len(),
            i <= x@.len(),
            forall|j: int| 0 <= j < i ==> x@[j] == y@[j],
            x@ == a@,
            y@ == b@,
        decreases x@.len() - i,
    {
        if x[i] != y[i] {
            proof {
                if a@ == b@ {
                    assert(x@[i as int] == y@[i as int]);
                }
            }
            return false;
        }
        i = i + 1;
    }
    assert(x@ =~= y@);
    true
}

impl Json {
    /// The member `key` of an object; `None` for any other value.
    pub fn get(&self, key: &str) -> (r: Option<&Json>)
        ensures
            match r {
                Some(x) => get_spec(*self, key@) == Some(*x),
                None => get_spec(*self, key@) is None,
            },
    {
        match self {
            Json::Object(m) => {
                let mut i: usize = 0;
                assert(m@.subrange(0, m@.len() as int) =~= m@);
                while i < m.len()
                    invariant
                        i <= m@.len(),
                        get_spec(*self, key@) == member_spec(m@, key@),
                        member_spec(m@, key@) == member_spec(m@.subrange(i as int, m@.len() as int), key@),
                    decreases m@.len() - i,
                {
                    let ghost rest = m@.subrange(i as int, m@.len() as int);
                    if same_text(m[i].0.as_str(), key) {
                        assert(rest[0] == m@[i as int]);
                        assert(member_spec(rest, key@) == Some(rest[0].1));
                        return Some(&m[i].1);
                    }
                    assert(rest.drop_first() =~= m@.subrange(i + 1, m@.len() as int));
                    i = i + 1;
                }
                None
            },
            _ => None,
        }
    }

    /// The text of a string value; `None` for any other value.
    pub fn as_str(&self) -> (r: Option<&str>)
        ensures
            match r {
                Some(s) => str_spec(Some(*self)) == Some(s@),
                None => str_spec(Some(*self)) is None,
            },
    {
        match self {
            Json::Str(s) => Some(s.as_str()),
            _ => None,
        }
    }

    /// The elements of an array; `None` for any other value.
    pub fn as_array(&self) -> (r: Option<&Vec<Json>>)
        ensures
            match r {
                Some(a) => *self == Json::Array(*a),
                None => !(*self is Array),
            },
    {
        match self {
            Json::Array(a) => Some(a),
            _ => None,
        }
    }
}

} // verus!
