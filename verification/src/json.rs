//! JSON values.
//!
//! `serde_json` parses and holds the values. [`json_of`] names what a value
//! holds as a tree, and each accessor says what it reads off that tree.

use vstd::prelude::*;

verus! {

/// What a JSON value holds. A number is an integer that fits 64 bits, or some
/// other number.
pub enum Json {
    Null,
    Bool(bool),
    Integer(int),
    OtherNumber,
    Text(Seq<char>),
    List(Seq<Json>),
    Object(Map<Seq<char>, Json>),
}

impl Json {
    /// The member of an object; nothing otherwise.
    pub open spec fn member(self, key: Seq<char>) -> Option<Json> {
        match self {
            Json::Object(m) => if m.contains_key(key) {
                Some(m[key])
            } else {
                None
            },
            _ => None,
        }
    }

    pub open spec fn unsigned(self) -> Option<u64> {
        match self {
            Json::Integer(n) => if 0 <= n <= u64::MAX {
                Some(n as u64)
            } else {
                None
            },
            _ => None,
        }
    }

    pub open spec fn signed(self) -> Option<i64> {
        match self {
            Json::Integer(n) => if i64::MIN <= n <= i64::MAX {
                Some(n as i64)
            } else {
                None
            },
            _ => None,
        }
    }

    pub open spec fn boolean(self) -> Option<bool> {
        match self {
            Json::Bool(b) => Some(b),
            _ => None,
        }
    }

    pub open spec fn text(self) -> Option<Seq<char>> {
        match self {
            Json::Text(s) => Some(s),
            _ => None,
        }
    }

    pub open spec fn list(self) -> Option<Seq<Json>> {
        match self {
            Json::List(s) => Some(s),
            _ => None,
        }
    }

    pub open spec fn unsigned_member(self, key: Seq<char>) -> Option<u64> {
        match self.member(key) {
            Some(v) => v.unsigned(),
            None => None,
        }
    }

    pub open spec fn signed_member(self, key: Seq<char>) -> Option<i64> {
        match self.member(key) {
            Some(v) => v.signed(),
            None => None,
        }
    }

    pub open spec fn boolean_member(self, key: Seq<char>) -> Option<bool> {
        match self.member(key) {
            Some(v) => v.boolean(),
            None => None,
        }
    }

    pub open spec fn text_member(self, key: Seq<char>) -> Option<Seq<char>> {
        match self.member(key) {
            Some(v) => v.text(),
            None => None,
        }
    }
}

/// A JSON value.
#[verifier::external_type_specification]
#[verifier::external_body]
pub struct ExValue(serde_json::Value);

/// A JSON syntax error.
#[verifier::external_type_specification]
#[verifier::external_body]
pub struct ExJsonError(serde_json::Error);

/// What a JSON value holds.
pub uninterp spec fn json_of(v: serde_json::Value) -> Json;

/// What `serde_json::from_str` reads from a text; nothing where it is not
/// JSON.
pub uninterp spec fn json_text(text: Seq<char>) -> Option<Json>;

/// `serde_json::from_str` parses a JSON text. It succeeds on the texts it
/// takes for JSON, and the value it gives is a function of the text.
#[verifier::external_body]
pub(crate) fn parse_json(text: &str) -> (r: Result<serde_json::Value, serde_json::Error>)
    ensures
        r is Ok <==> json_text(text@) is Some,
        r matches Ok(v) ==> json_text(text@) == Some(json_of(v)),
{
    serde_json::from_str(text)
}

/// What `serde_yaml::from_str` reads from a text, as a JSON value; nothing where
/// it is not YAML, or holds what JSON cannot.
pub uninterp spec fn yaml_text(text: Seq<char>) -> Option<Json>;

/// `serde_yaml::from_str` parses a YAML text into a JSON value. It succeeds on
/// the texts it takes for such a value, and the value it gives is a function
/// of the text.
#[verifier::external_body]
pub(crate) fn parse_yaml(text: &str) -> (r: Option<serde_json::Value>)
    ensures
        r is Some <==> yaml_text(text@) is Some,
        r matches Some(v) ==> yaml_text(text@) == Some(json_of(v)),
{
    serde_yaml::from_str(text).ok()
}

/// `serde_json::Value::get` finds the member of an object, and nothing in any
/// other value.
#[verifier::external_body]
pub(crate) fn field<'a>(v: &'a serde_json::Value, key: &str) -> (r: Option<&'a serde_json::Value>)
    ensures
        r is Some <==> json_of(*v).member(key@) is Some,
        r matches Some(x) ==> json_of(*v).member(key@) == Some(json_of(*x)),
{
    v.get(key)
}

/// `serde_json::Value::as_u64` reads an integer that is not negative.
pub assume_specification[ serde_json::Value::as_u64 ](v: &serde_json::Value) -> (r: Option<u64>)
    ensures
        r == json_of(*v).unsigned(),
;

/// `serde_json::Value::as_i64` reads an integer that fits `i64`.
pub assume_specification[ serde_json::Value::as_i64 ](v: &serde_json::Value) -> (r: Option<i64>)
    ensures
        r == json_of(*v).signed(),
;

/// `serde_json::Value::as_bool` reads a boolean.
pub assume_specification[ serde_json::Value::as_bool ](v: &serde_json::Value) -> (r: Option<bool>)
    ensures
        r == json_of(*v).boolean(),
;

/// `serde_json::Value::as_str` reads a string.
pub assume_specification[ serde_json::Value::as_str ](v: &serde_json::Value) -> (r: Option<&str>)
    ensures
        r is Some <==> json_of(*v).text() is Some,
        r matches Some(s) ==> json_of(*v).text() == Some(s@),
;

/// `serde_json::Value::is_null` tells the null value from the others.
pub assume_specification[ serde_json::Value::is_null ](v: &serde_json::Value) -> (r: bool)
    ensures
        r == (json_of(*v) is Null),
;

/// `serde_json::Value::as_array` reads a list.
pub assume_specification[ serde_json::Value::as_array ](v: &serde_json::Value) -> (r: Option<
    &Vec<serde_json::Value>,
>)
    ensures
        r is Some <==> json_of(*v).list() is Some,
        r matches Some(items) ==> json_of(*v).list() == Some(
            items@.map_values(|x: serde_json::Value| json_of(x)),
        ),
;

/// `serde_json::Value::as_object` gives the members of an object, and nothing
/// for any other value. Each member is handed out once; their order is not
/// stated.
#[verifier::external_body]
pub(crate) fn entries<'a>(v: &'a serde_json::Value) -> (r: Option<
    Vec<(&'a String, &'a serde_json::Value)>,
>)
    ensures
        r is Some <==> json_of(*v) is Object,
        r matches Some(es) ==> {
            &&& forall|i: int|
                #![trigger es@[i]]
                0 <= i < es@.len() ==> json_of(*v).member(es@[i].0@) == Some(json_of(*es@[i].1))
            &&& forall|k: Seq<char>| (#[trigger] json_of(*v).member(k)) is Some ==> exists|i: int|
                0 <= i < es@.len() && (#[trigger] es@[i]).0@ == k
            &&& forall|i: int, j: int|
                0 <= i < j < es@.len() ==> (#[trigger] es@[i]).0@ != (#[trigger] es@[j]).0@
        },
{
    v.as_object().map(|m| m.iter().collect())
}

pub(crate) fn u64_field(v: &serde_json::Value, key: &str) -> (r: Option<u64>)
    ensures
        r == json_of(*v).unsigned_member(key@),
{
    match field(v, key) {
        Some(x) => x.as_u64(),
        None => None,
    }
}

pub(crate) fn i64_field(v: &serde_json::Value, key: &str) -> (r: Option<i64>)
    ensures
        r == json_of(*v).signed_member(key@),
{
    match field(v, key) {
        Some(x) => x.as_i64(),
        None => None,
    }
}

pub(crate) fn bool_field(v: &serde_json::Value, key: &str) -> (r: Option<bool>)
    ensures
        r == json_of(*v).boolean_member(key@),
{
    match field(v, key) {
        Some(x) => x.as_bool(),
        None => None,
    }
}

pub(crate) fn string_field(v: &serde_json::Value, key: &str) -> (r: Option<String>)
    ensures
        r is Some <==> json_of(*v).text_member(key@) is Some,
        r matches Some(s) ==> json_of(*v).text_member(key@) == Some(s@),
{
    match field(v, key) {
        Some(x) => match x.as_str() {
            Some(s) => Some(s.to_owned()),
            None => None,
        },
        None => None,
    }
}

} // verus!
