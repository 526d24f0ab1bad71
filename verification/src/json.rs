//! JSON values as they cross the driver boundary.
//!
//! Property values of custom elements are `serde_json::Value`s.  The library
//! carries them through unchanged; what such a value holds is modelled by
//! [`JsonContent`].  Everything in this module that touches `serde_json` is
//! trusted: its contract is stated, not proved.

use vstd::prelude::*;

verus! {

/// `serde_json::Value`, opaque to the verifier.
#[verifier::external_type_specification]
#[verifier::external_body]
pub struct ExJsonValue(serde_json::Value);

/// `serde_json::Error`, opaque to the verifier.
#[verifier::external_type_specification]
#[verifier::external_body]
pub struct ExJsonError(serde_json::Error);

/// What a JSON value holds.
pub enum JsonContent {
    Null,
    Bool(bool),
    /// A number; `unsigned` is its value where it is stored as a
    /// non-negative integer.
    Number { unsigned: Option<u64> },
    Text(Seq<char>),
    Array(Seq<JsonContent>),
    Object(Map<Seq<char>, JsonContent>),
}

/// What a JSON value holds.
pub uninterp spec fn json_content(v: serde_json::Value) -> JsonContent;

/// The value that a JSON text parses to, if it parses.
pub uninterp spec fn json_parse(text: Seq<char>) -> Option<serde_json::Value>;

/// The member of a JSON object under a name, if the value is an object
/// that has one.
pub uninterp spec fn json_member_value(v: serde_json::Value, name: Seq<char>) -> Option<
    serde_json::Value,
>;

/// The content of the member of a JSON object under a name.
pub open spec fn member_content(content: JsonContent, name: Seq<char>) -> Option<JsonContent> {
    match content {
        JsonContent::Object(members) => if members.contains_key(name) {
            Some(members[name])
        } else {
            None
        },
        _ => None,
    }
}

/// The compact JSON text of a value.
pub uninterp spec fn json_text(v: serde_json::Value) -> Seq<char>;

/// `Value::is_null`: true exactly on the `Null` variant.
pub assume_specification[ serde_json::Value::is_null ](v: &serde_json::Value) -> (b: bool)
    ensures
        b == (json_content(*v) is Null),
;

/// `Value::is_number`: true exactly on the `Number` variant.
pub assume_specification[ serde_json::Value::is_number ](v: &serde_json::Value) -> (b: bool)
    ensures
        b == (json_content(*v) is Number),
;

/// `Value::is_object`: true exactly on the `Object` variant.
pub assume_specification[ serde_json::Value::is_object ](v: &serde_json::Value) -> (b: bool)
    ensures
        b == (json_content(*v) is Object),
;

/// `Value::as_str`: the string of a `String` variant, `None` on every other.
pub assume_specification<'a>[ serde_json::Value::as_str ](v: &'a serde_json::Value) -> (r: Option<
    &'a str,
>)
    ensures
        match r {
            Some(s) => json_content(*v) == JsonContent::Text(s@),
            None => !(json_content(*v) is Text),
        },
;

/// `Value::as_bool`: the flag of a `Bool` variant, `None` on every other.
pub assume_specification[ serde_json::Value::as_bool ](v: &serde_json::Value) -> (r: Option<bool>)
    ensures
        match r {
            Some(b) => json_content(*v) == JsonContent::Bool(b),
            None => !(json_content(*v) is Bool),
        },
;

/// `Value::as_u64`: the value of a number stored as a non-negative integer,
/// `None` on other numbers and on every other variant.
pub assume_specification[ serde_json::Value::as_u64 ](v: &serde_json::Value) -> (r: Option<u64>)
    ensures
        r == match json_content(*v) {
            JsonContent::Number { unsigned } => unsigned,
            _ => None,
        },
;

/// `Value::clone`: the copy is equal to the value it was made from.
pub assume_specification[ <serde_json::Value as Clone>::clone ](v: &serde_json::Value) -> (r:
    serde_json::Value)
    ensures
        r == *v,
;

/// `Value::get` with a string index: the member of that name where the
/// value is an object that has one, `None` otherwise.
#[verifier::external_body]
pub(crate) fn json_member<'a>(v: &'a serde_json::Value, name: &str) -> (r: Option<
    &'a serde_json::Value,
>)
    ensures
        match r {
            Some(m) => json_member_value(*v, name@) == Some(*m) && member_content(
                json_content(*v),
                name@,
            ) == Some(json_content(*m)),
            None => json_member_value(*v, name@) is None && member_content(
                json_content(*v),
                name@,
            ) is None,
        },
{
    v.get(name)
}

/// `Value::Null`.
#[verifier::external_body]
pub(crate) fn json_null() -> (v: serde_json::Value)
    ensures
        json_content(v) is Null,
{
    serde_json::Value::Null
}

/// `Value::Bool`.
#[verifier::external_body]
pub(crate) fn json_bool(b: bool) -> (v: serde_json::Value)
    ensures
        json_content(v) == JsonContent::Bool(b),
{
    serde_json::Value::Bool(b)
}

/// `Value::String`.
#[verifier::external_body]
pub(crate) fn json_string(s: String) -> (v: serde_json::Value)
    ensures
        json_content(v) == JsonContent::Text(s@),
{
    serde_json::Value::String(s)
}

/// `Value::from(u64)`: a number stored as a non-negative integer.
#[verifier::external_body]
pub(crate) fn json_unsigned(n: u64) -> (v: serde_json::Value)
    ensures
        json_content(v) == (JsonContent::Number { unsigned: Some(n) }),
{
    serde_json::Value::from(n)
}

/// A JSON object with the two members `x` and `y`, built with
/// `serde_json::Map::insert` and `Value::Object`.
#[verifier::external_body]
pub(crate) fn json_point(x: serde_json::Value, y: serde_json::Value) -> (v: serde_json::Value)
    ensures
        json_content(v) == JsonContent::Object(
            Map::<Seq<char>, JsonContent>::empty().insert("x"@, json_content(x)).insert(
                "y"@,
                json_content(y),
            ),
        ),
{
    let mut members = serde_json::Map::new();
    members.insert("x".to_string(), x);
    members.insert("y".to_string(), y);
    serde_json::Value::Object(members)
}

/// `serde_json::from_str` at type `Value`.  The outcome depends on the text
/// alone: the same text gives the same value, or fails, every time.
#[verifier::external_body]
pub(crate) fn parse_json(text: &str) -> (r: Result<serde_json::Value, serde_json::Error>)
    ensures
        match r {
            Ok(v) => json_parse(text@) == Some(v),
            Err(_) => json_parse(text@) is None,
        },
{
    serde_json::from_str::<serde_json::Value>(text)
}

/// The `Display` text of a `serde_json::Error`: what went wrong, and where
/// in the text.
#[verifier::external_body]
pub(crate) fn json_error_text(e: &serde_json::Error) -> (s: String) {
    e.to_string()
}

/// `serde_json::to_string` on a `Value`, with the empty string in place of
/// an error.
#[verifier::external_body]
pub(crate) fn json_to_string(v: &serde_json::Value) -> (s: String)
    ensures
        s@ == json_text(*v),
{
    serde_json::to_string(v).unwrap_or_default()
}

/// The string of a JSON value, or the empty string where the value is not
/// a string.
pub open spec fn text_or_empty(v: serde_json::Value) -> Seq<char> {
    match json_content(v) {
        JsonContent::Text(s) => s,
        _ => Seq::empty(),
    }
}

/// The flag of a JSON value, or `default` where the value is not a flag.
pub open spec fn flag_or(v: serde_json::Value, default: bool) -> bool {
    match json_content(v) {
        JsonContent::Bool(b) => b,
        _ => default,
    }
}

/// The number that a JSON value spells, in millionths: what its JSON text
/// reads as.  `None` where the value is not a number.
pub open spec fn number_micros(v: serde_json::Value) -> Option<i64> {
    if json_content(v) is Number {
        match crate::number::decimal_micros(vstd::utf8::encode_utf8(json_text(v))) {
            Some(m) => Some(m as i64),
            None => None,
        }
    } else {
        None
    }
}

/// Reads the string of a JSON value.
pub fn read_text(v: &serde_json::Value) -> (s: String)
    ensures
        s@ == text_or_empty(*v),
{
    match v.as_str() {
        Some(s) => s.to_owned(),
        None => String::new(),
    }
}

/// Reads the flag of a JSON value.
pub fn read_flag(v: &serde_json::Value, default: bool) -> (b: bool)
    ensures
        b == flag_or(*v, default),
{
    match v.as_bool() {
        Some(b) => b,
        None => default,
    }
}

/// Reads the number of a JSON value into millionths, from its JSON text.
pub fn read_number(v: &serde_json::Value) -> (r: Option<i64>)
    ensures
        r == number_micros(*v),
{
    if v.is_number() {
        let text = json_to_string(v);
        let bytes = text.as_str().as_bytes();
        assert(bytes@.subrange(0, bytes@.len() as int) =~= bytes@);
        crate::number::parse_decimal(bytes, 0, bytes.len())
    } else {
        None
    }
}

} // verus!
