//! The parts of `serde_json` that the runtime uses, declared for the verifier.
//!
//! A JSON value stays opaque here: payloads are carried through unread. The
//! few members of a frame that the runtime looks at are read from the frame's
//! text, and named over that text.
use crate::envelope::digit_char;
use serde_json::Value;
use vstd::prelude::*;

verus! {

/// `serde_json::Value`, carried through unread.
#[verifier::external_type_specification]
#[verifier::external_body]
pub struct ExValue(serde_json::Value);

/// `serde_json::Error`, carried in a serialization failure.
#[verifier::external_type_specification]
#[verifier::external_body]
pub struct ExJsonError(serde_json::Error);

/// The lowercase hexadecimal digit for `d < 16`.
pub open spec fn hex_digit(d: int) -> char {
    if d < 10 {
        digit_char(d as nat)
    } else if d == 10 {
        'a'
    } else if d == 11 {
        'b'
    } else if d == 12 {
        'c'
    } else if d == 13 {
        'd'
    } else if d == 14 {
        'e'
    } else {
        'f'
    }
}

/// How one character appears inside a JSON string: `"` and `\` are escaped
/// with a backslash, five control characters by their short escapes, any
/// other control character below U+0020 as `\u00` and two hex digits, and
/// everything else as it is.
pub open spec fn escaped_char(c: char) -> Seq<char> {
    let n = c as u32 as int;
    if c == '"' {
        seq!['\\', '"']
    } else if c == '\\' {
        seq!['\\', '\\']
    } else if n == 8 {
        seq!['\\', 'b']
    } else if n == 9 {
        seq!['\\', 't']
    } else if n == 10 {
        seq!['\\', 'n']
    } else if n == 12 {
        seq!['\\', 'f']
    } else if n == 13 {
        seq!['\\', 'r']
    } else if n < 32 {
        seq!['\\', 'u', '0', '0', hex_digit(n / 16), hex_digit(n % 16)]
    } else {
        seq![c]
    }
}

/// The characters of `s`, each escaped.
pub open spec fn escaped_text(s: Seq<char>) -> Seq<char>
    decreases s.len(),
{
    if s.len() == 0 {
        Seq::empty()
    } else {
        escaped_text(s.drop_last()) + escaped_char(s.last())
    }
}

/// The JSON text of the string `s`: its escaped characters in double quotes.
pub open spec fn json_string_text(s: Seq<char>) -> Seq<char> {
    seq!['"'] + escaped_text(s) + seq!['"']
}

/// Whether `serde_json::from_str::<Value>` accepts `text` as one JSON document.
pub uninterp spec fn parses_as_json(text: Seq<char>) -> bool;

/// What `serde_json` reads as member `key` of the JSON document `text`, taken
/// as a `u64`: `None` when the text does not parse, is not an object, lacks
/// the member, or the member is not an integer in range.
pub uninterp spec fn member_u64_of(text: Seq<char>, key: Seq<char>) -> Option<u64>;

/// What `serde_json` reads as member `key` of the JSON document `text`, taken
/// as a string: `None` when the text does not parse, is not an object, lacks
/// the member, or the member is not a string.
pub uninterp spec fn member_str_of(text: Seq<char>, key: Seq<char>) -> Option<Seq<char>>;

/// Whether `serde_json` finds a member `key`, of any value, in the JSON
/// document `text`; false when the text does not parse or is not an object.
pub uninterp spec fn has_member_of(text: Seq<char>, key: Seq<char>) -> bool;

/// What `serde_json` reads as member `inner` of member `outer` of the JSON
/// document `text`, taken as an `i64`.
pub uninterp spec fn nested_i64_of(text: Seq<char>, outer: Seq<char>, inner: Seq<char>) -> Option<i64>;

/// What `serde_json` reads as member `inner` of member `outer` of the JSON
/// document `text`, taken as a string.
pub uninterp spec fn nested_str_of(text: Seq<char>, outer: Seq<char>, inner: Seq<char>) -> Option<
    Seq<char>,
>;

/// Relies on `serde_json::from_str::<Value>`, `Value::get` with a string
/// index, and `Value::as_u64`.
#[verifier::external_body]
pub(crate) fn read_u64(text: &str, key: &str) -> (r: Option<u64>)
    ensures
        r == member_u64_of(text@, key@),
        !parses_as_json(text@) ==> r is None,
{
    serde_json::from_str::<Value>(text).ok().and_then(|v| v.get(key).and_then(Value::as_u64))
}

/// Relies on `serde_json::from_str::<Value>`, `Value::get` with a string
/// index, and `Value::as_str`.
#[verifier::external_body]
pub(crate) fn read_str(text: &str, key: &str) -> (r: Option<String>)
    ensures
        match r {
            Some(s) => member_str_of(text@, key@) == Some(s@),
            None => member_str_of(text@, key@) is None,
        },
        !parses_as_json(text@) ==> r is None,
{
    serde_json::from_str::<Value>(text).ok().and_then(|v| v.get(key).and_then(Value::as_str).map(String::from))
}

/// Relies on `serde_json::from_str::<Value>` and `Value::get` with a string
/// index: the member itself, taken out of the parsed document.
#[verifier::external_body]
pub(crate) fn read_member(text: &str, key: &str) -> (r: Option<Value>)
    ensures
        r is Some == has_member_of(text@, key@),
        !parses_as_json(text@) ==> r is None,
{
    serde_json::from_str::<Value>(text).ok().and_then(|mut v| v.get_mut(key).map(Value::take))
}

/// Relies on `serde_json::from_str::<Value>`, `Value::get` with string
/// indexes, and `Value::as_i64`.
#[verifier::external_body]
pub(crate) fn read_nested_i64(text: &str, outer: &str, inner: &str) -> (r: Option<i64>)
    ensures
        r == nested_i64_of(text@, outer@, inner@),
{
    serde_json::from_str::<Value>(text).ok().and_then(|v| v.get(outer).and_then(|o| o.get(inner)).and_then(Value::as_i64))
}

/// Relies on `serde_json::from_str::<Value>`, `Value::get` with string
/// indexes, and `Value::as_str`.
#[verifier::external_body]
pub(crate) fn read_nested_str(text: &str, outer: &str, inner: &str) -> (r: Option<String>)
    ensures
        match r {
            Some(s) => nested_str_of(text@, outer@, inner@) == Some(s@),
            None => nested_str_of(text@, outer@, inner@) is None,
        },
{
    serde_json::from_str::<Value>(text).ok().and_then(|v| v.get(outer).and_then(|o| o.get(inner)).and_then(Value::as_str).map(String::from))
}

/// Builds `serde_json::Value::Null`, the JSON `null` value.
#[verifier::external_body]
pub(crate) fn null_value() -> (r: Value) {
    Value::Null
}

/// Relies on `serde_json::to_string` on a `str`: the string is written into
/// a `Vec<u8>`, which cannot fail, quoted and escaped as `json_string_text`
/// states.
#[verifier::external_body]
pub(crate) fn string_to_json(s: &str) -> (r: String)
    ensures
        r@ == json_string_text(s@),
{
    match serde_json::to_string(s) {
        Ok(t) => t,
        Err(_) => String::new(),
    }
}

} // verus!
