//! JSON through `serde_json`: what a parsed value holds, and texts as JSON
//! strings.

use crate::message::MessageView;
use serde_json::{Error, Value};
use vstd::prelude::*;

verus! {

broadcast use vstd::string::group_string_axioms;

/// A parsed JSON value.
#[verifier::external_type_specification]
#[verifier::external_body]
pub struct ExValue(serde_json::Value);

/// Why a text is no JSON.
#[verifier::external_type_specification]
#[verifier::external_body]
pub struct ExError(serde_json::Error);

/// What a JSON value holds. Numbers are not told apart.
pub enum Json {
    /// `null`
    Null,
    /// `true` or `false`
    Bool(bool),
    /// Any number.
    Number,
    /// A string.
    Text(Seq<char>),
    /// A list of values.
    Array(Seq<Json>),
    /// Values under names.
    Object(Map<Seq<char>, Json>),
}

/// What a parsed value holds.
pub uninterp spec fn contents(value: serde_json::Value) -> Json;

/// The value that `serde_json::from_str` reads from a text, if it is JSON. It
/// is spoken of only where the text is no record of a message.
pub uninterp spec fn json_in_text(text: Seq<char>) -> Option<Json>;

/// The value that `serde_json::from_slice` reads from bytes, if they are JSON.
pub uninterp spec fn json_in_bytes(bytes: Seq<u8>) -> Option<Json>;

// ---------------------------------------------------------------------------
// Strings

/// The lower-case hexadecimal digit of a value below sixteen.
pub open spec fn hex_char(value: int) -> char {
    if value < 10 {
        ('0' as u32 + value) as char
    } else {
        ('a' as u32 + value - 10) as char
    }
}

/// One character inside a JSON string.
pub open spec fn json_char(c: char) -> Seq<char> {
    let n = c as u32;
    if c == '"' {
        seq!['\\', '"']
    } else if c == '\\' {
        seq!['\\', '\\']
    } else if n == 0x08 {
        seq!['\\', 'b']
    } else if n == 0x09 {
        seq!['\\', 't']
    } else if n == 0x0a {
        seq!['\\', 'n']
    } else if n == 0x0c {
        seq!['\\', 'f']
    } else if n == 0x0d {
        seq!['\\', 'r']
    } else if n < 0x20 {
        seq!['\\', 'u', '0', '0', hex_char(n as int / 16), hex_char(n as int % 16)]
    } else {
        seq![c]
    }
}

/// The inside of the JSON string for `s`.
pub open spec fn json_chars(s: Seq<char>) -> Seq<char>
    decreases s.len(),
{
    if s.len() == 0 {
        seq![]
    } else {
        json_char(s[0]) + json_chars(s.drop_first())
    }
}

/// The JSON string for `s`.
pub open spec fn quoted(s: Seq<char>) -> Seq<char> {
    seq!['"'] + json_chars(s) + seq!['"']
}

/// Calls `serde_json::to_string` on a string, which always succeeds: the
/// result is the text between double quotes, with a backslash before double
/// quotes and backslashes and with the control characters below U+0020 as
/// escapes, the short ones where JSON has them.
#[verifier::external_body]
pub(crate) fn to_json_string(text: &str) -> (json: Result<String, Error>)
    ensures
        json is Ok,
        json->Ok_0@ == quoted(text@),
{
    serde_json::to_string(text)
}

// ---------------------------------------------------------------------------
// Records

/// The JSON object for a message, on one line and without white space.
pub open spec fn record_text(m: MessageView) -> Seq<char> {
    "{\"role\":"@ + quoted(m.role) + ",\"mode\":"@ + quoted(m.mode) + ",\"content\":"@ + quoted(
        m.content,
    ) + "}"@
}

/// What the JSON object for a message holds.
pub open spec fn record_json(m: MessageView) -> Json {
    Json::Object(
        map![
            "role"@ => Json::Text(m.role),
            "mode"@ => Json::Text(m.mode),
            "content"@ => Json::Text(m.content),
        ],
    )
}

/// The JSON object for a message without its mode.
pub open spec fn modeless_text(role: Seq<char>, content: Seq<char>) -> Seq<char> {
    "{\"role\":"@ + quoted(role) + ",\"content\":"@ + quoted(content) + "}"@
}

/// What the JSON object for a message without its mode holds.
pub open spec fn modeless_json(role: Seq<char>, content: Seq<char>) -> Json {
    Json::Object(map!["role"@ => Json::Text(role), "content"@ => Json::Text(content)])
}

/// The text is the JSON object for a message.
pub open spec fn is_record(text: Seq<char>) -> bool {
    exists|m: MessageView| text == #[trigger] record_text(m)
}

/// The text is the JSON object for a message without its mode.
pub open spec fn is_modeless(text: Seq<char>) -> bool {
    exists|role: Seq<char>, content: Seq<char>| text == #[trigger] modeless_text(role, content)
}

// ---------------------------------------------------------------------------
// Values

/// The value that a text is JSON for, if it is JSON.
pub open spec fn json_of(text: Seq<char>) -> Option<Json> {
    if is_record(text) {
        Some(record_json(choose|m: MessageView| text == #[trigger] record_text(m)))
    } else if is_modeless(text) {
        let (role, content) = choose|role: Seq<char>, content: Seq<char>|
            text == #[trigger] modeless_text(role, content);
        Some(modeless_json(role, content))
    } else {
        json_in_text(text)
    }
}

/// Calls `serde_json::from_str` for a `Value`. The JSON object for a message,
/// with its mode or without it, is JSON, and its value holds the strings of the
/// message under their names. Of other texts only that what is read depends on
/// the text alone is claimed; the grammar of JSON is left unsaid.
#[verifier::external_body]
pub(crate) fn value_from_str(text: &str) -> (value: Result<Value, Error>)
    ensures
        value is Ok <==> json_of(text@) is Some,
        value matches Ok(v) ==> json_of(text@) == Some(contents(v)),
        !is_record(text@) && !is_modeless(text@) ==> (value is Ok <==> json_in_text(text@) is Some),
{
    serde_json::from_str(text)
}

/// Calls `serde_json::from_slice` for a `Value`. Whether the bytes are JSON,
/// and what the value then holds, depends on the bytes alone.
#[verifier::external_body]
pub(crate) fn value_from_slice(bytes: &[u8]) -> (value: Result<Value, Error>)
    ensures
        value is Ok <==> json_in_bytes(bytes@) is Some,
        value matches Ok(v) ==> json_in_bytes(bytes@) == Some(contents(v)),
{
    serde_json::from_slice(bytes)
}

/// The value under a name, where `json` is an object that has it.
pub open spec fn member(json: Json, key: Seq<char>) -> Option<Json> {
    match json {
        Json::Object(members) => if members.dom().contains(key) {
            Some(members[key])
        } else {
            None
        },
        _ => None,
    }
}

/// The text of a string.
pub open spec fn text_in(json: Option<Json>) -> Option<Seq<char>> {
    match json {
        Some(Json::Text(text)) => Some(text),
        _ => None,
    }
}

/// The first value of a list.
pub open spec fn first_in(json: Option<Json>) -> Option<Json> {
    match json {
        Some(Json::Array(items)) => if items.len() > 0 {
            Some(items[0])
        } else {
            None
        },
        _ => None,
    }
}

/// Calls `Value::get` with a name: the value under the name where the value is
/// an object that has it, and nothing otherwise.
#[verifier::external_body]
pub(crate) fn value_get<'a>(value: &'a Value, key: &str) -> (found: Option<&'a Value>)
    ensures
        found is Some <==> member(contents(*value), key@) is Some,
        found matches Some(v) ==> member(contents(*value), key@) == Some(contents(*v)),
{
    value.get(key)
}

/// `Value::as_str` gives the text of a string, and nothing for other values.
pub assume_specification<'a>[ serde_json::Value::as_str ](value: &'a Value) -> (text: Option<&'a str>)
    ensures
        crate::text::slice_view(text) == text_in(Some(contents(*value))),
;

/// `Value::as_array` gives the values of a list, and nothing for other values.
pub assume_specification<'a>[ serde_json::Value::as_array ](value: &'a Value) -> (items: Option<&'a Vec<Value>>)
    ensures
        items is Some <==> contents(*value) is Array,
        items matches Some(list) ==> contents(*value) == Json::Array(
            Seq::new(list@.len(), |i: int| contents(list@[i])),
        ),
;

} // verus!
