//! JSON as text: what the library writes is assembled from quoted strings
//! and numbers, and what it reads is looked up by JSON pointer.

use vstd::prelude::*;
use vstd::string::StringExecFns;
use crate::hex::{hex_char, push_signed_decimal, signed_decimal};
use crate::text::{text_of, texts};

verus! {

/// How a character stands inside a JSON string: `"` and `\` behind a `\`,
/// the control characters by their short names or as `\u00` and two
/// hexadecimal digits, every other character as it is.
pub open spec fn json_escape(c: char) -> Seq<char> {
    if c == '"' {
        seq!['\\', '"']
    } else if c == '\\' {
        seq!['\\', '\\']
    } else if c == '\u{8}' {
        seq!['\\', 'b']
    } else if c == '\t' {
        seq!['\\', 't']
    } else if c == '\n' {
        seq!['\\', 'n']
    } else if c == '\u{c}' {
        seq!['\\', 'f']
    } else if c == '\r' {
        seq!['\\', 'r']
    } else if (c as u32) < 0x20 {
        seq!['\\', 'u', '0', '0', hex_char(c as int / 16), hex_char(c as int % 16)]
    } else {
        seq![c]
    }
}

/// The characters of `text`, each as it stands inside a JSON string.
pub open spec fn json_escaped(text: Seq<char>) -> Seq<char>
    decreases text.len(),
{
    if text.len() == 0 {
        Seq::empty()
    } else {
        json_escaped(text.drop_last()) + json_escape(text.last())
    }
}

/// `text` as a JSON string: escaped, between double quotes.
pub open spec fn json_string(text: Seq<char>) -> Seq<char> {
    seq!['"'] + json_escaped(text) + seq!['"']
}

/// `serde_json::to_string` of a string: the string as JSON.
#[verifier::external_body]
pub(crate) fn quote(text: &str) -> (out: String)
    ensures
        out@ == json_string(text@),
{
    serde_json::to_string(text).unwrap_or_default()
}

/// The kinds of JSON value.
#[derive(Debug, Clone, Copy, PartialEq, Eq, Structural)]
pub enum JsonKind {
    Null,
    Bool,
    Number,
    Text,
    Array,
    Object,
}

/// What stands at a place of a JSON document: its kind, and the value
/// itself where it is a string, an integer that fits in 64 bits with a sign,
/// or an array, of which the length is given.
#[derive(Debug)]
pub struct JsonFound {
    pub kind: JsonKind,
    pub text: Option<String>,
    pub integer: Option<i64>,
    pub length: Option<usize>,
}

/// A `JsonFound` with text as a sequence of characters.
pub struct JsonFoundView {
    pub kind: JsonKind,
    pub text: Option<Seq<char>>,
    pub integer: Option<i64>,
    pub length: Option<usize>,
}

impl View for JsonFound {
    type V = JsonFoundView;

    open spec fn view(&self) -> JsonFoundView {
        JsonFoundView {
            kind: self.kind,
            text: text_of(self.text),
            integer: self.integer,
            length: self.length,
        }
    }
}

/// What `serde_json` finds in the document `text` at the JSON pointer
/// `pointer`: nothing where the pointer reaches nothing, and the parser's
/// message where `text` is no JSON document.
pub uninterp spec fn json_at(text: Seq<char>, pointer: Seq<char>) -> Result<
    Option<JsonFoundView>,
    Seq<char>,
>;

/// The view of what a lookup gives.
pub open spec fn found_view(r: Result<Option<JsonFound>, String>) -> Result<
    Option<JsonFoundView>,
    Seq<char>,
> {
    match r {
        Ok(Some(f)) => Ok(Some(f@)),
        Ok(None) => Ok(None),
        Err(m) => Err(m@),
    }
}

/// `serde_json::from_str` and `Value::pointer`: what stands at `pointer`
/// in the document `text`, with what `as_str`, `as_i64` and `as_array` give
/// for it.
#[verifier::external_body]
pub(crate) fn value_at(text: &str, pointer: &str) -> (found: Result<Option<JsonFound>, String>)
    ensures
        found_view(found) == json_at(text@, pointer@),
{
    let doc = serde_json::from_str::<serde_json::Value>(text).map_err(|e| e.to_string())?;
    Ok(doc.pointer(pointer).map(|v| JsonFound {
        kind: match v {
            serde_json::Value::Null => JsonKind::Null,
            serde_json::Value::Bool(_) => JsonKind::Bool,
            serde_json::Value::Number(_) => JsonKind::Number,
            serde_json::Value::String(_) => JsonKind::Text,
            serde_json::Value::Array(_) => JsonKind::Array,
            serde_json::Value::Object(_) => JsonKind::Object,
        },
        text: v.as_str().map(str::to_owned),
        integer: v.as_i64(),
        length: v.as_array().map(Vec::len),
    }))
}

/// The kind of the value that `pointer` reaches in the JSON document
/// `text`: none where the pointer reaches nothing, and the parser's message
/// where `text` is no JSON document.
pub open spec fn json_kind_at(text: Seq<char>, pointer: Seq<char>) -> Result<
    Option<JsonKind>,
    Seq<char>,
> {
    match json_at(text, pointer) {
        Ok(Some(f)) => Ok(Some(f.kind)),
        Ok(None) => Ok(None),
        Err(m) => Err(m),
    }
}

/// The string that `pointer` reaches in the JSON document `text`: none
/// where `text` is no JSON document or what is reached is no string.
pub open spec fn json_text_at(text: Seq<char>, pointer: Seq<char>) -> Option<Seq<char>> {
    match json_at(text, pointer) {
        Ok(Some(f)) => f.text,
        _ => None,
    }
}

/// The number that `pointer` reaches in the JSON document `text`, where it
/// is an integer that fits in 64 bits with a sign.
pub open spec fn json_i64_at(text: Seq<char>, pointer: Seq<char>) -> Option<i64> {
    match json_at(text, pointer) {
        Ok(Some(f)) => f.integer,
        _ => None,
    }
}

/// The number of items of the array that `pointer` reaches in the JSON
/// document `text`.
pub open spec fn json_len_at(text: Seq<char>, pointer: Seq<char>) -> Option<usize> {
    match json_at(text, pointer) {
        Ok(Some(f)) => f.length,
        _ => None,
    }
}

/// The view of a result that holds a kind or a message.
pub open spec fn kind_view(r: Result<Option<JsonKind>, String>) -> Result<
    Option<JsonKind>,
    Seq<char>,
> {
    match r {
        Ok(k) => Ok(k),
        Err(m) => Err(m@),
    }
}

/// The kind of the value at `pointer` in the document `text`.
pub fn kind_at(text: &str, pointer: &str) -> (kind: Result<Option<JsonKind>, String>)
    ensures
        kind_view(kind) == json_kind_at(text@, pointer@),
{
    match value_at(text, pointer) {
        Ok(Some(f)) => Ok(Some(f.kind)),
        Ok(None) => Ok(None),
        Err(m) => Err(m),
    }
}

/// The string at `pointer` in the document `text`.
pub fn text_at(text: &str, pointer: &str) -> (found: Option<String>)
    ensures
        text_of(found) == json_text_at(text@, pointer@),
{
    match value_at(text, pointer) {
        Ok(Some(f)) => f.text,
        _ => None,
    }
}

/// The integer at `pointer` in the document `text`.
pub fn i64_at(text: &str, pointer: &str) -> (found: Option<i64>)
    ensures
        found == json_i64_at(text@, pointer@),
{
    match value_at(text, pointer) {
        Ok(Some(f)) => f.integer,
        _ => None,
    }
}

/// The length of the array at `pointer` in the document `text`.
pub fn len_at(text: &str, pointer: &str) -> (found: Option<usize>)
    ensures
        found == json_len_at(text@, pointer@),
{
    match value_at(text, pointer) {
        Ok(Some(f)) => f.length,
        _ => None,
    }
}

/// A member of a JSON object: the name as a JSON string, a colon, and the
/// value.
pub open spec fn member(name: Seq<char>, value: Seq<char>) -> Seq<char> {
    json_string(name) + seq![':'] + value
}

/// The items, with a comma between each two.
pub open spec fn joined(items: Seq<Seq<char>>) -> Seq<char>
    decreases items.len(),
{
    if items.len() == 0 {
        Seq::empty()
    } else if items.len() == 1 {
        items[0]
    } else {
        joined(items.drop_last()) + seq![','] + items.last()
    }
}

/// A JSON object with the given members.
pub open spec fn object(members: Seq<Seq<char>>) -> Seq<char> {
    seq!['{'] + joined(members) + seq!['}']
}

/// A JSON array with the given items.
pub open spec fn array(items: Seq<Seq<char>>) -> Seq<char> {
    seq!['['] + joined(items) + seq![']']
}

/// A truth value as JSON.
pub open spec fn json_bool(b: bool) -> Seq<char> {
    if b {
        "true"@
    } else {
        "false"@
    }
}

/// An optional string as JSON: the string, or `null`.
pub open spec fn json_optional(text: Option<Seq<char>>) -> Seq<char> {
    match text {
        Some(t) => json_string(t),
        None => "null"@,
    }
}

/// Joins items with commas.
pub fn join(items: &[String]) -> (out: String)
    ensures
        out@ == joined(texts(items@)),
{
    let mut out = String::new();
    let mut i: usize = 0;
    while i < items.len()
        invariant
            i <= items.len(),
            out@ == joined(texts(items@).take(i as int)),
        decreases items.len() - i,
    {
        proof {
            let head = texts(items@).take(i as int + 1);
            assert(head.drop_last() == texts(items@).take(i as int));
            assert(head.last() == items@[i as int]@);
        }
        if i > 0 {
            out.push(',');
        }
        out.append(items[i].as_str());
        proof {
            if i == 0 {
                assert(Seq::<char>::empty() + items@[0]@ == items@[0]@);
            }
        }
        i += 1;
    }
    proof {
        assert(texts(items@).take(items.len() as int) == texts(items@));
    }
    out
}

/// A JSON object with the given members.
pub fn write_object(members: &[String]) -> (out: String)
    ensures
        out@ == object(texts(members@)),
{
    let mut out = "{".to_owned();
    proof {
        reveal_strlit("{");
        reveal_strlit("}");
        assert("{"@ =~= seq!['{']);
        assert("}"@ =~= seq!['}']);
    }
    out.append(join(members).as_str());
    out.append("}");
    out
}

/// A JSON array with the given items.
pub fn write_array(items: &[String]) -> (out: String)
    ensures
        out@ == array(texts(items@)),
{
    let mut out = "[".to_owned();
    proof {
        reveal_strlit("[");
        reveal_strlit("]");
        assert("["@ =~= seq!['[']);
        assert("]"@ =~= seq![']']);
    }
    out.append(join(items).as_str());
    out.append("]");
    out
}

/// A member of a JSON object.
pub fn write_member(name: &str, value: &str) -> (out: String)
    ensures
        out@ == member(name@, value@),
{
    let mut out = quote(name);
    out.push(':');
    out.append(value);
    out
}

/// A member of a JSON object whose value is a string.
pub fn text_member(name: &str, value: &str) -> (out: String)
    ensures
        out@ == member(name@, json_string(value@)),
{
    write_member(name, quote(value).as_str())
}

/// A member of a JSON object whose value is an integer.
pub fn number_member(name: &str, value: i64) -> (out: String)
    ensures
        out@ == member(name@, signed_decimal(value as int)),
{
    let mut digits = String::new();
    push_signed_decimal(&mut digits, value);
    proof {
        assert(Seq::<char>::empty() + signed_decimal(value as int) == signed_decimal(
            value as int,
        ));
    }
    write_member(name, digits.as_str())
}

/// A member of a JSON object whose value is a truth value.
pub fn bool_member(name: &str, value: bool) -> (out: String)
    ensures
        out@ == member(name@, json_bool(value)),
{
    write_member(
        name,
        if value {
            "true"
        } else {
            "false"
        },
    )
}

/// A member of a JSON object whose value is a string or `null`.
pub fn optional_member(name: &str, value: &Option<String>) -> (out: String)
    ensures
        out@ == member(name@, json_optional(text_of(*value))),
{
    match value {
        Some(v) => text_member(name, v.as_str()),
        None => write_member(name, "null"),
    }
}

} // verus!
