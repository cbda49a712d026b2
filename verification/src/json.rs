//! A plain-value model of the JSON arguments that tools receive.
//!
//! Tool arguments arrive as JSON objects. The library reads them through this
//! model: objects keep their entries in order, and a key is looked up at its
//! first occurrence.

use vstd::prelude::*;

verus! {

/// What a JSON number offers to the readers: its value as `u64` and as `i64`,
/// where it has one.
#[derive(Clone, Copy, PartialEq, Eq, Debug)]
pub struct JsonNumber {
    pub as_u64: Option<u64>,
    pub as_i64: Option<i64>,
}

/// A JSON value.
#[derive(Debug)]
pub enum JsonValue {
    Null,
    Bool(bool),
    Number(JsonNumber),
    Str(String),
    Array(Vec<JsonValue>),
    Object(Vec<(String, JsonValue)>),
}

/// The value stored under `key` at its first occurrence among `entries`.
pub open spec fn lookup(entries: Seq<(String, JsonValue)>, key: Seq<char>) -> Option<JsonValue>
    decreases entries.len(),
{
    if entries.len() == 0 {
        None
    } else if entries[0].0@ == key {
        Some(entries[0].1)
    } else {
        lookup(entries.drop_first(), key)
    }
}

/// `v[key]` when `v` is an object holding `key`.
pub open spec fn get(v: JsonValue, key: Seq<char>) -> Option<JsonValue> {
    match v {
        JsonValue::Object(entries) => lookup(entries@, key),
        _ => None,
    }
}

/// The text of a string value.
pub open spec fn text_of(v: JsonValue) -> Option<Seq<char>> {
    match v {
        JsonValue::Str(s) => Some(s@),
        _ => None,
    }
}

/// The elements of an array value.
pub open spec fn items_of(v: JsonValue) -> Option<Seq<JsonValue>> {
    match v {
        JsonValue::Array(items) => Some(items@),
        _ => None,
    }
}

/// The `u64` value of a number.
pub open spec fn u64_of(v: JsonValue) -> Option<u64> {
    match v {
        JsonValue::Number(n) => n.as_u64,
        _ => None,
    }
}

/// The value of a boolean.
pub open spec fn bool_of(v: JsonValue) -> Option<bool> {
    match v {
        JsonValue::Bool(b) => Some(b),
        _ => None,
    }
}

/// `v[key]` read as text.
pub open spec fn text_field(v: JsonValue, key: Seq<char>) -> Option<Seq<char>> {
    match get(v, key) {
        Some(x) => text_of(x),
        None => None,
    }
}

/// `v[key]` read as an array.
pub open spec fn items_field(v: JsonValue, key: Seq<char>) -> Option<Seq<JsonValue>> {
    match get(v, key) {
        Some(x) => items_of(x),
        None => None,
    }
}

/// `v[key]` read as a `u64`.
pub open spec fn u64_field(v: JsonValue, key: Seq<char>) -> Option<u64> {
    match get(v, key) {
        Some(x) => u64_of(x),
        None => None,
    }
}

/// `v[key]` read as a boolean.
pub open spec fn bool_field(v: JsonValue, key: Seq<char>) -> Option<bool> {
    match get(v, key) {
        Some(x) => bool_of(x),
        None => None,
    }
}

/// The texts of the string elements of `items`, in order; other elements are skipped.
pub open spec fn texts_in(items: Seq<JsonValue>) -> Seq<Seq<char>>
    decreases items.len(),
{
    if items.len() == 0 {
        Seq::empty()
    } else {
        let rest = texts_in(items.drop_last());
        match text_of(items.last()) {
            Some(t) => rest.push(t),
            None => rest,
        }
    }
}

/// The texts of the string elements of the array `v[key]`; empty when it is no array.
pub open spec fn texts_field(v: JsonValue, key: Seq<char>) -> Seq<Seq<char>> {
    match items_field(v, key) {
        Some(items) => texts_in(items),
        None => Seq::empty(),
    }
}

impl JsonValue {
    /// The value under `key` when `self` is an object holding it.
    pub fn get(&self, key: &str) -> (r: Option<&JsonValue>)
        ensures
            r matches Some(x) ==> get(*self, key@) == Some(*x),
            r is None ==> get(*self, key@) is None,
    {
        match self {
            JsonValue::Object(entries) => {
                let n = entries.len();
                let mut i: usize = 0;
                assert(entries@.subrange(0, n as int) =~= entries@);
                while i < n
                    invariant
                        i <= n,
                        n == entries@.len(),
                        lookup(entries@, key@) == lookup(entries@.subrange(i as int, n as int), key@),
                        get(*self, key@) == lookup(entries@, key@),
                    decreases n - i,
                {
                    let ghost rest = entries@.subrange(i as int, n as int);
                    assert(rest[0] == entries@[i as int]);
                    if crate::text::str_eq(entries[i].0.as_str(), key) {
                        assert(rest[0].0@ == key@);
                        assert(lookup(rest, key@) == Some(rest[0].1));
                        assert(get(*self, key@) == lookup(entries@, key@));
                        return Some(&entries[i].1);
                    }
                    assert(rest.drop_first() =~= entries@.subrange(i + 1, n as int));
                    i = i + 1;
                }
                None
            },
            _ => None,
        }
    }

    /// The text of a string value.
    pub fn as_str(&self) -> (r: Option<&String>)
        ensures
            r matches Some(s) ==> text_of(*self) == Some(s@),
            r is None ==> text_of(*self) is None,
    {
        match self {
            JsonValue::Str(s) => Some(s),
            _ => None,
        }
    }

    /// The elements of an array value.
    pub fn as_array(&self) -> (r: Option<&Vec<JsonValue>>)
        ensures
            r matches Some(v) ==> items_of(*self) == Some(v@),
            r is None ==> items_of(*self) is None,
    {
        match self {
            JsonValue::Array(v) => Some(v),
            _ => None,
        }
    }

    /// The `u64` value of a number.
    pub fn as_u64(&self) -> (r: Option<u64>)
        ensures
            r == u64_of(*self),
    {
        match self {
            JsonValue::Number(n) => n.as_u64,
            _ => None,
        }
    }

    /// The value of a boolean.
    pub fn as_bool(&self) -> (r: Option<bool>)
        ensures
            r == bool_of(*self),
    {
        match self {
            JsonValue::Bool(b) => Some(*b),
            _ => None,
        }
    }
}

/// `v[key]` as an owned text.
pub fn text_field_of(v: &JsonValue, key: &str) -> (r: Option<String>)
    ensures
        r matches Some(s) ==> text_field(*v, key@) == Some(s@),
        r is None ==> text_field(*v, key@) is None,
{
    match v.get(key) {
        Some(x) => match x.as_str() {
            Some(s) => Some(s.clone()),
            None => None,
        },
        None => None,
    }
}

/// `v[key]` as a `u64`.
pub fn u64_field_of(v: &JsonValue, key: &str) -> (r: Option<u64>)
    ensures
        r == u64_field(*v, key@),
{
    match v.get(key) {
        Some(x) => x.as_u64(),
        None => None,
    }
}

/// `v[key]` as a boolean.
pub fn bool_field_of(v: &JsonValue, key: &str) -> (r: Option<bool>)
    ensures
        r == bool_field(*v, key@),
{
    match v.get(key) {
        Some(x) => x.as_bool(),
        None => None,
    }
}

/// The string elements of `items`, in order.
pub fn texts_of(items: &Vec<JsonValue>) -> (out: Vec<String>)
    ensures
        out@.map_values(|s: String| s@) == texts_in(items@),
{
    let mut out: Vec<String> = Vec::new();
    let n = items.len();
    for i in 0..n
        invariant
            n == items@.len(),
            out@.map_values(|s: String| s@) == texts_in(items@.take(i as int)),
    {
        assert(items@.take(i + 1).drop_last() =~= items@.take(i as int));
        match items[i].as_str() {
            Some(s) => {
                out.push(s.clone());
            },
            None => {},
        }
        assert(out@.map_values(|s: String| s@) =~= texts_in(items@.take(i + 1)));
    }
    assert(items@.take(n as int) =~= items@);
    out
}

/// The string elements of the array `v[key]`; empty when `v[key]` is no array.
pub fn texts_field_of(v: &JsonValue, key: &str) -> (out: Vec<String>)
    ensures
        out@.map_values(|s: String| s@) == texts_field(*v, key@),
{
    match v.get(key) {
        Some(x) => match x.as_array() {
            Some(items) => texts_of(items),
            None => {
                let out: Vec<String> = Vec::new();
                assert(out@.map_values(|s: String| s@) =~= Seq::<Seq<char>>::empty());
                out
            },
        },
        None => {
            let out: Vec<String> = Vec::new();
            assert(out@.map_values(|s: String| s@) =~= Seq::<Seq<char>>::empty());
            out
        },
    }
}

/// `serde_json`'s own value type, carried through the reading of JSON text.
#[verifier::external_type_specification]
#[verifier::external_body]
pub struct ExSerdeJsonValue(serde_json::Value);

/// The JSON model of what `serde_json::from_str` reads from `text` as a
/// `serde_json::Value`, or `None` where it rejects the text.
pub uninterp spec fn json_text_parse(text: Seq<char>) -> Option<JsonValue>;

/// The conversion half of `parse_json_text`: a `serde_json::Value` turned into
/// the JSON model variant for variant, object entries in the map's order and
/// numbers by their `as_u64` and `as_i64` readings. It stands apart only
/// because the conversion recurses; nothing is stated of it on its own.
#[verifier::external_body]
fn json_model(v: serde_json::Value) -> JsonValue {
    match v {
        serde_json::Value::Null => JsonValue::Null,
        serde_json::Value::Bool(b) => JsonValue::Bool(b),
        serde_json::Value::Number(n) => JsonValue::Number(JsonNumber { as_u64: n.as_u64(), as_i64: n.as_i64() }),
        serde_json::Value::String(s) => JsonValue::Str(s),
        serde_json::Value::Array(items) => JsonValue::Array(items.into_iter().map(json_model).collect()),
        serde_json::Value::Object(m) => JsonValue::Object(m.into_iter().map(|(k, x)| (k, json_model(x))).collect()),
    }
}

/// Reads JSON text with `serde_json::from_str` into a `serde_json::Value`;
/// the result is `json_text_parse` of the text.
#[verifier::external_body]
pub(crate) fn parse_json_text(text: &str) -> (r: Option<JsonValue>)
    ensures
        r == json_text_parse(text@),
{
    match serde_json::from_str::<serde_json::Value>(text) {
        Ok(v) => Some(json_model(v)),
        Err(_) => None,
    }
}

/// The tool input a call's argument text gives: what it reads as, or `null`
/// where it is no JSON.
pub open spec fn tool_input_of(arguments: Seq<char>) -> JsonValue {
    match json_text_parse(arguments) {
        Some(v) => v,
        None => JsonValue::Null,
    }
}

/// Reads a call's argument text as its tool input (see `tool_input_of`).
pub fn read_tool_input(arguments: &str) -> (v: JsonValue)
    ensures
        v == tool_input_of(arguments@),
{
    match parse_json_text(arguments) {
        Some(v) => v,
        None => JsonValue::Null,
    }
}

} // verus!
