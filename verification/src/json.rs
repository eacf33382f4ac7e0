//! Reading and writing small pieces of JSON text.

use vstd::prelude::*;
use crate::text::texts;

verus! {

/// The compact JSON text of the object with the fields `zh` and `en`.
pub uninterp spec fn json_pair_text(zh: Seq<char>, en: Seq<char>) -> Seq<char>;

/// The JSON text of a field of the object that a JSON text holds; none where the text is not
/// JSON, or holds no object, or that has no such field.
pub uninterp spec fn json_field_text(text: Seq<char>, key: Seq<char>) -> Option<Seq<char>>;

/// The JSON texts of the items of the array that a JSON text holds; none where the text is not
/// JSON or holds no array.
pub uninterp spec fn json_item_texts(text: Seq<char>) -> Option<Seq<Seq<char>>>;

/// The string that a JSON text holds; none where the text is not JSON or holds no string.
pub uninterp spec fn json_string_text(text: Seq<char>) -> Option<Seq<char>>;

/// The number that a JSON text holds; none where the text is not JSON or holds no whole number
/// from 0 to the greatest of 64 bits.
pub uninterp spec fn json_number_value(text: Seq<char>) -> Option<u64>;

/// The keys of the object that a JSON text holds, sorted; none where the text is not JSON or holds
/// no object.
pub uninterp spec fn json_key_texts(text: Seq<char>) -> Option<Seq<Seq<char>>>;

/// The strings of the array that a JSON text holds, or what is wrong with it where the text is
/// not JSON, holds no array, or the array holds anything else.
pub uninterp spec fn json_string_list(text: Seq<char>) -> Result<Seq<Seq<char>>, Seq<char>>;

/// The JSON text of the object that a JSON text holds, with one field set to the value that
/// another holds; none where either text is not JSON or the first holds no object.
pub uninterp spec fn json_with_field(
    text: Seq<char>,
    key: Seq<char>,
    value: Seq<char>,
) -> Option<Seq<char>>;

/// A text that starts and ends with a brace.
pub open spec fn in_braces(text: Seq<char>) -> bool {
    text.len() >= 2 && text[0] == '\u{7b}' && text.last() == '\u{7d}'
}

/// The string that a field of a JSON object holds.
pub open spec fn string_field(text: Seq<char>, key: Seq<char>) -> Option<Seq<char>> {
    match json_field_text(text, key) {
        Some(field) => json_string_text(field),
        None => None,
    }
}

/// Writes an object with two string fields, by the `Display` of `serde_json::Value`. That
/// writes compact JSON: it starts with a brace, ends with one, and reading a field of it back
/// gives the string that was written.
#[verifier::external_body]
pub(crate) fn write_pair(zh: String, en: String) -> (text: String)
    ensures
        text@ == json_pair_text(zh@, en@),
        in_braces(text@),
        string_field(text@, "zh"@) == Some(zh@),
        string_field(text@, "en"@) == Some(en@),
{
    let mut map = serde_json::Map::new();
    map.insert("zh".to_string(), serde_json::Value::String(zh));
    map.insert("en".to_string(), serde_json::Value::String(en));
    serde_json::Value::Object(map).to_string()
}

/// Reads a field of the object that a JSON text holds, by `serde_json::from_str` and
/// `serde_json::Value::get`, and writes it as JSON text.
#[verifier::external_body]
pub(crate) fn read_field(text: &str, key: &str) -> (field: Option<String>)
    ensures
        match field {
            Some(f) => json_field_text(text@, key@) == Some(f@),
            None => json_field_text(text@, key@) is None,
        },
{
    let value: serde_json::Value = serde_json::from_str(text).ok()?;
    value.get(key).map(|v| v.to_string())
}

/// Reads the items of the array that a JSON text holds, by `serde_json::from_str` and
/// `serde_json::Value::as_array`, and writes each as JSON text.
#[verifier::external_body]
pub(crate) fn read_items(text: &str) -> (items: Option<Vec<String>>)
    ensures
        match items {
            Some(list) => json_item_texts(text@) == Some(texts(list@)),
            None => json_item_texts(text@) is None,
        },
{
    let value: serde_json::Value = serde_json::from_str(text).ok()?;
    value.as_array().map(|list| list.iter().map(|v| v.to_string()).collect())
}

/// Reads the string that a JSON text holds, by `serde_json::from_str` and
/// `serde_json::Value::as_str`.
#[verifier::external_body]
pub(crate) fn read_string(text: &str) -> (string: Option<String>)
    ensures
        match string {
            Some(s) => json_string_text(text@) == Some(s@),
            None => json_string_text(text@) is None,
        },
{
    let value: serde_json::Value = serde_json::from_str(text).ok()?;
    value.as_str().map(|s| s.to_string())
}

/// Reads the number that a JSON text holds, by `serde_json::from_str` and
/// `serde_json::Value::as_u64`.
#[verifier::external_body]
pub(crate) fn read_number(text: &str) -> (number: Option<u64>)
    ensures
        number == json_number_value(text@),
{
    let value: serde_json::Value = serde_json::from_str(text).ok()?;
    value.as_u64()
}

/// Reads the keys of the object that a JSON text holds, by `serde_json::from_str` and
/// `serde_json::Map::keys`, which walks them in their order as strings.
#[verifier::external_body]
pub(crate) fn read_keys(text: &str) -> (keys: Option<Vec<String>>)
    ensures
        match keys {
            Some(list) => json_key_texts(text@) == Some(texts(list@)),
            None => json_key_texts(text@) is None,
        },
{
    let value: serde_json::Value = serde_json::from_str(text).ok()?;
    value.as_object().map(|map| map.keys().cloned().collect())
}

/// Reads the array of strings that a JSON text holds, by `serde_json::from_str` to a value and
/// `serde_json::from_value`; the message is that of `serde_json::Error`.
#[verifier::external_body]
pub(crate) fn read_string_list(text: &str) -> (list: Result<Vec<String>, String>)
    ensures
        match list {
            Ok(l) => json_string_list(text@) == Ok::<Seq<Seq<char>>, Seq<char>>(texts(l@)),
            Err(e) => json_string_list(text@) == Err::<Seq<Seq<char>>, Seq<char>>(e@),
        },
{
    let value: serde_json::Value = serde_json::from_str(text).map_err(|e| e.to_string())?;
    serde_json::from_value::<Vec<String>>(value).map_err(|e| e.to_string())
}

/// Sets a field of the object that a JSON text holds, by `serde_json::from_str` and
/// `serde_json::Map::insert`, and writes the object as JSON text.
#[verifier::external_body]
pub(crate) fn insert_field(text: &str, key: &str, value: &str) -> (out: Option<String>)
    ensures
        match out {
            Some(t) => json_with_field(text@, key@, value@) == Some(t@),
            None => json_with_field(text@, key@, value@) is None,
        },
{
    let mut object: serde_json::Value = serde_json::from_str(text).ok()?;
    let field: serde_json::Value = serde_json::from_str(value).ok()?;
    object.as_object_mut()?.insert(key.to_string(), field);
    Some(object.to_string())
}

/// The contents of a text, if there is one.
pub open spec fn text_of(t: Option<String>) -> Option<Seq<char>> {
    match t {
        Some(s) => Some(s@),
        None => None,
    }
}

/// The JSON text of a field of a field.
pub open spec fn nested_text(text: Seq<char>, outer: Seq<char>, inner: Seq<char>) -> Option<
    Seq<char>,
> {
    match json_field_text(text, outer) {
        Some(field) => json_field_text(field, inner),
        None => None,
    }
}

/// Reads a field of a field, as JSON text.
pub fn read_nested(text: &str, outer: &str, inner: &str) -> (field: Option<String>)
    ensures
        text_of(field) == nested_text(text@, outer@, inner@),
{
    match read_field(text, outer) {
        Some(f) => read_field(f.as_str(), inner),
        None => None,
    }
}

/// Reads the string that a field holds.
pub fn read_string_field(text: &str, key: &str) -> (string: Option<String>)
    ensures
        text_of(string) == string_field(text@, key@),
{
    match read_field(text, key) {
        Some(field) => read_string(field.as_str()),
        None => None,
    }
}

/// The string that a JSON text holds, if there is such a text.
pub open spec fn string_in(text: Option<Seq<char>>) -> Option<Seq<char>> {
    match text {
        Some(t) => json_string_text(t),
        None => None,
    }
}

/// Reads the string that a JSON text holds, if there is such a text.
pub fn string_of(text: Option<String>) -> (string: Option<String>)
    ensures
        text_of(string) == string_in(text_of(text)),
{
    match text {
        Some(t) => read_string(t.as_str()),
        None => None,
    }
}

/// The number that a JSON text holds, if there is such a text.
pub open spec fn number_in(text: Option<Seq<char>>) -> Option<u64> {
    match text {
        Some(t) => json_number_value(t),
        None => None,
    }
}

/// Reads the number that a JSON text holds, if there is such a text.
pub fn number_of(text: Option<String>) -> (number: Option<u64>)
    ensures
        number == number_in(text_of(text)),
{
    match text {
        Some(t) => read_number(t.as_str()),
        None => None,
    }
}

/// The items of the array that a JSON text holds, if there is such a text and array.
pub open spec fn items_in(text: Option<Seq<char>>) -> Seq<Seq<char>> {
    match text {
        Some(t) => match json_item_texts(t) {
            Some(list) => list,
            None => Seq::empty(),
        },
        None => Seq::empty(),
    }
}

/// Reads the items of the array that a JSON text holds, if there is such a text and array.
pub fn items_of(text: Option<String>) -> (items: Vec<String>)
    ensures
        texts(items@) == items_in(text_of(text)),
{
    let found: Option<Vec<String>> = match text {
        Some(t) => read_items(t.as_str()),
        None => None,
    };
    match found {
        Some(list) => list,
        None => {
            let none: Vec<String> = Vec::new();
            assert(texts(none@) =~= Seq::<Seq<char>>::empty());
            none
        },
    }
}

/// The strings among the first `n` JSON texts of a list.
pub open spec fn strings_among(list: Seq<Seq<char>>, n: int) -> Seq<Seq<char>>
    decreases n,
{
    if n <= 0 {
        Seq::empty()
    } else {
        match json_string_text(list[n - 1]) {
            Some(s) => strings_among(list, n - 1).push(s),
            None => strings_among(list, n - 1),
        }
    }
}

/// Reads the strings of a list of JSON texts; what holds none is left out.
pub fn strings_of(list: &Vec<String>) -> (strings: Vec<String>)
    ensures
        texts(strings@) == strings_among(texts(list@), list@.len() as int),
{
    let mut out: Vec<String> = Vec::new();
    assert(texts(out@) =~= Seq::<Seq<char>>::empty());
    for i in 0..list.len()
        invariant
            texts(out@) == strings_among(texts(list@), i as int),
    {
        let ghost done = out@;
        assert(texts(list@)[i as int] == list@[i as int]@);
        if let Some(s) = read_string(list[i].as_str()) {
            out.push(s);
            assert(texts(out@) =~= texts(done).push(s@));
        }
    }
    out
}

} // verus!
