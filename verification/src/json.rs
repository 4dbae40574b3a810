//! Looking into JSON and TOML documents.
//!
//! The documents are decoded by `serde_json` and `toml`. A value inside a
//! document is addressed by a JSON Pointer: reference tokens, each after a
//! `/`. What the decoders return for a document and a pointer is named by
//! the functions below; the parsers state their results over those names.

use vstd::prelude::*;
use crate::text::{append_decimal, chars_of, decimal_digits, string_of};

verus! {

/// The kinds of value a pointer can lead to. `Missing` stands for a
/// document that cannot be decoded and for a pointer that leads nowhere.
#[derive(Debug, Clone, Copy, PartialEq, Eq, Structural)]
pub enum JsonKind {
    Missing,
    Null,
    Bool,
    Number,
    Text,
    List,
    Table,
}

/// The kind of the value that `pointer` leads to in the JSON document
/// `doc`.
pub uninterp spec fn json_kind(doc: Seq<char>, pointer: Seq<char>) -> JsonKind;

/// The string that `pointer` leads to in `doc`; `None` when it leads to no
/// string.
pub uninterp spec fn json_string(doc: Seq<char>, pointer: Seq<char>) -> Option<Seq<char>>;

/// The keys of the object that `pointer` leads to in `doc`, in the order
/// in which the decoder keeps them; `None` when it leads to no object.
pub uninterp spec fn json_keys(doc: Seq<char>, pointer: Seq<char>) -> Option<Seq<Seq<char>>>;

/// The length of the array that `pointer` leads to in `doc`; `None` when
/// it leads to no array.
pub uninterp spec fn json_len(doc: Seq<char>, pointer: Seq<char>) -> Option<nat>;

/// The number that `pointer` leads to in `doc`, when it is a whole number
/// that is not negative and fits in 64 bits; `None` otherwise.
pub uninterp spec fn json_number(doc: Seq<char>, pointer: Seq<char>) -> Option<u64>;

/// The TOML document `text` written as JSON; `None` when it cannot be
/// decoded.
pub uninterp spec fn toml_json(text: Seq<char>) -> Option<Seq<char>>;

/// Finds the kind of a value in a JSON document.
///
/// Wraps `serde_json::from_str`, which decodes the text into a `Value` or
/// fails, and `Value::pointer`, which looks a value up by a JSON Pointer
/// and returns `None` when there is none. The arms tell the variants of
/// `Value` apart.
#[verifier::external_body]
pub(crate) fn json_kind_at(doc: &str, pointer: &str) -> (k: JsonKind)
    ensures
        k == json_kind(doc@, pointer@),
{
    let value = serde_json::from_str::<serde_json::Value>(doc).ok();
    let target = match &value {
        Some(v) => v.pointer(pointer),
        None => None,
    };
    match target {
        None => JsonKind::Missing,
        Some(serde_json::Value::Null) => JsonKind::Null,
        Some(serde_json::Value::Bool(_)) => JsonKind::Bool,
        Some(serde_json::Value::Number(_)) => JsonKind::Number,
        Some(serde_json::Value::String(_)) => JsonKind::Text,
        Some(serde_json::Value::Array(_)) => JsonKind::List,
        Some(serde_json::Value::Object(_)) => JsonKind::Table,
    }
}

/// Reads a string out of a JSON document.
///
/// Wraps `serde_json::from_str`, `Value::pointer` and `Value::as_str`,
/// which returns the text of a string value and `None` for any other.
#[verifier::external_body]
pub(crate) fn json_string_at(doc: &str, pointer: &str) -> (r: Option<String>)
    ensures
        r.deep_view() == json_string(doc@, pointer@),
{
    let value = serde_json::from_str::<serde_json::Value>(doc).ok()?;
    value.pointer(pointer)?.as_str().map(str::to_string)
}

/// Reads the keys of an object out of a JSON document.
///
/// Wraps `serde_json::from_str`, `Value::pointer`, `Value::as_object`,
/// which returns the map of an object value and `None` for any other, and
/// `Map::keys`, which walks the keys in the map's order.
#[verifier::external_body]
pub(crate) fn json_keys_at(doc: &str, pointer: &str) -> (r: Option<Vec<String>>)
    ensures
        r.deep_view() == json_keys(doc@, pointer@),
{
    let value = serde_json::from_str::<serde_json::Value>(doc).ok()?;
    let object = value.pointer(pointer)?.as_object()?;
    Some(object.keys().cloned().collect())
}

/// Reads the length of an array out of a JSON document.
///
/// Wraps `serde_json::from_str`, `Value::pointer` and `Value::as_array`,
/// which returns the elements of an array value and `None` for any other.
#[verifier::external_body]
pub(crate) fn json_len_at(doc: &str, pointer: &str) -> (r: Option<usize>)
    ensures
        match r {
            Some(n) => json_len(doc@, pointer@) == Some(n as nat),
            None => json_len(doc@, pointer@) is None,
        },
{
    let value = serde_json::from_str::<serde_json::Value>(doc).ok()?;
    match value.pointer(pointer)?.as_array() {
        Some(items) => Some(items.len()),
        None => None,
    }
}

/// Reads a whole number out of a JSON document.
///
/// Wraps `serde_json::from_str`, `Value::pointer` and `Value::as_u64`,
/// which represents an integer value as `u64` if possible and returns
/// `None` otherwise.
#[verifier::external_body]
pub(crate) fn json_u64_at(doc: &str, pointer: &str) -> (r: Option<u64>)
    ensures
        r == json_number(doc@, pointer@),
{
    let value = serde_json::from_str::<serde_json::Value>(doc).ok()?;
    value.pointer(pointer)?.as_u64()
}

/// Writes a TOML document as JSON.
///
/// Wraps `toml::from_str`, here decoding into a `serde_json::Value`, and
/// that value's `to_string`, which writes it as compact JSON. A document
/// that cannot be decoded gives `None`.
#[verifier::external_body]
pub(crate) fn toml_to_json(text: &str) -> (r: Option<String>)
    ensures
        r.deep_view() == toml_json(text@),
{
    match toml::from_str::<serde_json::Value>(text) {
        Ok(value) => Some(value.to_string()),
        Err(_) => None,
    }
}

/// A key written as a reference token of a pointer: `~` becomes `~0` and
/// `/` becomes `~1`.
pub open spec fn escaped(key: Seq<char>) -> Seq<char>
    decreases key.len(),
{
    if key.len() == 0 {
        Seq::empty()
    } else {
        let rest = escaped(key.drop_last());
        let c = key.last();
        if c == '~' {
            rest + seq!['~', '0']
        } else if c == '/' {
            rest + seq!['~', '1']
        } else {
            rest.push(c)
        }
    }
}

/// The pointer to the member `key` of the object that `base` leads to.
pub open spec fn member(base: Seq<char>, key: Seq<char>) -> Seq<char> {
    base + seq!['/'] + escaped(key)
}

/// The pointer to the element `index` of the array that `base` leads to.
pub open spec fn element(base: Seq<char>, index: nat) -> Seq<char> {
    base + seq!['/'] + decimal_digits(index)
}

/// Extends a pointer by a member's key.
pub fn member_pointer(base: &str, key: &str) -> (p: String)
    ensures
        p@ == member(base@, key@),
{
    let mut out = chars_of(base);
    out.push('/');
    let ghost head = out@;
    let k = chars_of(key);
    let mut i: usize = 0;
    while i < k.len()
        invariant
            i <= k.len(),
            k@ == key@,
            out@ == head + escaped(k@.take(i as int)),
        decreases k.len() - i,
    {
        let c = k[i];
        assert(k@.take(i + 1).drop_last() =~= k@.take(i as int));
        let ghost before = out@;
        if c == '~' {
            out.push('~');
            out.push('0');
            assert(out@ =~= before + seq!['~', '0']);
        } else if c == '/' {
            out.push('~');
            out.push('1');
            assert(out@ =~= before + seq!['~', '1']);
        } else {
            out.push(c);
        }
        assert(out@ =~= head + escaped(k@.take(i + 1)));
        i += 1;
    }
    assert(k@.take(k.len() as int) =~= k@);
    assert(out@ =~= member(base@, key@));
    string_of(out.as_slice())
}

/// Extends a pointer by an element's index.
pub fn element_pointer(base: &str, index: usize) -> (p: String)
    ensures
        p@ == element(base@, index as nat),
{
    let mut out = chars_of(base);
    out.push('/');
    append_decimal(&mut out, index as u64);
    assert(out@ =~= element(base@, index as nat));
    string_of(out.as_slice())
}

} // verus!
