//! The trusted boundary around serde_json, and the diagnostic stream. A
//! `serde_json::Value` is opaque to the verifier; each accessor's result is
//! named by an uninterpreted function of the value alone, so the verified
//! code can state exactly how its decisions follow from what the document
//! holds, without claiming what any particular document holds.

use std::io::Write;
use vstd::prelude::*;

verus! {

#[verifier::external_type_specification]
#[verifier::external_body]
pub struct ExValue(serde_json::Value);

/// What parsing a text as JSON yields: the document, or the parser's
/// message. A function of the text alone.
pub uninterp spec fn json_doc(s: Seq<char>) -> Result<serde_json::Value, Seq<char>>;

/// The text parses as one JSON document.
pub open spec fn json_parses(s: Seq<char>) -> bool {
    json_doc(s) is Ok
}

/// The member of a JSON object under a key; nothing for other values or an
/// absent key.
pub uninterp spec fn json_member(v: serde_json::Value, key: Seq<char>) -> Option<
    serde_json::Value,
>;

/// The element of a JSON array at an index; nothing for other values or an
/// index out of bounds.
pub uninterp spec fn json_element(v: serde_json::Value, i: int) -> Option<serde_json::Value>;

/// The content of a JSON string; nothing for other values.
pub uninterp spec fn json_str_of(v: serde_json::Value) -> Option<Seq<char>>;

/// The value of a JSON number that is a non-negative integer fitting u64;
/// nothing otherwise.
pub uninterp spec fn json_u64_of(v: serde_json::Value) -> Option<u64>;

/// The value of a JSON boolean; nothing for other values.
pub uninterp spec fn json_bool_of(v: serde_json::Value) -> Option<bool>;

/// The value is the JSON null.
pub uninterp spec fn json_is_null_of(v: serde_json::Value) -> bool;

/// The value is a JSON object.
pub uninterp spec fn json_is_object_of(v: serde_json::Value) -> bool;

/// Relies on serde_json::from_str: parses one JSON document, or reports
/// the parser's message; the outcome is [`json_doc`] of the text.
#[verifier::external_body]
pub(crate) fn json_parse(s: &str) -> (r: Result<serde_json::Value, String>)
    ensures
        (match r {
            Ok(v) => json_doc(s@) == Ok::<serde_json::Value, Seq<char>>(v),
            Err(e) => json_doc(s@) == Err::<serde_json::Value, Seq<char>>(e@),
        }),
{
    serde_json::from_str(s).map_err(|e| e.to_string())
}

/// Relies on serde_json::Value::get with a string key: [`json_member`].
#[verifier::external_body]
pub(crate) fn json_get<'a>(v: &'a serde_json::Value, key: &str) -> (r: Option<
    &'a serde_json::Value,
>)
    ensures
        (match r {
            Some(x) => json_member(*v, key@) == Some(*x),
            None => json_member(*v, key@) is None,
        }),
{
    v.get(key)
}

/// Relies on serde_json::Value::get with an index: [`json_element`].
#[verifier::external_body]
pub(crate) fn json_index<'a>(v: &'a serde_json::Value, i: usize) -> (r: Option<
    &'a serde_json::Value,
>)
    ensures
        (match r {
            Some(x) => json_element(*v, i as int) == Some(*x),
            None => json_element(*v, i as int) is None,
        }),
{
    v.get(i)
}

/// Relies on serde_json::Value::as_str: [`json_str_of`].
#[verifier::external_body]
pub(crate) fn json_as_str(v: &serde_json::Value) -> (r: Option<String>)
    ensures
        (match r {
            Some(s) => json_str_of(*v) == Some(s@),
            None => json_str_of(*v) is None,
        }),
{
    v.as_str().map(|s| s.to_string())
}

/// Relies on serde_json::Value::as_u64: [`json_u64_of`].
#[verifier::external_body]
pub(crate) fn json_as_u64(v: &serde_json::Value) -> (r: Option<u64>)
    ensures
        r == json_u64_of(*v),
{
    v.as_u64()
}

/// Relies on serde_json::Value::as_bool: [`json_bool_of`].
#[verifier::external_body]
pub(crate) fn json_as_bool(v: &serde_json::Value) -> (r: Option<bool>)
    ensures
        r == json_bool_of(*v),
{
    v.as_bool()
}

/// Relies on serde_json::Value::is_null: [`json_is_null_of`].
#[verifier::external_body]
pub(crate) fn json_is_null(v: &serde_json::Value) -> (r: bool)
    ensures
        r == json_is_null_of(*v),
{
    v.is_null()
}

/// Relies on serde_json::Value::is_object: [`json_is_object_of`].
#[verifier::external_body]
pub(crate) fn json_is_object(v: &serde_json::Value) -> (r: bool)
    ensures
        r == json_is_object_of(*v),
{
    v.is_object()
}

/// Relies on serde_json::Value's derived Clone: the copy equals the value.
#[verifier::external_body]
pub(crate) fn json_clone(v: &serde_json::Value) -> (r: serde_json::Value)
    ensures
        r == *v,
{
    v.clone()
}

/// Relies on serde_json::Value::Null: the null JSON value, which is null,
/// and whose member lookups all come back empty (`get` answers only on
/// objects).
#[verifier::external_body]
pub(crate) fn json_null() -> (r: serde_json::Value)
    ensures
        json_is_null_of(r),
        forall|k: Seq<char>| #[trigger] json_member(r, k) is None,
{
    serde_json::Value::Null
}

/// The string member of a JSON object under a key, when both steps answer.
pub open spec fn raw_str_field(v: serde_json::Value, key: Seq<char>) -> Option<Seq<char>> {
    match json_member(v, key) {
        Some(x) => json_str_of(x),
        None => None,
    }
}

/// The u64 member of a JSON object under a key, when both steps answer.
pub open spec fn raw_u64_field(v: serde_json::Value, key: Seq<char>) -> Option<u64> {
    match json_member(v, key) {
        Some(x) => json_u64_of(x),
        None => None,
    }
}

/// The boolean member of a JSON object under a key, when both steps answer.
pub open spec fn raw_bool_field(v: serde_json::Value, key: Seq<char>) -> Option<bool> {
    match json_member(v, key) {
        Some(x) => json_bool_of(x),
        None => None,
    }
}

/// Relies on std::io::Stderr and the writeln macro: prints one diagnostic
/// line to the standard error stream.
#[verifier::external_body]
pub(crate) fn emit_diagnostic(line: &str) {
    let _ = writeln!(std::io::stderr(), "{}", line);
}

} // verus!
