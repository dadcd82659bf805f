//! Trusted bindings to the outside crates: the JSON values of `serde_json`
//! and the table engine of `polars`. Verus believes the contracts stated
//! here; the bodies only make the outside calls.
//!
//! Each call below is deterministic in its arguments, so its result is given
//! a name (an uninterpreted spec function) and the contract ties the call's
//! outcome to that name. Nothing else is assumed of the names; the library's
//! own functions say exactly how they combine them.

use vstd::prelude::*;
use polars::prelude::SerReader;

verus! {

#[verifier::external_type_specification]
#[verifier::external_body]
pub struct ExJsonValue(serde_json::Value);

#[verifier::external_type_specification]
#[verifier::external_body]
pub struct ExJsonError(serde_json::Error);

#[verifier::external_type_specification]
#[verifier::external_body]
pub struct ExPolarsError(polars::prelude::PolarsError);

#[verifier::external_type_specification]
#[verifier::external_body]
pub struct ExDataFrame(polars::prelude::DataFrame);

// polars implements range indexing on `DataFrame` with `Column` results, so
// declaring `DataFrame` makes Verus read that impl: `Column` must be declared
// too, although no signature of this library names it.
#[verifier::external_type_specification]
#[verifier::external_body]
pub struct ExColumn(polars::prelude::Column);

/// What `serde_json::from_str` yields for a text: the parsed document, or
/// nothing when the text is not valid JSON.
pub uninterp spec fn parsed_json_of(s: Seq<char>) -> Option<serde_json::Value>;

/// What `serde_json::Value::get` yields with a string key: the member of an
/// object under that key, nothing on any other shape or a missing key.
pub uninterp spec fn json_member_of(v: serde_json::Value, key: Seq<char>) -> Option<
    serde_json::Value,
>;

/// What `serde_json::Value::as_array` yields: the elements of a JSON array,
/// nothing for any other shape.
pub uninterp spec fn json_elements_of(v: serde_json::Value) -> Option<Seq<serde_json::Value>>;

/// What `serde_json::Value::as_str` yields: the content of a JSON string,
/// nothing for any other shape.
pub uninterp spec fn json_str_of(v: serde_json::Value) -> Option<Seq<char>>;

/// What `serde_json::Value::as_i64` yields: the value of an integer-typed
/// JSON number representable as an `i64`, nothing otherwise.
pub uninterp spec fn json_i64_of(v: serde_json::Value) -> Option<i64>;

/// What `serde_json::to_string` yields for a JSON value: its JSON text.
pub uninterp spec fn json_text_of(v: serde_json::Value) -> Seq<char>;

/// Relies on `serde_json::from_str`: parses the text as a JSON document,
/// deterministically in the text alone; malformed (or over-deep) input is an
/// `Err` carrying the parser's own error, never a panic.
#[verifier::external_body]
pub(crate) fn parse_json(text: &str) -> (r: Result<serde_json::Value, serde_json::Error>)
    ensures
        r matches Ok(v) ==> parsed_json_of(text@) == Some(v),
        r is Err <==> parsed_json_of(text@) is None,
{
    serde_json::from_str(text)
}

/// Relies on `serde_json::Value::get` with a string index: the member of an
/// object under that key, `None` on any other shape or a missing key,
/// deterministically in the value and key alone.
#[verifier::external_body]
pub(crate) fn json_get<'a>(v: &'a serde_json::Value, key: &str) -> (r: Option<
    &'a serde_json::Value,
>)
    ensures
        r matches Some(m) ==> json_member_of(*v, key@) == Some(*m),
        r is None <==> json_member_of(*v, key@) is None,
{
    v.get(key)
}

/// Relies on `serde_json::Value::as_array`: the elements when the value is a
/// JSON array, `None` otherwise, deterministically in the value alone.
#[verifier::external_body]
pub(crate) fn json_as_array<'a>(v: &'a serde_json::Value) -> (r: Option<&'a Vec<serde_json::Value>>)
    ensures
        r matches Some(a) ==> json_elements_of(*v) == Some(a@),
        r is None <==> json_elements_of(*v) is None,
{
    v.as_array()
}

/// Relies on `serde_json::Value::as_str`: the content when the value is a
/// JSON string, `None` otherwise, deterministically in the value alone.
#[verifier::external_body]
pub(crate) fn json_as_str<'a>(v: &'a serde_json::Value) -> (r: Option<&'a str>)
    ensures
        r matches Some(s) ==> json_str_of(*v) == Some(s@),
        r is None <==> json_str_of(*v) is None,
{
    v.as_str()
}

/// Relies on `serde_json::Value::as_i64`: the value when it is a JSON number
/// representable as an `i64`, `None` otherwise, deterministically in the
/// value alone.
#[verifier::external_body]
pub(crate) fn json_as_i64(v: &serde_json::Value) -> (r: Option<i64>)
    ensures
        r == json_i64_of(*v),
{
    v.as_i64()
}

/// Relies on `serde_json::Value::clone` (a derived `Clone`): the copy equals
/// the original value.
#[verifier::external_body]
pub(crate) fn json_clone(v: &serde_json::Value) -> (r: serde_json::Value)
    ensures
        r == *v,
{
    v.clone()
}

/// Relies on `serde_json::to_string`: the JSON text of the value,
/// deterministically in the value alone. For a `Value` the keys are strings
/// and the numbers finite, so serialization succeeds; the `Result` shape is
/// the serializer's own.
#[verifier::external_body]
pub(crate) fn value_to_string(v: &serde_json::Value) -> (r: Result<String, serde_json::Error>)
    ensures
        r is Ok,
        r matches Ok(t) ==> t@ == json_text_of(*v),
{
    serde_json::to_string(v)
}

/// Relies on `polars`' `JsonReader` (through `SerReader::finish`): reads an
/// in-memory JSON array of objects and infers a typed table from the
/// observed values. `Cursor::new` only adapts the string for it; a failure
/// carries the engine's own error. Nothing is stated of the outcome: the
/// engine's schema inference walks parsed objects whose member order can
/// vary between processes once they grow past a small size, so the result
/// is not a function of the text alone; callers state what holds of every
/// outcome.
#[verifier::external_body]
pub(crate) fn materialize_df(rows_json: String) -> Result<
    polars::prelude::DataFrame,
    polars::prelude::PolarsError,
> {
    polars::prelude::JsonReader::new(std::io::Cursor::new(rows_json)).finish()
}

} // verus!
