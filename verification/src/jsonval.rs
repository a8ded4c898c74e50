//! Trusted boundary to serde_json: parsing payload text into a JSON document
//! and reading its top-level string fields.
//!
//! The parser's contracts speak of two named results. `json_doc_fields` names
//! what `serde_json::from_str` makes of a text: nothing when the text is not a
//! JSON document, else the document's top-level fields that hold strings.
//! `json_value_fields` names those same fields as read off a parsed value.

use vstd::prelude::*;

verus! {

#[verifier::external_type_specification]
#[verifier::external_body]
pub struct ExJsonValue(serde_json::Value);

/// The top-level string-valued fields of the JSON document written in `s`,
/// or nothing when `s` is not a JSON document. A document that is not an
/// object has no such fields.
pub uninterp spec fn json_doc_fields(s: Seq<char>) -> Option<Map<Seq<char>, Seq<char>>>;

/// The top-level string-valued fields of a parsed JSON value.
pub uninterp spec fn json_value_fields(v: serde_json::Value) -> Map<Seq<char>, Seq<char>>;

/// Relies on serde_json::from_str::<serde_json::Value>: the outcome is a
/// function of the text alone; it returns Ok exactly when the text is one
/// JSON document, and Err carries the parser's diagnostic.
#[verifier::external_body]
pub(crate) fn json_parse(s: &str) -> (r: Result<serde_json::Value, String>)
    ensures
        (r is Ok) == (json_doc_fields(s@) is Some),
        r matches Ok(v) ==> Some(json_value_fields(v)) == json_doc_fields(s@),
{
    serde_json::from_str::<serde_json::Value>(s).map_err(|e| e.to_string())
}

/// Relies on serde_json::Value::get and Value::as_str: `get` finds the value
/// of a top-level field of an object (and nothing on any other document), and
/// `as_str` hands back exactly the string values.
#[verifier::external_body]
pub(crate) fn json_get_string(v: &serde_json::Value, key: &str) -> (r: Option<String>)
    ensures
        (r is Some) == json_value_fields(*v).contains_key(key@),
        r matches Some(s) ==> s@ == json_value_fields(*v)[key@],
{
    v.get(key).and_then(|f| f.as_str()).map(|s| s.to_string())
}

} // verus!
