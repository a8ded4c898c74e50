//! Trusted boundary to the toml crate: parsing configuration text into a
//! TOML document and reading its top-level string fields.
//!
//! `toml_doc_fields` names what `toml::from_str` makes of a text: nothing
//! when the text is not a TOML document, else the document's top-level
//! fields that hold strings. `toml_value_fields` names those same fields as
//! read off a parsed value.

use vstd::prelude::*;

verus! {

#[verifier::external_type_specification]
#[verifier::external_body]
pub struct ExTomlValue(toml::Value);

/// The top-level string-valued fields of the TOML document written in `s`,
/// or nothing when `s` is not a TOML document.
pub uninterp spec fn toml_doc_fields(s: Seq<char>) -> Option<Map<Seq<char>, Seq<char>>>;

/// The top-level string-valued fields of a parsed TOML value.
pub uninterp spec fn toml_value_fields(v: toml::Value) -> Map<Seq<char>, Seq<char>>;

/// Relies on toml::from_str::<toml::Value>: the outcome is a function of the
/// text alone; it returns Ok exactly when the text is a TOML document, and
/// Err carries the parser's diagnostic.
#[verifier::external_body]
pub(crate) fn toml_parse(s: &str) -> (r: Result<toml::Value, String>)
    ensures
        (r is Ok) == (toml_doc_fields(s@) is Some),
        r matches Ok(v) ==> Some(toml_value_fields(v)) == toml_doc_fields(s@),
{
    toml::from_str::<toml::Value>(s).map_err(|e| e.to_string())
}

/// Relies on toml::Value::get and Value::as_str: `get` finds the value of a
/// top-level field of a table (and nothing on any other document), and
/// `as_str` hands back exactly the string values.
#[verifier::external_body]
pub(crate) fn toml_get_string(v: &toml::Value, key: &str) -> (r: Option<String>)
    ensures
        (r is Some) == toml_value_fields(*v).contains_key(key@),
        r matches Some(s) ==> s@ == toml_value_fields(*v)[key@],
{
    v.get(key).and_then(|f| f.as_str()).map(|s| s.to_string())
}

} // verus!
