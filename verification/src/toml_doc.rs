//! Access to TOML documents: parsing text, reading a table's string entries
//! and looking up a top-level key. The TOML values themselves stay opaque;
//! what the logic reads of them comes out as plain values.
use vstd::prelude::*;

verus! {

#[verifier::external_type_specification]
#[verifier::external_body]
pub struct ExTomlValue(toml::Value);

#[verifier::external_type_specification]
#[verifier::external_body]
pub struct ExTomlDeError(toml::de::Error);

/// The document that the text parses to, when it is valid TOML.
pub uninterp spec fn toml_document(text: Seq<char>) -> Option<toml::Value>;

/// The entries of a TOML table value, in the table's order: each key with
/// its value's text when that value is a string; `None` when the value is
/// not a table.
pub uninterp spec fn toml_string_entries(value: toml::Value) -> Option<Seq<(Seq<char>, Option<Seq<char>>)>>;

/// The value stored under a top-level key of a TOML table value.
pub uninterp spec fn toml_field(value: toml::Value, key: Seq<char>) -> Option<toml::Value>;

/// The views of `(key, string value)` pairs.
pub open spec fn pairs_view(es: Seq<(String, Option<String>)>) -> Seq<(Seq<char>, Option<Seq<char>>)> {
    es.map_values(
        |e: (String, Option<String>)|
            (
                e.0@,
                match e.1 {
                    Some(a) => Some(a@),
                    None => None,
                },
            ),
    )
}

/// Calls `str::parse::<toml::Value>` (toml's `Value::from_str`, which runs
/// `toml::from_str`). The result is the named document of the text: `Ok`
/// exactly when the text is valid TOML.
#[verifier::external_body]
pub(crate) fn parse_toml(text: &str) -> (r: Result<toml::Value, toml::de::Error>)
    ensures
        r is Ok <==> toml_document(text@) is Some,
        r matches Ok(v) ==> toml_document(text@) == Some(v),
{
    text.parse::<toml::Value>()
}

/// Calls `toml::de::Error`'s `Display` (`to_string`). Nothing is stated of
/// the message text.
#[verifier::external_body]
pub(crate) fn toml_error_text(e: &toml::de::Error) -> (r: String) {
    e.to_string()
}

/// Iterates a TOML table (`toml::map::Map::iter`), keeping each key and
/// its value's text when that value is a string. The result is the named
/// entries of the value.
#[verifier::external_body]
pub(crate) fn table_string_entries(value: &toml::Value) -> (r: Option<Vec<(String, Option<String>)>>)
    ensures
        match r {
            Some(es) => toml_string_entries(*value) == Some(pairs_view(es@)),
            None => toml_string_entries(*value) is None,
        },
{
    match value {
        toml::Value::Table(t) => Some(t.iter().map(|(k, v)| (k.clone(), match v {
            toml::Value::String(s) => Some(s.clone()),
            _ => None,
        })).collect()),
        _ => None,
    }
}

/// Calls `toml::Value::get` with a string key and clones what it finds.
/// The result is the named field of the value.
#[verifier::external_body]
pub(crate) fn toml_get(value: &toml::Value, key: &str) -> (r: Option<toml::Value>)
    ensures
        r == toml_field(*value, key@),
{
    value.get(key).cloned()
}

} // verus!
