//! How the raw settings file is shown: re-indented when it is JSON.
use vstd::prelude::*;

verus! {

#[verifier::external_type_specification]
#[verifier::external_body]
pub struct ExValue(serde_json::Value);

/// Name for whether `serde_json::from_str` reads a text as a JSON value.
pub uninterp spec fn is_json(s: Seq<char>) -> bool;

/// Relies on `serde_json::from_str::<serde_json::Value>`: whether a text is
/// JSON depends on the text alone.
#[verifier::external_body]
fn parse_json(content: &str) -> (r: Option<serde_json::Value>)
    ensures
        r is Some <==> is_json(content@),
{
    serde_json::from_str::<serde_json::Value>(content).ok()
}

/// Relies on `serde_json::to_string_pretty`: the value indented for reading.
#[verifier::external_body]
fn pretty_json(v: &serde_json::Value) -> (r: Option<String>) {
    serde_json::to_string_pretty(v).ok()
}

/// The settings file's content as shown to the user: pretty-printed when it
/// is JSON, and as it stands otherwise.
pub fn format_settings(content: String) -> (r: String)
    ensures
        !is_json(content@) ==> r == content,
{
    match parse_json(content.as_str()) {
        Some(v) => match pretty_json(&v) {
            Some(pretty) => pretty,
            None => content,
        },
        None => content,
    }
}

} // verus!
