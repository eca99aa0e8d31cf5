//! JSON text for the few shapes that the engine writes.

use vstd::prelude::*;
use vstd::string::*;

verus! {

/// The JSON string literal for `text`, quotes and escapes included, as
/// `serde_json::to_string` writes it; `None` where that function reports an error.
pub uninterp spec fn json_string_text(text: Seq<char>) -> Option<Seq<char>>;

/// An owned text that may be absent, as a character sequence.
pub open spec fn optional_view(text: Option<String>) -> Option<Seq<char>> {
    match text {
        Some(t) => Some(t@),
        None => None,
    }
}

/// The JSON text for a text that may be absent: `null` for an absent one.
pub open spec fn optional_json_text(text: Option<String>) -> Option<Seq<char>> {
    match text {
        Some(t) => json_string_text(t@),
        None => Some("null"@),
    }
}

/// Calls `serde_json::to_string` on a string slice; the result is named
/// [`json_string_text`].
#[verifier::external_body]
pub(crate) fn json_string(text: &str) -> (encoded: Option<String>)
    ensures
        optional_view(encoded) == json_string_text(text@),
{
    serde_json::to_string(text).ok()
}

/// Writes a text that may be absent as JSON: a string literal, or `null`.
pub fn optional_json(text: &Option<String>) -> (encoded: Option<String>)
    ensures
        optional_view(encoded) == optional_json_text(*text),
{
    match text {
        Some(t) => json_string(t.as_str()),
        None => Some(String::from_str("null")),
    }
}

} // verus!
