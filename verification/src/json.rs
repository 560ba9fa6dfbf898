//! JSON text of strings, written and read by `serde_json`.

use vstd::prelude::*;

verus! {

/// The JSON text that `serde_json::to_string` writes for a string.
pub uninterp spec fn json_string_text(s: Seq<char>) -> Seq<char>;

/// The string that `serde_json::from_str` reads from a JSON text as a
/// `String`; `None` where it reports an error.
pub uninterp spec fn json_string_value(text: Seq<char>) -> Option<Seq<char>>;

/// `serde_json::to_string` on a `str`. Trusted: the result is the JSON text
/// of the string, and `serde_json::from_str` reads the string back from it.
/// Writing a string cannot fail: the serializer of a `str` reports no error
/// and the text goes to memory.
#[verifier::external_body]
pub(crate) fn to_json_text(s: &str) -> (r: String)
    ensures
        r@ == json_string_text(s@),
        json_string_value(r@) == Some(s@),
{
    match serde_json::to_string(s) {
        Ok(text) => text,
        Err(_) => String::new(),
    }
}

/// `serde_json::from_str` to a `String`. Trusted: the result is the string
/// that the JSON text holds, `None` where `serde_json` reports an error
/// (the text is no JSON string, or more follows it).
#[verifier::external_body]
pub(crate) fn from_json_text(text: &str) -> (r: Option<String>)
    ensures
        match r {
            Some(s) => json_string_value(text@) == Some(s@),
            None => json_string_value(text@) is None,
        },
{
    match serde_json::from_str::<String>(text) {
        Ok(s) => Some(s),
        Err(_) => None,
    }
}

} // verus!
