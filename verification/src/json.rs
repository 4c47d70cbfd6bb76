//! JSON text, as `serde_json` reads and writes it.

use vstd::prelude::*;
use crate::text::text_of;

verus! {

/// The JSON string literal for a text, quotes included: what
/// `serde_json::to_string` writes for a string.
pub uninterp spec fn json_string(text: Seq<char>) -> Seq<char>;

/// The canonical text of the JSON value that the bytes hold, or nothing where
/// they are not one well-formed JSON value: what `serde_json::from_slice`
/// reads as a `Value` and `Value::to_string` writes again.
pub uninterp spec fn json_canonical(body: Seq<u8>) -> Option<Seq<char>>;

/// Writes a text as a JSON string literal.
///
/// Assumed of `serde_json::to_string` on a `str`: it gives `json_string` of the
/// text. It writes into a buffer in memory, where writing does not fail.
#[verifier::external_body]
pub(crate) fn quote(text: &str) -> (r: String)
    ensures
        r@ == json_string(text@),
{
    serde_json::to_string(text).unwrap_or_default()
}

/// Reads bytes as a JSON value and writes the value again.
///
/// Assumed of `serde_json::from_slice` for a `Value` and of `Value::to_string`:
/// where the first succeeds, the second gives `json_canonical` of the bytes;
/// where it fails, `json_canonical` of the bytes is nothing.
#[verifier::external_body]
pub(crate) fn canonical(body: &[u8]) -> (r: Option<String>)
    ensures
        text_of(r) == json_canonical(body@),
{
    serde_json::from_slice::<serde_json::Value>(body).ok().map(|value| value.to_string())
}

} // verus!
