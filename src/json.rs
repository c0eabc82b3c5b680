//! The JSON documents the gateway reads: request and response bodies,
//! token claims, credential files and token-endpoint answers. Documents are
//! read with `serde_json`, by JSON pointer, as bytes in and values out.

use vstd::prelude::*;
use vstd::string::*;
use crate::headers::hview;
use crate::text::opt_chars;

verus! {

/// The string that `serde_json` finds at JSON pointer `ptr` of the
/// document `doc`, if `doc` parses and holds a string there.
pub uninterp spec fn json_str_at(doc: Seq<u8>, ptr: Seq<char>) -> Option<Seq<char>>;

/// The integer that `serde_json` finds at JSON pointer `ptr` of the
/// document `doc`, if `doc` parses and holds one there that fits in `i64`.
pub uninterp spec fn json_i64_at(doc: Seq<u8>, ptr: Seq<char>) -> Option<i64>;

/// Whether `serde_json` finds any value at JSON pointer `ptr` of the
/// document `doc`.
pub uninterp spec fn json_has_at(doc: Seq<u8>, ptr: Seq<char>) -> bool;

/// Relies on `serde_json::from_slice` into a `Value`, then `Value::pointer`:
/// whether a value is there. Empty input is not a document.
#[verifier::external_body]
pub(crate) fn has_at(doc: &[u8], ptr: &str) -> (r: bool)
    ensures
        r == json_has_at(doc@, ptr@),
        doc@.len() == 0 ==> !r,
{
    match serde_json::from_slice::<serde_json::Value>(doc) {
        Ok(v) => v.pointer(ptr).is_some(),
        Err(_) => false,
    }
}

/// Relies on `serde_json::from_slice` into a `Value`, then `Value::pointer`
/// and `Value::as_str`: the string at `ptr`. Empty input is not a document.
#[verifier::external_body]
pub(crate) fn str_at(doc: &[u8], ptr: &str) -> (r: Option<String>)
    ensures
        opt_chars(r) == json_str_at(doc@, ptr@),
        doc@.len() == 0 ==> r is None,
{
    let v = serde_json::from_slice::<serde_json::Value>(doc).ok()?;
    v.pointer(ptr)?.as_str().map(|s| s.to_string())
}

/// Relies on `serde_json::from_slice` into a `Value`, then `Value::pointer`
/// and `Value::as_i64`: the integer at `ptr`. Empty input is not a document.
#[verifier::external_body]
pub(crate) fn i64_at(doc: &[u8], ptr: &str) -> (r: Option<i64>)
    ensures
        r == json_i64_at(doc@, ptr@),
        doc@.len() == 0 ==> r is None,
{
    let v = serde_json::from_slice::<serde_json::Value>(doc).ok()?;
    v.pointer(ptr)?.as_i64()
}

/// The JSON text of a list of (name, value) pairs, each an array of two strings.
pub uninterp spec fn pairs_json_of(pairs: Seq<(Seq<char>, Seq<char>)>) -> Seq<char>;

/// Relies on `serde_json::to_string` on a list of string pairs, which
/// cannot fail for strings.
#[verifier::external_body]
fn pairs_to_json(pairs: &Vec<(String, String)>) -> (r: Option<String>)
    ensures
        r is Some,
        r matches Some(s) ==> s@ == pairs_json_of(hview(pairs@)),
{
    serde_json::to_string(pairs).ok()
}

/// A header list as JSON text for the log.
pub fn headers_to_json_string(headers: Vec<(String, String)>) -> (r: Option<String>)
    ensures
        r matches Some(s) && s@ == pairs_json_of(hview(headers@)),
{
    pairs_to_json(&headers)
}

/// The `model` named by a request body.
pub fn extract_model(body: &[u8]) -> (r: Option<String>)
    ensures
        opt_chars(r) == json_str_at(body@, "/model"@),
        body@.len() == 0 ==> r is None,
{
    str_at(body, "/model")
}

/// The `usage.input_tokens` and `usage.output_tokens` of a response body.
pub fn extract_usage(body: &[u8]) -> (r: (Option<i64>, Option<i64>))
    ensures
        r == (json_i64_at(body@, "/usage/input_tokens"@), json_i64_at(body@, "/usage/output_tokens"@)),
        body@.len() == 0 ==> r.0 is None && r.1 is None,
{
    (i64_at(body, "/usage/input_tokens"), i64_at(body, "/usage/output_tokens"))
}

} // verus!
