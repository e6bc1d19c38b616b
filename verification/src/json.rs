//! The JSON and digest facts the library takes from `serde_json` and
//! `sha2`.

use sha2::Digest;
use vstd::prelude::*;

verus! {

/// Whether `serde_json` parses `text` as a JSON value.
pub uninterp spec fn json_parses(text: Seq<char>) -> bool;

/// Whether `text` is a JSON document.
///
/// Calls `serde_json::from_str::<serde_json::Value>` and reports whether
/// it succeeded. The contract names the outcome and says nothing more of
/// which texts parse.
#[verifier::external_body]
pub(crate) fn is_json(text: &str) -> (r: bool)
    ensures
        r == json_parses(text@),
{
    serde_json::from_str::<serde_json::Value>(text).is_ok()
}

/// The SHA-256 digest of a byte run.
pub uninterp spec fn sha256_of(data: Seq<u8>) -> Seq<u8>;

/// SHA-256 of `data`.
///
/// Calls `sha2::Sha256::digest`. The contract names the digest and states
/// its documented length of 32 bytes.
#[verifier::external_body]
pub(crate) fn sha256(data: &[u8]) -> (r: Vec<u8>)
    ensures
        r@ == sha256_of(data@),
        r@.len() == 32,
{
    sha2::Sha256::digest(data).to_vec()
}

/// The kind of value a JSON document holds at its top level, or that it
/// is no JSON at all.
#[derive(Debug, Clone, Copy, PartialEq, Eq, Structural)]
pub enum JsonShape {
    Invalid,
    Object,
    Array,
    Other,
}

/// The shape `serde_json` finds in `text`.
pub uninterp spec fn json_shape_of(text: Seq<char>) -> JsonShape;

/// The shape of the JSON document `text`.
///
/// Calls `serde_json::from_str::<serde_json::Value>` and tells the
/// variants of the value apart. The contract names the shape, and states
/// that it is `Invalid` exactly when the text does not parse (the same
/// call that `is_json` makes).
#[verifier::external_body]
pub(crate) fn json_shape(text: &str) -> (r: JsonShape)
    ensures
        r == json_shape_of(text@),
        (r == JsonShape::Invalid) <==> !json_parses(text@),
{
    match serde_json::from_str::<serde_json::Value>(text) {
        Ok(serde_json::Value::Object(_)) => JsonShape::Object,
        Ok(serde_json::Value::Array(_)) => JsonShape::Array,
        Ok(_) => JsonShape::Other,
        Err(_) => JsonShape::Invalid,
    }
}

/// What `serde_json` writes back for the document `text`, when it parses.
pub uninterp spec fn json_reserialized(text: Seq<char>) -> Option<Seq<char>>;

/// The document `text` parsed and written back by `serde_json`.
///
/// Calls `serde_json::from_str::<serde_json::Value>` and then
/// `serde_json::to_string` on the value. The contract names the written
/// text and states that there is one exactly when the text parses (a
/// parsed value always has string keys, so writing it back does not
/// fail).
#[verifier::external_body]
pub(crate) fn reserialize_json(text: &str) -> (r: Option<String>)
    ensures
        r is Some <==> json_parses(text@),
        match r {
            Some(s) => json_reserialized(text@) == Some(s@),
            None => json_reserialized(text@) is None,
        },
{
    match serde_json::from_str::<serde_json::Value>(text) {
        Ok(value) => serde_json::to_string(&value).ok(),
        Err(_) => None,
    }
}

} // verus!
