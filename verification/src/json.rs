//! JSON documents as they pass from one call of an instance to the next.
//!
//! Parsing is serde_json's work. Nothing in this crate looks inside a parsed
//! document, so a document is carried as serde_json's own value.

use vstd::prelude::*;

verus! {

/// serde_json's `Value`, a parsed JSON document. The crate carries such a
/// value and never inspects it.
#[verifier::external_type_specification]
#[verifier::external_body]
pub struct ExValue(serde_json::Value);

/// serde_json's `Error`, the reason why a text was not accepted as JSON.
#[verifier::external_type_specification]
#[verifier::external_body]
pub struct ExError(serde_json::Error);

/// The response value that an instance hands forward.
#[derive(Debug, PartialEq)]
pub enum Json {
    /// The null document: what an instance starts with, what a failed call and
    /// a response without success status leave behind, and what the text
    /// `null` parses to.
    Null,
    /// Any other document.
    Document(serde_json::Value),
}

/// What `serde_json::from_slice` makes of the bytes `text` when it is asked for
/// a `serde_json::Value`: the document, or the error with which it refuses the
/// text. serde_json reads the whole text and nothing else, so the outcome is
/// determined by the bytes.
pub uninterp spec fn parsed_json(text: Seq<u8>) -> Result<Json, serde_json::Error>;

/// Parses `text` with `serde_json::from_slice`. The contract only names the
/// outcome: it is `parsed_json` of the bytes, with serde_json's `Value::Null`
/// standing as `Json::Null` and every other value as `Json::Document`.
#[verifier::external_body]
pub(crate) fn parse_json(text: &[u8]) -> (parsed: Result<Json, serde_json::Error>)
    ensures
        parsed == parsed_json(text@),
{
    match serde_json::from_slice::<serde_json::Value>(text) {
        Ok(serde_json::Value::Null) => Ok(Json::Null),
        Ok(value) => Ok(Json::Document(value)),
        Err(error) => Err(error),
    }
}

} // verus!
