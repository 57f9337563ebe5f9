//! Reading JSON text as a document tree.

use crate::document::{Doc, DocumentNode, Mapping, Scalar};
use serde_json::Value;
use vstd::prelude::*;

verus! {

/// `serde_json::Value`, the tree that `serde_json` reads. Nothing is said of
/// what it holds.
#[verifier::external_type_specification]
#[verifier::external_body]
pub struct ExJsonValue(serde_json::Value);

/// What `serde_json::from_str` makes of a text: the tree that it reads, or
/// `Err` with its words where it refuses the text.
pub uninterp spec fn json_parsed(text: Seq<char>) -> Result<Doc, Seq<char>>;

/// What a parse handed back, as a mathematical value.
pub open spec fn json_view(parsed: Result<DocumentNode, String>) -> Result<Doc, Seq<char>> {
    match parsed {
        Ok(node) => Ok(node@),
        Err(words) => Err(words@),
    }
}

/// Turns a value of `serde_json` into a node, variant by variant: an integer
/// that `as_i64` gives stays an integer, any other number becomes the text
/// that `serde_json` displays for it; an object becomes a mapping with the
/// entries in the order in which the object hands them out, filled entry by
/// entry with `Mapping::insert`. An object of `serde_json` holds no key twice,
/// so each of its entries becomes one of the node's.
#[verifier::external_body]
fn node_from_json(value: &Value) -> (node: DocumentNode) {
    match value {
        Value::Null => DocumentNode::Scalar(Scalar::Null),
        Value::Bool(flag) => DocumentNode::Scalar(Scalar::Bool(*flag)),
        Value::Number(n) => DocumentNode::Scalar(
            n.as_i64().map_or_else(|| Scalar::Number(n.to_string()), Scalar::Integer)),
        Value::String(text) => DocumentNode::Scalar(Scalar::Text(text.clone())),
        Value::Array(items) => DocumentNode::Sequence(items.iter().map(node_from_json).collect()),
        Value::Object(fields) => DocumentNode::Mapping(fields.iter().fold(
            Mapping::new(),
            |mut kept, (key, below)| {
                kept.insert(key.clone(), node_from_json(below));
                kept
            },
        )),
    }
}

/// Calls `serde_json::from_str` for a `serde_json::Value`. The result is the
/// function's own, turned into a node by `node_from_json`; an error is handed
/// on as the text that it displays.
#[verifier::external_body]
pub(crate) fn json_parse(text: &str) -> (parsed: Result<DocumentNode, String>)
    ensures
        json_view(parsed) == json_parsed(text@),
{
    match serde_json::from_str::<Value>(text) {
        Ok(value) => Ok(node_from_json(&value)),
        Err(error) => Err(error.to_string()),
    }
}

} // verus!
