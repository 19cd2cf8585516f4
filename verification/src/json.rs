//! The boundary to the document syntax: configuration text is parsed by
//! an outside library, and the parsed tree is carried over into the
//! crate's own document type.

use crate::document::Doc;
use vstd::prelude::*;

verus! {

/// Relies on serde_json::Value, the outside library's parsed document
/// tree, declared here so that the conversion below may take it.
#[verifier::external_type_specification]
#[verifier::external_body]
pub struct ExValue(serde_json::Value);

/// The document tree that a piece of configuration text denotes, or
/// nothing when the text is not well-formed. Parsing is a function of the
/// text alone.
pub uninterp spec fn json_doc_of(s: Seq<char>) -> Option<Doc>;

/// Relies on serde_json's Value: reads one node of a parsed document
/// tree into the crate's own document type, variant by variant. Numbers
/// outside the signed 64-bit integer range carry nothing the
/// configuration model reads and become the absent value.
#[verifier::external_body]
fn doc_of_value(v: &serde_json::Value) -> Doc {
    match v {
        serde_json::Value::Null => Doc::Null,
        serde_json::Value::Bool(b) => Doc::Flag(*b),
        serde_json::Value::Number(n) => match n.as_i64() {
            Some(i) => Doc::Int(i),
            None => Doc::Null,
        },
        serde_json::Value::String(s) => Doc::Text(s.clone()),
        serde_json::Value::Array(a) => Doc::List(a.iter().map(doc_of_value).collect()),
        serde_json::Value::Object(m) => Doc::Table(
            m.iter().map(|(k, x)| (k.clone(), doc_of_value(x))).collect(),
        ),
    }
}

/// Relies on serde_json::from_str: parses configuration text into a
/// document tree, deterministically in the text; ill-formed text is
/// reported as nothing.
#[verifier::external_body]
pub fn parse_json_text(source: &str) -> (r: Option<Doc>)
    ensures
        r == json_doc_of(source@),
{
    match serde_json::from_str::<serde_json::Value>(source) {
        Ok(v) => Some(doc_of_value(&v)),
        Err(_) => None,
    }
}

} // verus!
