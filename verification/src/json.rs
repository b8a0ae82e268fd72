//! Reading single members out of a JSON document.

use vstd::prelude::*;

verus! {

/// What stands at a place in a JSON document, as far as this library reads it.
#[derive(Clone, Debug, PartialEq, Eq)]
pub enum Scalar {
    /// A string.
    Text(String),
    /// Any other value.
    Other,
}

/// A scalar with its text as a sequence of characters.
pub enum ScalarView {
    Text(Seq<char>),
    Other,
}

impl View for Scalar {
    type V = ScalarView;

    open spec fn view(&self) -> ScalarView {
        match *self {
            Scalar::Text(text) => ScalarView::Text(text@),
            Scalar::Other => ScalarView::Other,
        }
    }
}

/// What stands at `pointer` (RFC 6901) in the JSON document `document`:
/// `None` if the bytes are no JSON document or the document has no such place.
pub uninterp spec fn json_scalar(document: Seq<u8>, pointer: Seq<char>) -> Option<ScalarView>;

/// Whether `document` is a JSON document: the empty pointer stands for the
/// whole document, so something stands there exactly if the bytes are one.
pub open spec fn json_document(document: Seq<u8>) -> bool {
    json_scalar(document, ""@) is Some
}

/// The text at `pointer` in `document`, if a string stands there.
pub open spec fn json_text(document: Seq<u8>, pointer: Seq<char>) -> Option<Seq<char>> {
    match json_scalar(document, pointer) {
        Some(ScalarView::Text(text)) => Some(text),
        _ => None,
    }
}

/// `serde_json::from_slice` into a `serde_json::Value`, then `Value::pointer`;
/// a string is handed out as its text. The result is a function of the
/// arguments alone; nothing is claimed of what it is on given bytes.
#[verifier::external_body]
fn json_scalar_at(document: &[u8], pointer: &str) -> (scalar: Option<Scalar>)
    ensures
        match scalar {
            Some(found) => json_scalar(document@, pointer@) == Some(found@),
            None => json_scalar(document@, pointer@) is None,
        },
{
    let value: serde_json::Value = serde_json::from_slice(document).ok()?;
    Some(match value.pointer(pointer)? {
        serde_json::Value::String(text) => Scalar::Text(text.clone()),
        _ => Scalar::Other,
    })
}

/// Whether `document` is a JSON document.
pub fn is_json_document(document: &[u8]) -> (yes: bool)
    ensures
        yes == json_document(document@),
{
    json_scalar_at(document, "").is_some()
}

/// The text at `pointer` in `document`, if a string stands there.
pub fn json_text_at(document: &[u8], pointer: &str) -> (text: Option<String>)
    ensures
        match text {
            Some(found) => json_text(document@, pointer@) == Some(found@),
            None => json_text(document@, pointer@) is None,
        },
{
    match json_scalar_at(document, pointer) {
        Some(Scalar::Text(text)) => Some(text),
        _ => None,
    }
}

} // verus!
