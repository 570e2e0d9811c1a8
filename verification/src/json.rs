//! Looking things up in JSON documents.

use crate::text;
use vstd::prelude::*;
use vstd::string::*;

verus! {

/// The text that stands at a place of a JSON document, the place given as a
/// JSON pointer; none where the document cannot be read or something else
/// stands there.
pub uninterp spec fn json_text(body: Seq<char>, pointer: Seq<char>) -> Option<Seq<char>>;

/// `serde_json::from_str` into a `serde_json::Value`, its `pointer` and its
/// `as_str`: what is found depends on the document and the pointer alone.
#[verifier::external_body]
pub(crate) fn json_text_at(body: &str, pointer: &str) -> (r: Option<String>)
    ensures
        text::opt_text(r) == json_text(body@, pointer@),
{
    let value: serde_json::Value = serde_json::from_str(body).ok()?;
    value.pointer(pointer)?.as_str().map(str::to_string)
}

/// The text that stands at a place of the first item of a list of a JSON
/// document: the list is a field of the document, and the place is a JSON
/// pointer.
pub uninterp spec fn first_item_text(
    body: Seq<char>,
    list: Seq<char>,
    pointer: Seq<char>,
) -> Option<Seq<char>>;

/// `serde_json::from_str` into a `serde_json::Value`, `get` by name and by
/// index, `pointer` and `as_str`: what is found depends on the document, the
/// name and the pointer alone.
#[verifier::external_body]
pub(crate) fn first_item_text_at(body: &str, list: &str, pointer: &str) -> (r: Option<String>)
    ensures
        text::opt_text(r) == first_item_text(body@, list@, pointer@),
{
    let value: serde_json::Value = serde_json::from_str(body).ok()?;
    value.get(list)?.get(0)?.pointer(pointer)?.as_str().map(str::to_string)
}

/// The texts of a JSON document that is a list of texts, or what is wrong with
/// the document.
pub uninterp spec fn text_list(s: Seq<char>) -> Result<Seq<Seq<char>>, Seq<char>>;

/// What a reading of a list of texts comes to.
pub open spec fn list_reading(r: Result<Vec<String>, String>) -> Result<Seq<Seq<char>>, Seq<char>> {
    match r {
        Ok(v) => Ok(text::texts(v@)),
        Err(e) => Err(e@),
    }
}

/// `serde_json::from_str` into a `Vec<String>`, with the error as text: both
/// depend on the document alone.
#[verifier::external_body]
pub(crate) fn parse_text_list(s: &str) -> (r: Result<Vec<String>, String>)
    ensures
        list_reading(r) == text_list(s@),
{
    serde_json::from_str::<Vec<String>>(s).map_err(|e| e.to_string())
}

/// What is wrong with a text as a JSON document; none where it is one.
pub uninterp spec fn json_fault(s: Seq<char>) -> Option<Seq<char>>;

/// `serde_json::from_str` into a `serde_json::Value`: whether it fails, and what
/// its error says, depends on the text alone.
#[verifier::external_body]
pub(crate) fn json_fault_text(s: &str) -> (r: Option<String>)
    ensures
        text::opt_text(r) == json_fault(s@),
{
    serde_json::from_str::<serde_json::Value>(s).err().map(|e| e.to_string())
}

} // verus!
