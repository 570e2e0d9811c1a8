//! Identifiers, in their hyphenated text form.

use vstd::prelude::*;

verus! {

/// The identifier that a text stands for in its hyphenated form, or what is
/// wrong with the text.
pub uninterp spec fn uuid_reading(s: Seq<char>) -> Result<Seq<char>, Seq<char>>;

/// What a reading comes to.
pub open spec fn reading(r: Result<String, String>) -> Result<Seq<char>, Seq<char>> {
    match r {
        Ok(t) => Ok(t@),
        Err(e) => Err(e@),
    }
}

/// `uuid::Uuid::parse_str`, with the identifier and the error as text: both
/// depend on the given text alone.
#[verifier::external_body]
pub(crate) fn parse_uuid(s: &str) -> (r: Result<String, String>)
    ensures
        reading(r) == uuid_reading(s@),
{
    match uuid::Uuid::parse_str(s) {
        Ok(id) => Ok(id.to_string()),
        Err(e) => Err(e.to_string()),
    }
}

} // verus!
