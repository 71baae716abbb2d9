//! Identifiers: fresh ones from `uuid`, and their text form.
use vstd::prelude::*;

verus! {

/// A fresh random identifier, from `uuid::Uuid::new_v4`; nothing is
/// promised of its value.
#[verifier::external_body]
pub(crate) fn new_id() -> (r: u128) {
    uuid::Uuid::new_v4().as_u128()
}

/// The value of the UUID a text spells, as `uuid::Uuid::parse_str`
/// accepts it, or `None` where it spells none.
pub uninterp spec fn parsed_uuid(text: Seq<char>) -> Option<u128>;

/// The UUID `text` spells, from `uuid::Uuid::parse_str`; the result is
/// named `parsed_uuid`, a function of the text alone.
#[verifier::external_body]
pub(crate) fn parse_uuid(text: &str) -> (r: Option<u128>)
    ensures
        r == parsed_uuid(text@),
{
    match uuid::Uuid::parse_str(text) {
        Ok(id) => Some(id.as_u128()),
        Err(_) => None,
    }
}

} // verus!
