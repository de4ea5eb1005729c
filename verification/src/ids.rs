//! Random identifiers.
use uuid::Uuid;
use vstd::prelude::*;

verus! {

/// The written form of a random identifier: 36 characters in five groups, of which the third
/// starts with the version.
pub open spec fn is_id_text(text: Seq<char>) -> bool {
    &&& text.len() == 36
    &&& text[8] == '-'
    &&& text[13] == '-'
    &&& text[18] == '-'
    &&& text[23] == '-'
    &&& text[14] == '4'
}

/// `Uuid::new_v4` makes a random identifier of version 4, and its `to_string` writes it in
/// groups of 8, 4, 4, 4 and 12 digits with hyphens between them. Which identifier it is, is left
/// to chance.
#[verifier::external_body]
pub(crate) fn new_id_text() -> (result: String)
    ensures
        is_id_text(result@),
{
    Uuid::new_v4().to_string()
}

/// A random identifier of version 4.
pub open spec fn is_random_id(id: u128) -> bool {
    id / 0x1000_0000_0000_0000_0000 % 16 == 4
}

/// `Uuid::new_v4` makes a random identifier, and its `as_u128` gives it as a number, in which the
/// version stands in the lowest four bits above the seventy-sixth. Which identifier it is, is left
/// to chance.
#[verifier::external_body]
pub(crate) fn new_id() -> (result: u128)
    ensures
        is_random_id(result),
{
    Uuid::new_v4().as_u128()
}

} // verus!
