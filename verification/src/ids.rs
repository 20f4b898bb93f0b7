//! Entity identifiers.
//!
//! An identifier is a UUID, held as its 128-bit value. Reading and writing the
//! textual form is left to the `uuid` crate.

use vstd::prelude::*;

verus! {

/// A UUID as its 128-bit value, most significant byte first.
pub type Uuid = u128;

/// The UUID that `text` denotes in one of the formats that the `uuid` crate
/// reads (hyphenated, simple, URN, braced); `None` where it denotes none.
pub uninterp spec fn uuid_of_text(text: Seq<char>) -> Option<Uuid>;

/// The lower-case hyphenated text of a UUID.
pub uninterp spec fn uuid_text(id: Uuid) -> Seq<char>;

/// Reads a UUID with `uuid::Uuid::parse_str` and returns its value as
/// `Uuid::as_u128` gives it. Trusted: the result is a function of the text alone.
#[verifier::external_body]
pub(crate) fn parse_uuid(text: &str) -> (id: Option<Uuid>)
    ensures
        id == uuid_of_text(text@),
{
    uuid::Uuid::parse_str(text).ok().map(|u| u.as_u128())
}

/// Writes a UUID as `uuid::Uuid`'s `Display` does, after `Uuid::from_u128`.
/// Trusted: the result is a function of the value alone.
#[verifier::external_body]
pub(crate) fn format_uuid(id: Uuid) -> (text: String)
    ensures
        text@ == uuid_text(id),
{
    uuid::Uuid::from_u128(id).to_string()
}

} // verus!
