//! Identifiers of rooms and users: UUIDs, held as their 128 bits.
//!
//! The `uuid` crate draws them, writes them and reads them. What this module
//! says of it is believed, not proved.

use vstd::prelude::*;
use std::str::FromStr;
use uuid::Uuid;

verus! {

/// Why a text was not read as a UUID.
#[verifier::external_type_specification]
#[verifier::external_body]
pub struct ExUuidError(uuid::Error);

/// Whether the 128 bits carry the marks of a random UUID: version 4 in the
/// version field, and the two variant bits `10`.
pub open spec fn is_random_uuid(id: u128) -> bool {
    id & 0x0000_0000_0000_f000_c000_0000_0000_0000u128
        == 0x0000_0000_0000_4000_8000_0000_0000_0000u128
}

/// The text that the `uuid` crate writes for the identifier `id`.
pub uninterp spec fn text_of_uuid(id: u128) -> Seq<char>;

/// The identifier that the `uuid` crate reads from `text`; none where it
/// takes `text` for no UUID.
pub uninterp spec fn uuid_of_text(text: Seq<char>) -> Option<u128>;

/// Draws a random identifier with `Uuid::new_v4` and hands out its bits
/// (`Uuid::as_u128`).
///
/// Trusted: the bits are those of a version 4 UUID. Which one is chance, and
/// nothing is claimed of it. `new_v4` gives up where the operating system has
/// no random bytes to give.
#[verifier::external_body]
pub(crate) fn random_id() -> (id: u128)
    ensures
        is_random_uuid(id),
{
    Uuid::new_v4().as_u128()
}

/// Writes the identifier `id` as text, the way `Uuid` is displayed: 32
/// hexadecimal digits in five groups with hyphens between them.
///
/// Trusted: the text depends on `id` alone, and the `uuid` crate reads its
/// own writing back as the same identifier.
#[verifier::external_body]
pub(crate) fn write_id(id: u128) -> (text: String)
    ensures
        text@ == text_of_uuid(id),
        uuid_of_text(text@) == Some(id),
{
    Uuid::from_u128(id).to_string()
}

/// Reads an identifier from `text` with `Uuid::from_str`.
///
/// Trusted: whether `text` is read, and as which identifier, depends on
/// `text` alone.
#[verifier::external_body]
pub(crate) fn read_id(text: &str) -> (read: Result<u128, uuid::Error>)
    ensures
        match read {
            Ok(id) => uuid_of_text(text@) == Some(id),
            Err(_) => uuid_of_text(text@) is None,
        },
{
    Uuid::from_str(text).map(|id| id.as_u128())
}

} // verus!
