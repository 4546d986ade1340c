//! Identifiers for pools and datasets.
//!
//! Pools and datasets are identified by 128-bit UUIDs, held as plain `u128`
//! values. The naming convention of this system makes a pool's *name* the
//! textual form of its identifier, so names must be parsed into values and
//! identifiers rendered back into text; both directions go through the
//! `uuid` crate.

use vstd::prelude::*;

verus! {

/// The identifier that the `uuid` crate reads out of a byte string, if any.
pub uninterp spec fn uuid_of(s: Seq<u8>) -> Option<u128>;

/// The canonical hyphenated text of an identifier.
pub uninterp spec fn uuid_text_of(u: u128) -> Seq<u8>;

/// Relies on `uuid::Uuid::try_parse_ascii`: whether a byte string parses as
/// a UUID, and as which value, depends on the bytes alone.
#[verifier::external_body]
pub(crate) fn parse_uuid(s: &[u8]) -> (r: Option<u128>)
    ensures
        r == uuid_of(s@),
{
    match uuid::Uuid::try_parse_ascii(s) {
        Ok(u) => Some(u.as_u128()),
        Err(_) => None,
    }
}

/// Relies on `uuid::Uuid::hyphenated`: the hyphenated text is 36 bytes,
/// depends on the value alone, and `try_parse_ascii` reads it back.
#[verifier::external_body]
pub(crate) fn format_uuid(u: u128) -> (r: Vec<u8>)
    ensures
        r@ == uuid_text_of(u),
        r@.len() == 36,
        uuid_of(r@) == Some(u),
{
    uuid::Uuid::from_u128(u).hyphenated().to_string().into_bytes()
}

/// Relies on `uuid::Uuid::new_v4`: a randomly generated identifier, of whose
/// value nothing is assumed.
#[verifier::external_body]
pub(crate) fn generate_uuid() -> u128 {
    uuid::Uuid::new_v4().as_u128()
}

} // verus!
