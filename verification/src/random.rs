//! Random generation of identifiers: a fresh 128-bit value from a
//! cryptographically acceptable source, carrying the standard version and
//! variant tags so that the value is itself well formed.

use vstd::prelude::*;
use crate::value::Uuid;

verus! {

/// The version nibble of an identifier: the high four bits of byte 6.
pub open spec fn version_nibble(b: Seq<u8>) -> u8
    recommends
        b.len() == 16,
{
    b[6] >> 4
}

/// The variant bits of an identifier: the high two bits of byte 8.
pub open spec fn variant_bits(b: Seq<u8>) -> u8
    recommends
        b.len() == 16,
{
    b[8] >> 6
}

/// Relies on `uuid::Uuid::new_v4`: it draws a random 128-bit value from the
/// operating system's random source and forces the version nibble to 4 and
/// the variant bits to 1 0; its `as_bytes` hands those 16 bytes out in
/// network order. Nothing else holds of every outcome.
#[verifier::external_body]
fn random_v4_bytes() -> (r: Vec<u8>)
    ensures
        r@.len() == 16,
        r@[6] >> 4 == 4,
        r@[8] >> 6 == 2,
{
    uuid::Uuid::new_v4().as_bytes().to_vec()
}

/// A fresh random identifier, tagged as version 4, variant 1 (the bit
/// pattern 1 0). Which value comes out is not determined: only the tag
/// bits hold of every outcome.
pub fn generate() -> (u: Uuid)
    ensures
        u@.len() == 16,
        version_nibble(u@) == 4,
        variant_bits(u@) == 2,
{
    let bytes = random_v4_bytes();
    Uuid::from_exact_bytes(bytes)
}

} // verus!
