//! The strong expansion and compression primitive.
//!
//! Key expansion, salt seeding and digest finalization all go through one
//! cryptographic compression function, SHA-256, taken from an outside crate.
//! Its value on given bytes is not stated here; it only gets a name,
//! [`sha256_of`], so that every contract above it can say exactly which
//! bytes were compressed.

use sha2::Digest;
use vstd::prelude::*;

verus! {

/// The SHA-256 digest of a byte sequence, as a name: a pure function of its
/// argument alone. Nothing is assumed of the value beyond its length.
pub uninterp spec fn sha256_of(data: Seq<u8>) -> Seq<u8>;

/// Relies on sha2::Sha256: the digest is a pure function of the input bytes
/// alone (same bytes, same digest, on every platform) and is 32 bytes long.
#[verifier::external_body]
pub fn sha256_bytes(data: &Vec<u8>) -> (r: Vec<u8>)
    ensures
        r@ == sha256_of(data@),
        r@.len() == 32,
{
    sha2::Sha256::digest(data.as_slice()).to_vec()
}

} // verus!
