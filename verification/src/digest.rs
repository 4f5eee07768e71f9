//! The address checksum, computed by the `blake2b_simd` crate.

use vstd::prelude::*;

verus! {

/// The length of an address checksum in bytes.
pub const CHECKSUM_LEN: usize = 4;

/// The unkeyed BLAKE2b digest of `input` at a hash length of four bytes.
pub uninterp spec fn blake2b_checksum(input: Seq<u8>) -> Seq<u8>;

/// `blake2b_simd::Params::hash` at a hash length of four bytes and with no
/// key: the result is the digest that `blake2b_checksum` names for `input`,
/// and it is four bytes long.
#[verifier::external_body]
pub(crate) fn checksum(input: &[u8]) -> (digest: Vec<u8>)
    ensures
        digest@ == blake2b_checksum(input@),
        digest@.len() == CHECKSUM_LEN,
{
    ::blake2b_simd::Params::new().hash_length(CHECKSUM_LEN).hash(input).as_bytes().to_vec()
}

} // verus!
