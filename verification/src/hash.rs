//! The Keccak-256 digest used by the inclusion proofs, taken on trust from
//! the `sha3` crate.

use vstd::prelude::*;
use sha3::Digest;

verus! {

/// The Keccak-256 digest of a byte sequence. The digest depends on the bytes
/// alone; beyond that only its 32-byte length is stated.
pub uninterp spec fn keccak_of(data: Seq<u8>) -> Seq<u8>;

/// Relies on sha3::Keccak256::digest: a pure function of the input bytes
/// whose output is 32 bytes long.
#[verifier::external_body]
pub(crate) fn keccak256(data: &Vec<u8>) -> (r: Vec<u8>)
    ensures
        r@ == keccak_of(data@),
        r@.len() == 32,
{
    sha3::Keccak256::digest(data.as_slice()).to_vec()
}

/// The digest of a single byte vector, for building proof nodes.
pub fn leaf_hash(data: &Vec<u8>) -> (r: Vec<u8>)
    ensures
        r@ == keccak_of(data@),
        r@.len() == 32,
{
    keccak256(data)
}

/// The digest of the concatenation of two byte vectors, for building proof
/// nodes.
pub fn node_hash(left: &Vec<u8>, right: &Vec<u8>) -> (r: Vec<u8>)
    ensures
        r@ == keccak_of(left@ + right@),
        r@.len() == 32,
{
    let joined = crate::bytes::concat_bytes(left, right);
    keccak256(&joined)
}

} // verus!
