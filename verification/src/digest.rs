//! SHA-256, as the Lightning node's bitcoin library computes it.
use vstd::prelude::*;

verus! {

/// The SHA-256 digest of `data`.
pub uninterp spec fn sha256_digest(data: Seq<u8>) -> Seq<u8>;

/// `bitcoin_hashes::sha256::Hash::hash` (through `ldk_node::bitcoin::hashes`): the 32 bytes
/// of the SHA-256 digest of `data`.
#[verifier::external_body]
pub(crate) fn sha256(data: &[u8]) -> (r: Vec<u8>)
    ensures
        r@ == sha256_digest(data@),
        r@.len() == 32,
{
    let digest = <ldk_node::bitcoin::hashes::sha256::Hash as ldk_node::bitcoin::hashes::Hash>::hash(data);
    <ldk_node::bitcoin::hashes::sha256::Hash as ldk_node::bitcoin::hashes::Hash>::to_byte_array(digest).to_vec()
}

} // verus!
