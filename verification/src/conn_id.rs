//! Connection ids: the SHA3-256 digest of the encoded socket address of the peer.

use crate::connection_pool::XorName;
use tiny_keccak::Hasher;
use vstd::prelude::*;

verus! {

/// What a SHA3-256 hasher of `tiny_keccak` finalises to after being fed `data`.
pub uninterp spec fn sha3_256(data: Seq<u8>) -> Seq<u8>;

/// Feeds `data` to `tiny_keccak::Sha3::v256` and finalises it into 32 bytes; the digest is
/// named `sha3_256`.
#[verifier::external_body]
fn sha3_digest(data: &[u8]) -> (r: [u8; 32])
    ensures
        r@ == sha3_256(data@),
{
    let mut hasher = tiny_keccak::Sha3::v256();
    let mut output = [0u8; 32];
    hasher.update(data);
    hasher.finalize(&mut output);
    output
}

impl XorName {
    /// The id of a connection whose peer address encodes (with bincode) to `encoded_addr`:
    /// the SHA3-256 digest of the encoding.
    pub fn from_encoded_addr(encoded_addr: &[u8]) -> (r: XorName)
        ensures
            r.0@ == sha3_256(encoded_addr@),
    {
        XorName(sha3_digest(encoded_addr))
    }
}

} // verus!
