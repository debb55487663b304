//! The digest by which the runner tells whether a text has changed.

use sha2::{Digest, Sha256};
use vstd::prelude::*;

verus! {

/// The digest that `sha2::Sha256` computes of some bytes.
pub uninterp spec fn sha256_digest(data: Seq<u8>) -> Seq<u8>;

/// `sha2::Sha256`, fed with `data` and then asked for its result: the digest of `data`,
/// which is 32 bytes long.
#[verifier::external_body]
pub(crate) fn sha256(data: &[u8]) -> (digest: Vec<u8>)
    ensures
        digest@ == sha256_digest(data@),
        digest@.len() == 32,
{
    let mut hasher = Sha256::new();
    hasher.input(data);
    hasher.result().to_vec()
}

} // verus!
