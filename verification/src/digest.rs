//! Trusted boundary to the SHA-256 implementation.

use vstd::prelude::*;
use sha2::Digest;

verus! {

/// The SHA-256 digest of the UTF-8 bytes of a character sequence.
///
/// The digest itself is left unstated: nothing in this crate claims what its
/// bytes are on given input, only that it is a function of the input alone.
pub uninterp spec fn sha256_of(s: Seq<char>) -> Seq<u8>;

/// Relies on `sha2::Sha256::digest`: the digest depends on the input bytes
/// alone and is 32 bytes long.
#[verifier::external_body]
pub fn sha256_str(s: &str) -> (r: Vec<u8>)
    ensures
        r@ == sha256_of(s@),
        r@.len() == 32,
{
    sha2::Sha256::digest(s.as_bytes()).to_vec()
}

} // verus!
