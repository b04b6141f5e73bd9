//! The digest stage: SHA-512, computed by the `sha2` crate.

use sha2::{Digest, Sha512};
use vstd::prelude::*;

verus! {

/// The SHA-512 digest of a byte string. Nothing here says which bytes it holds;
/// the name only records that the digest depends on the input bytes alone.
pub uninterp spec fn sha512_of(input: Seq<u8>) -> Seq<u8>;

/// Hashes `input` with `<sha2::Sha512 as Digest>::digest`.
///
/// Trusted, not proved: the 64 bytes returned are the SHA-512 digest of `input`,
/// the same for the same bytes on every call. `digest` feeds the input to a
/// fresh hasher and finalizes it; it cannot fail and takes inputs of any length,
/// the empty one included.
#[verifier::external_body]
pub(crate) fn sha512(input: &[u8]) -> (digest: [u8; 64])
    ensures
        digest@ == sha512_of(input@),
{
    Sha512::digest(input).into()
}

} // verus!
