//! Digests of bytes and their hexadecimal text.
use vstd::prelude::*;
use sha1::Digest;
use crate::ids;

verus! {

/// The SHA-1 digest of some bytes, as the `sha1` crate computes it.
pub uninterp spec fn sha1_digest(data: Seq<u8>) -> Seq<u8>;

/// Two small hexadecimal digits for each byte, the high one first.
pub open spec fn hex_text(data: Seq<u8>) -> Seq<char> {
    Seq::new(
        2 * data.len(),
        |i: int|
            if i % 2 == 0 {
                ids::hex_digit((data[i / 2] / 16) as int)
            } else {
                ids::hex_digit((data[i / 2] % 16) as int)
            },
    )
}

/// `sha1::Sha1::digest`: the digest depends on the bytes alone and is twenty
/// bytes long. Which bytes they are is left to the crate.
#[verifier::external_body]
pub(crate) fn sha1(data: &[u8]) -> (digest: Vec<u8>)
    ensures
        digest@ == sha1_digest(data@),
        digest@.len() == 20,
{
    sha1::Sha1::digest(data).to_vec()
}

/// `hex::encode`: two small hexadecimal digits for each byte.
#[verifier::external_body]
pub(crate) fn hex_encode(data: &[u8]) -> (text: String)
    ensures
        text@ == hex_text(data@),
{
    hex::encode(data)
}

} // verus!
