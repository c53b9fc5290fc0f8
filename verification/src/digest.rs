//! SHA-256 digests and their lowercase hexadecimal rendering.

use vstd::prelude::*;
use sha2::Digest;
use crate::text::hex_char;

verus! {

/// The SHA-256 digest of a message.
pub uninterp spec fn sha256(message: Seq<u8>) -> Seq<u8>;

/// Calls `sha2::Sha256::digest` (the `digest` crate's `Digest::digest`: a
/// fresh hasher, one update with the message, then finalize) and hands back
/// the digest's bytes: the SHA-256 digest of the message, 32 bytes long.
#[verifier::external_body]
pub(crate) fn sha256_digest(message: &[u8]) -> (r: Vec<u8>)
    ensures
        r@ == sha256(message@),
        r@.len() == 32,
{
    sha2::Sha256::digest(message).to_vec()
}

/// The lowercase hexadecimal rendering of bytes: two digits per byte, the
/// high half first.
pub open spec fn hex_lower(bytes: Seq<u8>) -> Seq<char>
    decreases bytes.len(),
{
    if bytes.len() == 0 {
        Seq::empty()
    } else {
        hex_lower(bytes.drop_last()) + seq![
            hex_char((bytes.last() / 16) as nat),
            hex_char((bytes.last() % 16) as nat),
        ]
    }
}

/// Calls `hex::encode`, which renders each byte as two lowercase
/// hexadecimal digits, the high half first.
#[verifier::external_body]
pub(crate) fn hex_encode(bytes: &[u8]) -> (r: String)
    ensures
        r@ == hex_lower(bytes@),
{
    hex::encode(bytes)
}

/// The SHA-256 digest of a message, rendered in lowercase hexadecimal.
pub fn sha256_hex(message: &[u8]) -> (r: String)
    ensures
        r@ == hex_lower(sha256(message@)),
{
    let digest = sha256_digest(message);
    hex_encode(digest.as_slice())
}

/// Appends bytes to a buffer.
pub fn push_bytes(buf: &mut Vec<u8>, bytes: &[u8])
    ensures
        final(buf)@ == old(buf)@ + bytes@,
{
    let ghost start = buf@;
    let mut i: usize = 0;
    while i < bytes.len()
        invariant
            i <= bytes@.len(),
            buf@ == start + bytes@.take(i as int),
        decreases bytes.len() - i,
    {
        buf.push(bytes[i]);
        assert(bytes@.take(i + 1) == bytes@.take(i as int).push(bytes@[i as int]));
        i = i + 1;
    }
    assert(bytes@.take(bytes@.len() as int) == bytes@);
}

} // verus!
