use vstd::prelude::*;

verus! {

/// The BLAKE3 digest of `bytes`, written as lowercase hexadecimal.
pub uninterp spec fn blake3_hex(bytes: Seq<u8>) -> Seq<char>;

/// Calls `blake3::hash` on `body` and renders the digest with `Hash::to_hex`.
/// Claimed: the result is the named digest of exactly these bytes, and it is
/// 64 characters long (`to_hex` writes two characters for each of the 32 bytes).
#[verifier::external_body]
pub(crate) fn content_hash(body: &[u8]) -> (hex: String)
    ensures
        hex@ == blake3_hex(body@),
        hex@.len() == 64,
{
    blake3::hash(body).to_hex().to_string()
}

} // verus!
