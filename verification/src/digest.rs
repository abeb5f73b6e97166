//! Base64 and hash functions of the `base64` and `ring` crates.
use base64::Engine;
use vstd::prelude::*;

verus! {

/// The standard Base64 encoding, with padding, of a byte string.
pub uninterp spec fn base64_standard(data: Seq<u8>) -> Seq<u8>;

/// The SHA-1 digest of a byte string.
pub uninterp spec fn sha1_digest(data: Seq<u8>) -> Seq<u8>;

/// The SHA-256 digest of a byte string.
pub uninterp spec fn sha256_digest(data: Seq<u8>) -> Seq<u8>;

/// The longest input, in bytes, that the hash functions take.
pub const MAX_HASHED: u64 = 0x1fff_ffff_ffff_ffff;

/// Letters, digits, `+`, `/` and `=`.
pub open spec fn is_base64_byte(b: u8) -> bool {
    ||| 65 <= b <= 90
    ||| 97 <= b <= 122
    ||| 48 <= b <= 57
    ||| b == 43
    ||| b == 47
    ||| b == 61
}

/// Encode with `base64`'s `STANDARD` engine (`Engine::encode`).  Claimed of
/// the result: it is a function of the data, four bytes long for every three
/// bytes begun, and within the standard alphabet.
#[verifier::external_body]
pub(crate) fn encode_base64(data: &[u8]) -> (r: Vec<u8>)
    requires
        data@.len() <= 0xffff,
    ensures
        r@ == base64_standard(data@),
        r@.len() == (data@.len() + 2) / 3 * 4,
        forall|i: int| 0 <= i < r@.len() ==> is_base64_byte(#[trigger] r@[i]),
{
    base64::engine::general_purpose::STANDARD.encode(data).into_bytes()
}

/// Hash with `ring::digest::digest` and `SHA1_FOR_LEGACY_USE_ONLY`.  Claimed
/// of the result: it is a function of the data and 20 bytes long.
#[verifier::external_body]
pub(crate) fn sha1(data: &[u8]) -> (r: Vec<u8>)
    requires
        data@.len() <= MAX_HASHED,
    ensures
        r@ == sha1_digest(data@),
        r@.len() == 20,
{
    ring::digest::digest(&ring::digest::SHA1_FOR_LEGACY_USE_ONLY, data).as_ref().to_vec()
}

/// Hash with `ring::digest::digest` and `SHA256`.  Claimed of the result: it
/// is a function of the data and 32 bytes long.
#[verifier::external_body]
pub(crate) fn sha256(data: &[u8]) -> (r: Vec<u8>)
    requires
        data@.len() <= MAX_HASHED,
    ensures
        r@ == sha256_digest(data@),
        r@.len() == 32,
{
    ring::digest::digest(&ring::digest::SHA256, data).as_ref().to_vec()
}

} // verus!
