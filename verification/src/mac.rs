//! Message authentication with HMAC-SHA256, computed by the `hmac` and `sha2`
//! crates.

use vstd::prelude::*;
use hmac::Mac;

verus! {

/// The HMAC-SHA256 tag of `message` under `key`.
pub uninterp spec fn hmac_sha256(key: Seq<u8>, message: Seq<u8>) -> Seq<u8>;

/// The number of bytes in an HMAC-SHA256 tag.
pub const TAG_LEN: usize = 32;

/// Runs `Hmac::<Sha256>` over `message` (`new_from_slice`, `update`,
/// `finalize`) and returns the tag. The crate computes the same tag of 32
/// bytes for the same key and message, and takes a key of any length.
#[verifier::external_body]
pub(crate) fn tag_of(key: &[u8], message: &[u8]) -> (tag: Vec<u8>)
    ensures
        tag@ == hmac_sha256(key@, message@),
        tag@.len() == TAG_LEN,
{
    let mut mac = hmac::Hmac::<sha2::Sha256>::new_from_slice(key).unwrap();
    mac.update(message);
    mac.finalize().into_bytes().to_vec()
}

/// Runs `Hmac::<Sha256>` over `message` and checks `tag` against the result
/// with `verify_slice`, which compares in constant time and accepts only the
/// whole tag: a tag of another length than 32 bytes is refused.
#[verifier::external_body]
pub(crate) fn tag_matches(key: &[u8], message: &[u8], tag: &[u8]) -> (ok: bool)
    ensures
        ok == (tag@ == hmac_sha256(key@, message@)),
        ok ==> tag@.len() == TAG_LEN,
{
    let mut mac = hmac::Hmac::<sha2::Sha256>::new_from_slice(key).unwrap();
    mac.update(message);
    mac.verify_slice(tag).is_ok()
}

} // verus!
