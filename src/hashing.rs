//! The digest primitive that links blocks: SHA-256 of a text's UTF-8 bytes,
//! written in lowercase hexadecimal.

use sha2::Digest;
use vstd::prelude::*;

verus! {

/// The lowercase hex SHA-256 digest of the UTF-8 encoding of `text`.
pub uninterp spec fn sha256_hex(text: Seq<char>) -> Seq<char>;

/// Relies on sha2::Sha256::digest for the SHA-256 digest of the bytes, and on
/// generic_array's `LowerHex` for writing its 32 bytes as 64 hex digits;
/// the result depends on `text` alone.
#[verifier::external_body]
pub(crate) fn sha256_hex_of(text: &str) -> (r: String)
    ensures
        r@ == sha256_hex(text@),
        r@.len() == 64,
{
    format!("{:x}", sha2::Sha256::digest(text.as_bytes()))
}

} // verus!
