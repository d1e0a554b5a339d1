//! Content hashing: the identity test between file replicas.
//!
//! A file's fingerprint carries the SHA-256 digest of its full
//! content, rendered as 64 lowercase hexadecimal characters.  The
//! digest is a function of the content bytes alone, which is what
//! makes it the authoritative equality test between replicas: neither
//! the path nor the timestamp enters it.

use sha2::Digest;
use vstd::prelude::*;

verus! {

/// The SHA-256 digest of `data`, as 64 lowercase hex characters.
pub uninterp spec fn sha256_hex_of(data: Seq<u8>) -> Seq<char>;

/// The content hash of a file body.
///
/// Relies on `sha2::Sha256::digest`: the 32-byte SHA-256 digest of the
/// input, a function of the input bytes alone; rendered here as two
/// lowercase hex digits per byte, 64 characters in all.
#[verifier::external_body]
pub fn content_hash(content: &[u8]) -> (r: String)
    ensures
        r@ == sha256_hex_of(content@),
        r@.len() == 64,
{
    let digest = sha2::Sha256::digest(content);
    let mut out = String::new();
    for byte in digest.as_slice() {
        out.push_str(&format!("{:02x}", byte));
    }
    out
}

/// Two equal file bodies hash alike, whatever their paths or
/// timestamps: the hash depends on the bytes alone.
pub proof fn lemma_hash_depends_on_content_alone(a: Seq<u8>, b: Seq<u8>)
    requires
        a == b,
    ensures
        sha256_hex_of(a) == sha256_hex_of(b),
{
}

} // verus!
