//! Content digests: SHA-256 of a file's bytes, written as lowercase
//! hexadecimal, and the check of a fetched source against its declared digest.

use crate::objects::SourceVerification;
use vstd::prelude::*;

verus! {

/// The SHA-256 digest of a byte string, as the system's cryptographic
/// library computes it.
pub uninterp spec fn sha256_of(data: Seq<u8>) -> Seq<u8>;

/// The lowercase hexadecimal digit of a value below sixteen.
pub open spec fn hex_digit(n: int) -> char {
    seq!['0', '1', '2', '3', '4', '5', '6', '7', '8', '9', 'a', 'b', 'c', 'd', 'e', 'f'][n]
}

/// Two lowercase hexadecimal digits for each byte, high digit first, with
/// nothing between the bytes.
pub open spec fn hex_of(bytes: Seq<u8>) -> Seq<char>
    decreases bytes.len(),
{
    if bytes.len() == 0 {
        Seq::empty()
    } else {
        hex_of(bytes.drop_last()) + seq![
            hex_digit(bytes.last() as int / 16),
            hex_digit(bytes.last() as int % 16),
        ]
    }
}

/// The digest of a file's content as the manifest writes it.
pub open spec fn digest_of(data: Seq<u8>) -> Seq<char> {
    hex_of(sha256_of(data))
}

/// Calls `crypto_hash::digest` with `Algorithm::SHA256`. The contract names
/// the bytes that come back; nothing is proved of them here. The call fails
/// on no input of its own; it gives up only where the system's cryptographic
/// library reports an error.
#[verifier::external_body]
fn sha256(data: &[u8]) -> (out: Vec<u8>)
    ensures
        out@ == sha256_of(data@),
{
    crypto_hash::digest(crypto_hash::Algorithm::SHA256, data)
}

/// Formats the slice through `hex_slice::AsHex::plain_hex` without spaces and
/// with `{:02x}`, which writes every byte as two lowercase hexadecimal digits.
#[verifier::external_body]
fn lower_hex(bytes: &[u8]) -> (out: String)
    ensures
        out@ == hex_of(bytes@),
{
    format!("{:02x}", hex_slice::AsHex::plain_hex(bytes, false))
}

/// The SHA-256 digest of `data` in lowercase hexadecimal.
pub fn hash(data: &[u8]) -> (digest: String)
    ensures
        digest@ == digest_of(data@),
{
    let raw = sha256(data);
    lower_hex(raw.as_slice())
}

/// Whether a computed digest is the one that the description declares.
pub fn digest_matches(verification: &SourceVerification, digest: &String) -> (ok: bool)
    ensures
        ok == (digest@ == verification.expected()),
{
    match verification {
        SourceVerification::Sha256(s) => *digest == s.sum,
    }
}

/// Whether the content of a fetched source has the declared digest.
pub fn validate(verification: &SourceVerification, data: &[u8]) -> (ok: bool)
    ensures
        ok == (digest_of(data@) == verification.expected()),
{
    let digest = hash(data);
    digest_matches(verification, &digest)
}

/// The digest of a file is a function of its bytes alone: two files with the
/// same content have the same digest, whatever their paths and metadata.
pub proof fn lemma_digest_depends_on_content_only(a: Seq<u8>, b: Seq<u8>)
    requires
        a =~= b,
    ensures
        digest_of(a) == digest_of(b),
{
}

} // verus!
