//! SHA-256 commitments, written `sha256:` followed by the lower-case hex
//! form of the digest.
use vstd::prelude::*;
use vstd::utf8::encode_utf8;
use vstd::string::StringSliceAdditionalSpecFns;
use sha2::Digest;
use crate::text::{chars_of, push_all, string_of};

verus! {

/// The SHA-256 digest of a byte sequence, as the `sha2` crate computes it:
/// a function of the bytes alone.
pub uninterp spec fn sha256_of(data: Seq<u8>) -> Seq<u8>;

/// SHA-256 of `data`.
///
/// Trusted: calls `sha2::Sha256::digest`; the contract names the result
/// after the input bytes and claims the 32-byte digest length that SHA-256
/// always produces.
#[verifier::external_body]
fn sha256(data: &[u8]) -> (d: Vec<u8>)
    ensures
        d@ == sha256_of(data@),
        d@.len() == 32,
{
    sha2::Sha256::digest(data).to_vec()
}

/// The lower-case hexadecimal digit for a value below sixteen.
pub open spec fn hex_digit(d: nat) -> char {
    if d < 10 {
        ((48 + d) as u32) as char
    } else {
        ((87 + d) as u32) as char
    }
}

/// Lower-case hexadecimal form of a byte sequence, two digits per byte,
/// high nibble first.
pub open spec fn hex_lower(bytes: Seq<u8>) -> Seq<char>
    decreases bytes.len(),
{
    if bytes.len() == 0 {
        seq![]
    } else {
        hex_lower(bytes.drop_last()) + seq![
            hex_digit((bytes.last() / 16) as nat),
            hex_digit((bytes.last() % 16) as nat),
        ]
    }
}

/// Hex encoding of a byte slice.
///
/// Trusted: calls `hex::encode`, which writes two lower-case hex digits per
/// byte, high nibble first (table `0123456789abcdef`).
#[verifier::external_body]
fn hex_encode(bytes: &[u8]) -> (s: String)
    ensures
        s@ == hex_lower(bytes@),
{
    hex::encode(bytes)
}

/// The commitment to a text: `sha256:` and the hex SHA-256 of its UTF-8 bytes.
pub open spec fn digest_of(t: Seq<char>) -> Seq<char> {
    "sha256:"@ + hex_lower(sha256_of(encode_utf8(t)))
}

/// The commitment to a byte sequence.
pub open spec fn digest_of_bytes(b: Seq<u8>) -> Seq<char> {
    "sha256:"@ + hex_lower(sha256_of(b))
}

/// Commits to a byte sequence.
pub fn sha256_bytes(b: &[u8]) -> (r: String)
    ensures
        r@ == digest_of_bytes(b@),
{
    let d = sha256(b);
    let h = hex_encode(d.as_slice());
    let mut out = chars_of("sha256:");
    let hc = chars_of(h.as_str());
    push_all(&mut out, &hc);
    string_of(&out)
}

/// Commits to a text (the digest of its UTF-8 encoding).
pub fn sha256_text(t: &Vec<char>) -> (r: String)
    ensures
        r@ == digest_of(t@),
{
    let s = string_of(t);
    let b = s.as_str().as_bytes();
    sha256_bytes(b)
}

} // verus!
