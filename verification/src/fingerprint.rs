//! Content fingerprinting: SHA-256 over a document's bytes, hex-encoded.
//!
//! The digest itself is computed by the `sha2` crate and is only named
//! here; the hexadecimal rendering is specified exactly and the `hex`
//! crate is held to that specification.

use vstd::prelude::*;

verus! {

use vstd::utf8::encode_utf8;

/// The SHA-256 digest of a byte sequence. The digest is a pure function
/// of the input bytes; nothing further is assumed of its value.
pub uninterp spec fn sha256_of(data: Seq<u8>) -> Seq<u8>;

/// The lower-case hexadecimal digit for a nibble.
pub open spec fn spec_hex_digit(n: u8) -> u8
    recommends
        n < 16,
{
    if n < 10 {
        (0x30 + n) as u8
    } else {
        (0x57 + n) as u8
    }
}

/// Lower-case hexadecimal rendering of a byte sequence, two digits per
/// byte, high nibble first.
pub open spec fn spec_hex_encode(data: Seq<u8>) -> Seq<char>
    decreases data.len(),
{
    if data.len() == 0 {
        Seq::<char>::empty()
    } else {
        seq![
            spec_hex_digit((data[0] / 16) as u8) as char,
            spec_hex_digit((data[0] % 16) as u8) as char,
        ] + spec_hex_encode(data.drop_first())
    }
}

/// The fingerprint of a document text: the hex rendering of the SHA-256
/// digest of its UTF-8 bytes.
pub open spec fn spec_fingerprint(content: Seq<char>) -> Seq<char> {
    spec_hex_encode(sha256_of(encode_utf8(content)))
}

pub proof fn lemma_hex_encode_len(data: Seq<u8>)
    ensures
        spec_hex_encode(data).len() == 2 * data.len(),
    decreases data.len(),
{
    if data.len() > 0 {
        lemma_hex_encode_len(data.drop_first());
    }
}

/// Relies on `sha2::Sha256` through the `Digest::digest` interface: the
/// digest depends on the input bytes alone and is always 32 bytes long.
#[verifier::external_body]
fn sha256(data: &[u8]) -> (r: Vec<u8>)
    ensures
        r@ == sha256_of(data@),
        r@.len() == 32,
{
    let digest = <sha2::Sha256 as sha2::Digest>::digest(data);
    digest.to_vec()
}

/// Relies on `hex::encode`: lower-case hexadecimal, two digits per byte,
/// high nibble first.
#[verifier::external_body]
fn hex_encode(data: &[u8]) -> (r: String)
    ensures
        r@ == spec_hex_encode(data@),
{
    hex::encode(data)
}

/// The hex-encoded SHA-256 digest of a byte sequence.
pub fn fingerprint_bytes(data: &[u8]) -> (r: String)
    ensures
        r@ == spec_hex_encode(sha256_of(data@)),
        r@.len() == 64,
{
    let digest = sha256(data);
    let r = hex_encode(digest.as_slice());
    proof {
        lemma_hex_encode_len(sha256_of(data@));
    }
    r
}

/// The content fingerprint of a session document.
pub fn fingerprint(content: &str) -> (r: String)
    ensures
        r@ == spec_fingerprint(content@),
        r@.len() == 64,
{
    fingerprint_bytes(content.as_bytes())
}

/// Fingerprint determinism: two documents with identical text always
/// carry the same fingerprint, whichever build or machine computed it.
pub proof fn lemma_fingerprint_deterministic(c1: Seq<char>, c2: Seq<char>)
    requires
        c1 == c2,
    ensures
        spec_fingerprint(c1) == spec_fingerprint(c2),
{
}

} // verus!
