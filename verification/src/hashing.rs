//! Content digests: SHA-256 rendered as lowercase hexadecimal.
use sha2::Digest;
use vstd::prelude::*;

verus! {

broadcast use vstd::string::group_string_axioms;

/// The SHA-256 digest of a byte sequence.
pub uninterp spec fn sha256(bytes: Seq<u8>) -> Seq<u8>;

/// The lowercase hexadecimal digit for a value below 16.
pub open spec fn hex_digit(n: u8) -> char {
    if n < 10 {
        (('0' as u8) + n) as char
    } else {
        (('a' as u8) + (n - 10)) as char
    }
}

/// Lowercase hexadecimal rendering of bytes: two digits per byte, high nibble first.
pub open spec fn hex_string(bytes: Seq<u8>) -> Seq<char>
    decreases bytes.len(),
{
    if bytes.len() == 0 {
        Seq::empty()
    } else {
        hex_string(bytes.drop_last()) + seq![
            hex_digit(bytes.last() / 16),
            hex_digit(bytes.last() % 16),
        ]
    }
}

/// The digest stored as `chunk_hash`: SHA-256 of the UTF-8 bytes, in hex.
pub open spec fn chunk_hash(text: Seq<char>) -> Seq<char> {
    hex_string(sha256(vstd::utf8::encode_utf8(text)))
}

/// `sha2::Sha256::digest`: the SHA-256 digest of the input, a function of the
/// bytes alone, 32 bytes long.
#[verifier::external_body]
pub(crate) fn sha256_digest(bytes: &[u8]) -> (res: Vec<u8>)
    ensures
        res@ == sha256(bytes@),
        res@.len() == 32,
{
    sha2::Sha256::digest(bytes).to_vec()
}

/// `hex::encode`: each byte as two lowercase hexadecimal digits, high nibble first.
#[verifier::external_body]
pub(crate) fn hex_encode(bytes: &[u8]) -> (res: String)
    ensures
        res@ == hex_string(bytes@),
{
    hex::encode(bytes)
}

/// Computes the deterministic SHA-256 hash of a chunk's text.
pub fn compute_chunk_hash(text: &str) -> (res: String)
    ensures
        res@ == chunk_hash(text@),
{
    let digest = sha256_digest(text.as_bytes());
    hex_encode(digest.as_slice())
}

/// A hex rendering has two digits per byte.
pub proof fn lemma_hex_len(bytes: Seq<u8>)
    ensures
        hex_string(bytes).len() == 2 * bytes.len(),
    decreases bytes.len(),
{
    if bytes.len() > 0 {
        lemma_hex_len(bytes.drop_last());
    }
}

/// A chunk hash is 64 hexadecimal digits.
pub proof fn lemma_chunk_hash_len(text: Seq<char>)
    requires
        sha256(vstd::utf8::encode_utf8(text)).len() == 32,
    ensures
        chunk_hash(text).len() == 64,
{
    lemma_hex_len(sha256(vstd::utf8::encode_utf8(text)));
}

} // verus!
