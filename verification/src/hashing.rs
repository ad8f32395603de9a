//! Content hashes: SHA-256, written as lower-case hexadecimal.

use sha2::Digest;
use vstd::prelude::*;

verus! {

/// The SHA-256 digest of a byte string.
pub uninterp spec fn sha256(data: Seq<u8>) -> Seq<u8>;

/// Computes a SHA-256 digest.
///
/// Trusted: stands for `sha2::Sha256::digest`. The claim is that the bytes it
/// returns are a function of the input bytes alone, named [`sha256`], and that
/// there are 32 of them.
#[verifier::external_body]
fn sha256_digest(data: &[u8]) -> (digest: Vec<u8>)
    ensures
        digest@ == sha256(data@),
        digest@.len() == 32,
{
    sha2::Sha256::digest(data).to_vec()
}

/// The lower-case hexadecimal digit for a value below sixteen.
pub open spec fn hex_digit(nibble: int) -> char {
    if nibble < 10 {
        (nibble + 0x30) as char
    } else {
        (nibble - 10 + 0x61) as char
    }
}

/// Bytes as lower-case hexadecimal text, two digits for each byte, the high
/// half first.
pub open spec fn hex(bytes: Seq<u8>) -> Seq<char> {
    Seq::new(
        2 * bytes.len(),
        |i: int|
            if i % 2 == 0 {
                hex_digit(bytes[i / 2] as int / 16)
            } else {
                hex_digit(bytes[i / 2] as int % 16)
            },
    )
}

/// The content hash of a byte string: the hexadecimal form of its SHA-256
/// digest.
pub open spec fn content_hash(data: Seq<u8>) -> Seq<char> {
    hex(sha256(data))
}

fn hex_char(nibble: u8) -> (c: char)
    requires
        nibble < 16,
    ensures
        c == hex_digit(nibble as int),
{
    if nibble < 10 {
        (nibble + 0x30) as char
    } else {
        (nibble - 10 + 0x61) as char
    }
}

/// Writes bytes as lower-case hexadecimal text.
pub fn to_hex(bytes: &[u8]) -> (out: Vec<char>)
    ensures
        out@ == hex(bytes@),
{
    let mut out: Vec<char> = Vec::new();
    let mut i: usize = 0;
    while i < bytes.len()
        invariant
            i <= bytes.len(),
            out@.len() == 2 * i,
            forall|k: int| 0 <= k < 2 * i ==> out@[k] == hex(bytes@)[k],
        decreases bytes.len() - i,
    {
        let b = bytes[i];
        out.push(hex_char(b / 16));
        out.push(hex_char(b % 16));
        i += 1;
    }
    assert(out@ =~= hex(bytes@));
    out
}

/// The content hash of a byte string, as the manifests hold it. Equal bytes
/// give equal hashes, whoever computes them.
pub fn hash_bytes(data: &[u8]) -> (hash: String)
    ensures
        hash@ == content_hash(data@),
        hash@.len() == 64,
{
    let digest = sha256_digest(data);
    let text = to_hex(digest.as_slice());
    crate::text::string_of(&text)
}

} // verus!
