//! Hex encoding and SHA-256 digests, and the identifiers derived from them.

use vstd::prelude::*;
use sha2::Digest;

verus! {

/// The lowercase hex digit of a nibble.
pub open spec fn hex_digit(n: u8) -> char {
    if n < 10 {
        (48 + n) as char
    } else {
        (87 + n) as char
    }
}

/// Lowercase hex of `b`: two digits per byte, high nibble first.
pub open spec fn hex_of(b: Seq<u8>) -> Seq<char>
    decreases b.len(),
{
    if b.len() == 0 {
        seq![]
    } else {
        hex_of(b.drop_last()) + seq![hex_digit(b.last() / 16), hex_digit(b.last() % 16)]
    }
}

/// The hex of a prefix is the corresponding prefix of the hex.
pub proof fn lemma_hex_prefix(b: Seq<u8>, n: int)
    requires
        0 <= n <= b.len(),
    ensures
        hex_of(b).len() == 2 * b.len(),
        hex_of(b.subrange(0, n)) == hex_of(b).subrange(0, 2 * n),
    decreases b.len(),
{
    if b.len() > 0 {
        lemma_hex_prefix(b.drop_last(), if n == b.len() {
            n - 1
        } else {
            n
        });
        if n == b.len() {
            assert(b.subrange(0, n) =~= b);
            assert(hex_of(b).subrange(0, 2 * n) =~= hex_of(b));
        } else {
            assert(b.drop_last().subrange(0, n) =~= b.subrange(0, n));
            assert(hex_of(b).subrange(0, 2 * n) =~= hex_of(b.drop_last()).subrange(0, 2 * n));
        }
    }
}

/// Relies on `hex::encode`: two lowercase hex digits per byte, high nibble first.
#[verifier::external_body]
pub fn hex_encode(b: &[u8]) -> (r: String)
    ensures
        r@ == hex_of(b@),
{
    hex::encode(b)
}

/// The SHA-256 digest of a byte sequence.
pub uninterp spec fn sha256_of(data: Seq<u8>) -> Seq<u8>;

/// Relies on `sha2::Sha256::digest`: the 32-byte SHA-256 digest of the input.
#[verifier::external_body]
pub fn sha256(data: &[u8]) -> (r: Vec<u8>)
    ensures
        r@ == sha256_of(data@),
        r@.len() == 32,
{
    sha2::Sha256::digest(data).to_vec()
}

/// The first sixteen hex digits of the SHA-256 of `s`'s UTF-8 bytes.
pub open spec fn hash16_of(s: Seq<char>) -> Seq<char> {
    hex_of(sha256_of(vstd::utf8::encode_utf8(s))).subrange(0, 16)
}

/// The first sixteen hex digits of the SHA-256 of a string's UTF-8 bytes.
pub fn hash16(s: &str) -> (r: String)
    ensures
        r@ == hash16_of(s@),
        r@.len() == 16,
{
    let d = sha256(s.as_bytes());
    let head = vstd::slice::slice_subrange(d.as_slice(), 0, 8);
    proof {
        lemma_hex_prefix(d@, 8);
    }
    hex_encode(head)
}

} // verus!
