//! Password digests: the SHA-256 digest of the password's UTF-8 bytes,
//! written as 64 upper-case hexadecimal digits.

use sha2::Digest;
use vstd::prelude::*;
use vstd::utf8::*;
use crate::text::string_from_utf8;

verus! {

broadcast use {encode_utf8_valid_utf8, encode_utf8_decode_utf8};

/// What SHA-256 computes for a byte sequence.
pub uninterp spec fn sha256_of(data: Seq<u8>) -> Seq<u8>;

/// Relies on `sha2::Sha256::digest`: the SHA-256 digest of the input, whose
/// output size is 32 bytes.
#[verifier::external_body]
fn sha256(data: &[u8]) -> (r: Vec<u8>)
    ensures
        r@ == sha256_of(data@),
        r@.len() == 32,
{
    sha2::Sha256::digest(data).to_vec()
}

/// The sixteen upper-case hexadecimal digits, in order of value.
pub open spec fn hex_digits() -> Seq<char> {
    seq!['0', '1', '2', '3', '4', '5', '6', '7', '8', '9', 'A', 'B', 'C', 'D', 'E', 'F']
}

/// The digit at position `k` of the hexadecimal form of `b`: two digits per
/// byte, the high half first.
pub open spec fn hex_digit_at(b: Seq<u8>, k: int) -> char {
    if k % 2 == 0 {
        hex_digits()[(b[k / 2] / 16) as int]
    } else {
        hex_digits()[(b[k / 2] % 16) as int]
    }
}

/// The upper-case hexadecimal form of a byte sequence.
pub open spec fn hex_upper(b: Seq<u8>) -> Seq<char> {
    Seq::new(2 * b.len(), |k: int| hex_digit_at(b, k))
}

/// The stored form of a password.
pub open spec fn password_digest(password: Seq<char>) -> Seq<char> {
    hex_upper(sha256_of(encode_utf8(password)))
}

/// The ASCII code of the hexadecimal digit of value `v`.
fn hex_code(v: u8) -> (r: u8)
    requires
        v < 16,
    ensures
        r == hex_digits()[v as int] as u8,
{
    if v < 10 {
        48 + v
    } else {
        55 + v
    }
}

/// Writes a byte sequence as upper-case hexadecimal digits.
pub fn to_hex_upper(bytes: &[u8]) -> (r: String)
    requires
        bytes@.len() <= usize::MAX / 2,
    ensures
        r@ == hex_upper(bytes@),
{
    let mut codes: Vec<u8> = Vec::new();
    let mut i: usize = 0;
    while i < bytes.len()
        invariant
            i <= bytes@.len() <= usize::MAX / 2,
            codes@.len() == 2 * i,
            forall|k: int| 0 <= k < 2 * i ==> codes@[k] == hex_digit_at(bytes@, k) as u8,
        decreases bytes@.len() - i,
    {
        let b = bytes[i];
        codes.push(hex_code(b / 16));
        codes.push(hex_code(b % 16));
        i = i + 1;
    }
    let ghost chars = hex_upper(bytes@);
    proof {
        assert(is_ascii_chars(chars)) by {
            assert forall|k: int| 0 <= k < chars.len() implies '\0' <= #[trigger] chars[k] <= '\u{7f}' by {
                assert(0 <= k / 2 < bytes@.len());
            }
        }
        is_ascii_chars_encode_utf8(chars);
        assert(codes@ =~= encode_utf8(chars));
    }
    match string_from_utf8(codes) {
        Some(s) => s,
        None => {
            proof {
                assert(false);
            }
            String::new()
        },
    }
}

/// The digest under which a password is stored and checked.
pub fn hash_password(password: &str) -> (r: String)
    ensures
        r@ == password_digest(password@),
        r@.len() == 64,
{
    let digest = sha256(password.as_bytes());
    to_hex_upper(digest.as_slice())
}

} // verus!
