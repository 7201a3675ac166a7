//! Checksums of downloads. A checksum is the SHA-256 digest of the downloaded
//! bytes, written as hexadecimal digits in either case.

use vstd::prelude::*;
use vstd::string::*;

use sha2::Digest;

use crate::text::chars_of;

verus! {

/// The SHA-256 digest of `content`.
pub uninterp spec fn sha256_of(content: Seq<u8>) -> Seq<u8>;

/// Computes the SHA-256 digest of `content` by `sha2::Sha256::digest`. The digest
/// is taken to depend on the bytes of `content` alone; nothing else is claimed of
/// it.
#[verifier::external_body]
fn sha256(content: &[u8]) -> (digest: Vec<u8>)
    ensures
        digest@ == sha256_of(content@),
{
    sha2::Sha256::digest(content).to_vec()
}

/// The value of a hexadecimal digit, in either case.
pub open spec fn hex_value(c: char) -> Option<int> {
    if '0' <= c <= '9' {
        Some(c as int - '0' as int)
    } else if 'a' <= c <= 'f' {
        Some(c as int - 'a' as int + 10)
    } else if 'A' <= c <= 'F' {
        Some(c as int - 'A' as int + 10)
    } else {
        None
    }
}

/// Whether `expected` writes `digest` out: two hexadecimal digits for each byte,
/// the high half first.
pub open spec fn writes_digest(expected: Seq<char>, digest: Seq<u8>) -> bool {
    &&& expected.len() == 2 * digest.len()
    &&& forall|i: int|
        0 <= i < digest.len() ==> hex_value(#[trigger] expected[2 * i]) == Some(digest[i] as int / 16)
            && hex_value(expected[2 * i + 1]) == Some(digest[i] as int % 16)
}

/// Whether a download with this content passes the checksum `sum` of its entry.
/// An entry without a checksum accepts any content.
pub open spec fn passes(sum: Option<Seq<char>>, content: Seq<u8>) -> bool {
    match sum {
        Some(expected) => writes_digest(expected, sha256_of(content)),
        None => true,
    }
}

/// The value of the hexadecimal digit `c`.
pub fn digit_value(c: char) -> (value: Option<u8>)
    ensures
        match value {
            Some(v) => hex_value(c) == Some(v as int),
            None => hex_value(c) is None,
        },
{
    let u: u32 = c as u32;
    if 0x30 <= u && u <= 0x39 {
        Some((u - 0x30) as u8)
    } else if 0x61 <= u && u <= 0x66 {
        Some((u - 0x61 + 10) as u8)
    } else if 0x41 <= u && u <= 0x46 {
        Some((u - 0x41 + 10) as u8)
    } else {
        None
    }
}

/// Tests whether the text `expected` writes out the bytes of `digest`.
pub fn digest_matches(expected: &str, digest: &[u8]) -> (matches: bool)
    ensures
        matches == writes_digest(expected@, digest@),
{
    let digits = chars_of(expected);
    let n: usize = digest.len();
    if digits.len() / 2 != n || digits.len() % 2 != 0 {
        return false;
    }
    let mut i: usize = 0;
    while i < n
        invariant
            i <= n,
            n == digest@.len(),
            digits@ == expected@,
            digits@.len() == 2 * n,
            forall|k: int|
                0 <= k < i ==> hex_value(#[trigger] expected@[2 * k]) == Some(digest@[k] as int / 16)
                    && hex_value(expected@[2 * k + 1]) == Some(digest@[k] as int % 16),
        decreases n - i,
    {
        let high = digit_value(digits[2 * i]);
        let low = digit_value(digits[2 * i + 1]);
        let byte: u8 = digest[i];
        match (high, low) {
            (Some(h), Some(l)) => {
                if h != byte / 16 || l != byte % 16 {
                    return false;
                }
            },
            _ => {
                return false;
            },
        }
        i += 1;
    }
    true
}

/// Tests whether a download with the bytes `content` passes the checksum `sum`.
pub fn verify_download(sum: Option<&str>, content: &[u8]) -> (ok: bool)
    ensures
        ok == passes(
            match sum {
                Some(expected) => Some(expected@),
                None => None,
            },
            content@,
        ),
{
    match sum {
        Some(expected) => {
            let digest = sha256(content);
            digest_matches(expected, digest.as_slice())
        },
        None => true,
    }
}

} // verus!
