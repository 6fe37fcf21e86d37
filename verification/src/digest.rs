use crate::text::{eq_ignoring_case, lowered, same_ignoring_case};
use sha2::{Digest, Sha512};
use vstd::prelude::*;
use vstd::string::*;

verus! {

/// The SHA-512 digest of `bytes`.
pub uninterp spec fn sha512(bytes: Seq<u8>) -> Seq<u8>;

/// The number of bytes of a SHA-512 digest.
pub const DIGEST_BYTES: usize = 64;

/// One of the characters `0` to `9` and `a` to `f`.
pub open spec fn is_lower_hex(c: char) -> bool {
    '0' <= c <= '9' || 'a' <= c <= 'f'
}

/// The hexadecimal digit, in lower case, for a value below sixteen.
pub open spec fn hex_digit(n: int) -> char {
    if 0 <= n < 10 {
        (0x30 + n) as char
    } else {
        (0x57 + n) as char
    }
}

/// The value that the `i`-th hexadecimal digit of `bytes` stands for: the
/// high half of a byte comes before its low half.
pub open spec fn nibble(bytes: Seq<u8>, i: int) -> int {
    if i % 2 == 0 {
        bytes[i / 2] as int / 16
    } else {
        bytes[i / 2] as int % 16
    }
}

/// `bytes` written in hexadecimal, two lower-case digits for each byte.
pub open spec fn hex_of(bytes: Seq<u8>) -> Seq<char> {
    Seq::new(2 * bytes.len(), |i: int| hex_digit(nibble(bytes, i)))
}

/// Whether a digest that a manifest declares as `expected` is the digest
/// `digest`: the declared text is its hexadecimal form, in either case.
pub open spec fn digest_accepts(digest: Seq<u8>, expected: Seq<char>) -> bool {
    same_ignoring_case(hex_of(digest), expected)
}

/// Computes the SHA-512 digest of `bytes` with `sha2::Sha512`.
///
/// The digest is a function of the bytes alone; the contract gives it the
/// name [`sha512`] and claims besides only its size, which the hasher fixes
/// at 64 bytes.
#[verifier::external_body]
fn sha512_of(bytes: &[u8]) -> (digest: Vec<u8>)
    ensures
        digest@ == sha512(bytes@),
        digest@.len() == DIGEST_BYTES,
{
    Sha512::digest(bytes).to_vec()
}

/// The text of one hexadecimal digit.
fn digit_text(n: u8) -> (text: &'static str)
    requires
        n < 16,
    ensures
        text@ == seq![hex_digit(n as int)],
{
    proof {
        reveal_strlit("0");
        reveal_strlit("1");
        reveal_strlit("2");
        reveal_strlit("3");
        reveal_strlit("4");
        reveal_strlit("5");
        reveal_strlit("6");
        reveal_strlit("7");
        reveal_strlit("8");
        reveal_strlit("9");
        reveal_strlit("a");
        reveal_strlit("b");
        reveal_strlit("c");
        reveal_strlit("d");
        reveal_strlit("e");
        reveal_strlit("f");
    }
    let text = match n {
        0 => "0",
        1 => "1",
        2 => "2",
        3 => "3",
        4 => "4",
        5 => "5",
        6 => "6",
        7 => "7",
        8 => "8",
        9 => "9",
        10 => "a",
        11 => "b",
        12 => "c",
        13 => "d",
        14 => "e",
        _ => "f",
    };
    text
}

/// The hexadecimal form of `bytes` has two characters for each byte, and
/// each of them is a digit or a small letter up to `f`.
pub proof fn lemma_hex_of_is_lower_hex(bytes: Seq<u8>)
    ensures
        hex_of(bytes).len() == 2 * bytes.len(),
        forall|i: int| 0 <= i < 2 * bytes.len() ==> is_lower_hex(#[trigger] hex_of(bytes)[i]),
{
    assert forall|i: int| 0 <= i < 2 * bytes.len() implies is_lower_hex(
        #[trigger] hex_of(bytes)[i],
    ) by {
        let n = nibble(bytes, i);
        assert(0 <= n < 16);
    }
}

/// Writes `bytes` in hexadecimal, in lower case.
pub fn to_hex(bytes: &[u8]) -> (hex: String)
    ensures
        hex@ == hex_of(bytes@),
        hex@.len() == 2 * bytes@.len(),
        forall|i: int| 0 <= i < hex@.len() ==> is_lower_hex(#[trigger] hex@[i]),
{
    proof {
        lemma_hex_of_is_lower_hex(bytes@);
    }
    let mut hex = String::new();
    let n = bytes.len();
    let mut i: usize = 0;
    while i < n
        invariant
            i <= n == bytes@.len(),
            hex@.len() == 2 * i,
            forall|k: int| 0 <= k < 2 * i ==> hex@[k] == hex_digit(nibble(bytes@, k)),
        decreases n - i,
    {
        let byte = bytes[i];
        hex.append(digit_text(byte / 16));
        hex.append(digit_text(byte % 16));
        i += 1;
    }
    hex
}

/// Tells whether `digest` is the digest that a manifest declares as
/// `expected`; a declared text of another length than the hexadecimal form
/// of the digest never is.
pub fn digest_matches(digest: &[u8], expected: &str) -> (r: bool)
    ensures
        r == digest_accepts(digest@, expected@),
        r ==> expected@.len() == 2 * digest@.len(),
{
    let hex = to_hex(digest);
    let r = eq_ignoring_case(hex.as_str(), expected);
    assert(r ==> lowered(hex@).len() == lowered(expected@).len());
    r
}

/// The SHA-512 digest of `bytes` in hexadecimal: 128 characters, each a
/// digit or a small letter up to `f`.
pub fn get_sha512(bytes: &[u8]) -> (hex: String)
    ensures
        hex@ == hex_of(sha512(bytes@)),
        hex@.len() == 2 * DIGEST_BYTES,
        forall|i: int| 0 <= i < hex@.len() ==> is_lower_hex(#[trigger] hex@[i]),
{
    let digest = sha512_of(bytes);
    to_hex(digest.as_slice())
}

/// Tells whether `bytes` have the digest that a manifest declares as
/// `expected`; a declared text that is not 128 characters long never is
/// their digest.
pub fn has_digest(bytes: &[u8], expected: &str) -> (r: bool)
    ensures
        r == digest_accepts(sha512(bytes@), expected@),
        r ==> expected@.len() == 2 * DIGEST_BYTES,
{
    let digest = sha512_of(bytes);
    digest_matches(digest.as_slice(), expected)
}

} // verus!
