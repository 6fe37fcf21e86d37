use mrpack_install::digest::{digest_matches, get_sha512, has_digest, to_hex};
use mrpack_install::text::{chars_of, eq_ignoring_case, is_space, same_letter, trim_bounds};
use sha2::{Digest, Sha512};

const ABC: &str = "ddaf35a193617abacc417349ae20413112e6fa4e89a97ea20a9eeee64b55d39a2192992a274fc1a836ba3c23a3feebbd454d4423643ce80e2a9ac94fa54ca49f";
const EMPTY: &str = "cf83e1357eefb8bdf1542850d66d8007d620e4050b5715dc83f4a921d36ce9ce47d0d13c5d85f2b0ff8318d2877eec2f63b931bd47417a81a538327af927da3e";

#[test]
fn hex_of_bytes() {
    assert_eq!(to_hex(&[]), "");
    assert_eq!(to_hex(&[0x00]), "00");
    assert_eq!(to_hex(&[0x0f, 0xf0]), "0ff0");
    assert_eq!(to_hex(&[0xde, 0xad, 0xbe, 0xef]), "deadbeef");
    assert_eq!(to_hex(&[0x01, 0x23, 0x45, 0x67, 0x89, 0xab, 0xcd, 0xef]), "0123456789abcdef");
    assert_eq!(to_hex(&[0x9a, 0xa9, 0x99, 0xaa]), "9aa999aa");
}

#[test]
fn hex_of_every_byte() {
    for byte in 0..=255u8 {
        assert_eq!(to_hex(&[byte]), format!("{:02x}", byte));
    }
}

#[test]
fn sha512_of_known_inputs() {
    assert_eq!(get_sha512(b"abc"), ABC);
    assert_eq!(get_sha512(b""), EMPTY);
}

#[test]
fn sha512_is_not_the_input() {
    let digest = get_sha512(b"abc");
    assert_eq!(digest.len(), 128);
    assert_ne!(digest, to_hex(b"abc"));
}

#[test]
fn sha512_agrees_with_the_incremental_interface() {
    let data = b"The quick brown fox jumps over the lazy dog";
    let mut hasher = Sha512::new();
    hasher.update(data);
    assert_eq!(get_sha512(data), format!("{:x}", hasher.finalize()));
}

#[test]
fn digest_comparison_ignores_case() {
    let digest = [0xde, 0xad, 0xbe, 0xef];
    assert!(digest_matches(&digest, "deadbeef"));
    assert!(digest_matches(&digest, "DEADBEEF"));
    assert!(digest_matches(&digest, "DeAdBeEf"));
    assert!(!digest_matches(&digest, "deadbeee"));
    assert!(!digest_matches(&digest, "deadbee"));
    assert!(!digest_matches(&digest, "deadbeef0"));
    assert!(!digest_matches(&digest, ""));
    assert!(!digest_matches(&digest, " deadbeef"));
}

#[test]
fn bytes_have_their_digest() {
    assert!(has_digest(b"abc", ABC));
    assert!(has_digest(b"abc", &ABC.to_uppercase()));
    assert!(has_digest(b"", EMPTY));
    assert!(!has_digest(b"abd", ABC));
    assert!(!has_digest(b"abc", EMPTY));
    assert!(!has_digest(b"abc", &ABC[..127]));
}

#[test]
fn characters_of_a_text() {
    assert_eq!(chars_of(""), Vec::<char>::new());
    assert_eq!(chars_of("aé→😀"), vec!['a', 'é', '→', '😀']);
}

#[test]
fn white_space_is_what_the_standard_library_says() {
    for code in 0..0x11_0000u32 {
        if let Some(c) = char::from_u32(code) {
            assert_eq!(is_space(c), c.is_whitespace());
        }
    }
}

#[test]
fn letters_compare_without_ascii_case() {
    assert!(same_letter('a', 'A'));
    assert!(same_letter('Z', 'z'));
    assert!(same_letter('5', '5'));
    assert!(!same_letter('a', 'b'));
    assert!(!same_letter('@', '`'));
    assert!(!same_letter('[', '{'));
    assert!(!same_letter('é', 'É'));
    for code in 0..0x11_0000u32 {
        if let Some(c) = char::from_u32(code) {
            assert_eq!(same_letter(c, 'k'), c.eq_ignore_ascii_case(&'k'));
        }
    }
}

#[test]
fn texts_compare_without_ascii_case() {
    assert!(eq_ignoring_case("", ""));
    assert!(eq_ignoring_case("AbC", "aBc"));
    assert!(!eq_ignoring_case("abc", "abcd"));
    assert!(!eq_ignoring_case("abc", "abd"));
    assert!(!eq_ignoring_case("straße", "STRASSE"));
}

#[test]
fn trim_bounds_of_texts() {
    assert_eq!(trim_bounds(&chars_of("")), (0, 0));
    assert_eq!(trim_bounds(&chars_of("   ")), (3, 3));
    assert_eq!(trim_bounds(&chars_of("abc")), (0, 3));
    assert_eq!(trim_bounds(&chars_of("  a b \n")), (2, 5));
}

#[test]
fn sha512_in_hexadecimal_has_128_small_hex_digits() {
    for data in [&b""[..], &b"abc"[..], &[0u8; 1000][..]] {
        let hex = get_sha512(data);
        assert_eq!(hex.chars().count(), 128);
        assert!(hex.chars().all(|c| matches!(c, '0'..='9' | 'a'..='f')));
    }
}
