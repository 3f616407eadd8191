use openssl_async_job::b64::B64CryptEncoder;
use openssl_async_job::sha256::{do_sha256_hash, Sha256Crypt, XCryptParseError};

const KNOWN_HASH: &[u8] = b"5B8vYYiY.CVt1RlTTf8KbXBH3hsxY/GNooZaBBGWEc5";

#[test]
fn known_vector_hello_world() {
    let h = do_sha256_hash(b"Hello world!", b"saltstring", 5000);
    assert_eq!(h, KNOWN_HASH.to_vec());
}

#[test]
fn hash_text_is_43_characters() {
    let h = do_sha256_hash(b"secret", b"abc", 42);
    assert_eq!(h.len(), 43);
}

#[test]
fn encoder_emits_the_crypt_alphabet() {
    let mut enc = B64CryptEncoder::new(4);
    enc.push(0, 0, 0, 4);
    assert_eq!(enc.into_bytes(), b"....".to_vec());

    let mut enc = B64CryptEncoder::new(3);
    // 0x000041 = 1 * 64 + 1: '/' then '/' shifted out, high bits '.'
    enc.push(0, 0, 65, 3);
    assert_eq!(enc.into_bytes(), vec![b'/', b'/', b'.']);

    let mut enc = B64CryptEncoder::new(1);
    enc.push(0, 0, 63, 1);
    assert_eq!(enc.into_bytes(), vec![b'z']);

    let mut enc = B64CryptEncoder::new(2);
    // the word 770 = 12 * 64 + 2: '0' for 2, then 'A' for 12
    enc.push(0, 3, 2, 2);
    assert_eq!(enc.into_bytes(), vec![b'0', b'A']);
}

#[test]
fn parse_reads_salt_hash_and_default_rounds() {
    let mut v = b"saltstring$".to_vec();
    v.extend_from_slice(KNOWN_HASH);
    let c = Sha256Crypt::parse(&v).expect("a well-formed hash string parses");
    assert_eq!(c.rounds, 5000);
    assert_eq!(c.salt, b"saltstring".to_vec());
    assert_eq!(c.hash, KNOWN_HASH.to_vec());
    assert!(c.verify(b"Hello world!"));
    assert!(!c.verify(b"Hello world"));
}

#[test]
fn parse_and_verify_round_trip_with_spelled_out_rounds() {
    let h = do_sha256_hash(b"secret", b"abc", 77);
    let mut v = b"rounds=77$abc$".to_vec();
    v.extend_from_slice(&h);
    let c = Sha256Crypt::parse(&v).expect("a well-formed hash string parses");
    assert_eq!(c.rounds, 77);
    assert_eq!(c.salt, b"abc".to_vec());
    assert!(c.verify(b"secret"));
    assert!(!c.verify(b"Secret"));
}

#[test]
fn parse_accepts_a_leading_plus_in_the_round_count() {
    let h = do_sha256_hash(b"secret", b"abc", 9);
    let mut v = b"rounds=+9$abc$".to_vec();
    v.extend_from_slice(&h);
    let c = Sha256Crypt::parse(&v).expect("a signed round count parses");
    assert_eq!(c.rounds, 9);
}

#[test]
fn parse_rejects_an_empty_round_count() {
    let mut v = b"rounds=$abc$".to_vec();
    v.extend_from_slice(KNOWN_HASH);
    assert_eq!(Sha256Crypt::parse(&v), Err(XCryptParseError::InvalidRounds));
}

#[test]
fn parse_rejects_a_non_numeric_round_count() {
    let mut v = b"rounds=ten$abc$".to_vec();
    v.extend_from_slice(KNOWN_HASH);
    assert_eq!(Sha256Crypt::parse(&v), Err(XCryptParseError::InvalidRounds));
}

#[test]
fn parse_rejects_a_round_count_without_a_separator() {
    let v = b"rounds=5000".to_vec();
    assert_eq!(Sha256Crypt::parse(&v), Err(XCryptParseError::InvalidRounds));
}

#[test]
fn parse_rejects_a_round_count_in_the_refused_range() {
    let mut v = b"rounds=5000$abc$".to_vec();
    v.extend_from_slice(KNOWN_HASH);
    assert_eq!(Sha256Crypt::parse(&v), Err(XCryptParseError::OutOfRangeRounds));
}

#[test]
fn parse_rejects_a_missing_salt() {
    assert_eq!(
        Sha256Crypt::parse(b"saltwithnoseparator"),
        Err(XCryptParseError::NoSaltFound)
    );
    let mut v = b"$".to_vec();
    v.extend_from_slice(KNOWN_HASH);
    assert_eq!(Sha256Crypt::parse(&v), Err(XCryptParseError::NoSaltFound));
}

#[test]
fn parse_rejects_an_overlong_salt() {
    let mut v = b"aaaaaaaaaaaaaaaaa$".to_vec();
    v.extend_from_slice(KNOWN_HASH);
    assert_eq!(Sha256Crypt::parse(&v), Err(XCryptParseError::SaltTooLong));
}

#[test]
fn parse_rejects_a_wrong_hash_size() {
    let mut v = b"abc$".to_vec();
    v.extend_from_slice(&KNOWN_HASH[0..42]);
    assert_eq!(Sha256Crypt::parse(&v), Err(XCryptParseError::InvalidHashSize));
}

#[test]
fn digest_feeds_through_to_the_hash_text() {
    // Different phrases, salts, and round counts give different hash text;
    // equal inputs give equal text.
    let a = do_sha256_hash(b"one", b"salt", 11);
    let b = do_sha256_hash(b"two", b"salt", 11);
    let c = do_sha256_hash(b"one", b"pepper", 11);
    let d = do_sha256_hash(b"one", b"salt", 12);
    let e = do_sha256_hash(b"one", b"salt", 11);
    assert_ne!(a, b);
    assert_ne!(a, c);
    assert_ne!(a, d);
    assert_eq!(a, e);
}
