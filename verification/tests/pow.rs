// The proof-of-work predicate against known values, and the store
// operations on their own.

use mcaptcha::{CaptchaError, TokenStore};
use sha2::Digest;

#[test]
fn compute_pow_value_is_the_sha256_prefix() {
    let salt: Vec<u8> = vec![7, 13, 255, 0];
    let challenge = "abcXYZ019";
    let nonce: u64 = 0x0123_4567_89ab_cdef;

    let mut message: Vec<u8> = Vec::new();
    message.extend_from_slice(&salt);
    message.extend_from_slice(challenge.as_bytes());
    message.extend_from_slice(&nonce.to_le_bytes());
    let digest = sha2::Sha256::digest(&message);
    let mut first16 = [0u8; 16];
    first16.copy_from_slice(&digest[..16]);
    let expected = u128::from_le_bytes(first16);

    assert_eq!(mcaptcha::compute_pow_value(&salt, challenge, nonce), expected);
}

#[test]
fn difficulty_target_exact_values() {
    assert_eq!(mcaptcha::difficulty_target(1), 0);
    assert_eq!(
        mcaptcha::difficulty_target(2),
        170_141_183_460_469_231_731_687_303_715_884_105_728u128
    );
    assert_eq!(
        mcaptcha::difficulty_target(4),
        255_211_775_190_703_847_597_530_955_573_826_158_592u128
    );
}

#[test]
fn check_pow_accepts_true_value_and_rejects_others() {
    let salt: Vec<u8> = vec![1, 2, 3];
    let challenge = "challenge";
    let nonce = 42;
    let value = mcaptcha::compute_pow_value(&salt, challenge, nonce);

    assert!(mcaptcha::check_pow(&salt, challenge, nonce, value, 1));
    assert!(!mcaptcha::check_pow(&salt, challenge, nonce, value.wrapping_add(1), 1));
    assert!(!mcaptcha::check_pow(&salt, challenge, nonce.wrapping_add(1), value, 1));
}

#[test]
fn prove_work_meets_the_target() {
    let salt: Vec<u8> = vec![9, 9, 9];
    let challenge = "find-me";

    // factor 1 asks for nothing, so the very first nonce qualifies
    let (nonce, value) = mcaptcha::prove_work(&salt, challenge, 1, 10).unwrap();
    assert_eq!(nonce, 0);
    assert_eq!(value, mcaptcha::compute_pow_value(&salt, challenge, 0));

    // a harder factor still yields a proof the checker accepts
    let factor = 1000;
    let (nonce, value) = mcaptcha::prove_work(&salt, challenge, factor, 5_000_000).unwrap();
    assert!(value >= mcaptcha::difficulty_target(factor));
    assert!(mcaptcha::check_pow(&salt, challenge, nonce, value, factor));
}

#[test]
fn difficulty_of_level_exact_values() {
    assert_eq!(mcaptcha::difficulty_of_level(0), 1);
    assert_eq!(mcaptcha::difficulty_of_level(1), 50_000);
    assert_eq!(mcaptcha::difficulty_of_level(2), 100_000);
    assert_eq!(mcaptcha::difficulty_of_level(85_899), 4_294_950_000);
    assert_eq!(mcaptcha::difficulty_of_level(85_900), u32::MAX);
    assert_eq!(mcaptcha::difficulty_of_level(u32::MAX), u32::MAX);
}

#[test]
fn token_store_refuses_duplicate_tokens() {
    let mut store = TokenStore::new();
    store
        .insert("token-a".to_owned(), "key-1".to_owned(), 100)
        .unwrap();
    assert_eq!(
        store
            .insert("token-a".to_owned(), "key-2".to_owned(), 200)
            .unwrap_err(),
        CaptchaError::DuplicateToken
    );
}

#[test]
fn token_at_the_end_of_time() {
    let mut store = TokenStore::new();
    store
        .insert("token-z".to_owned(), "key-1".to_owned(), u64::MAX)
        .unwrap();
    // an expiry saturated at the last timestamp is still a strict bound
    assert!(!store.consume_if_valid(&"token-z".to_owned(), &"key-1".to_owned(), u64::MAX));
    assert!(store.consume_if_valid(&"token-z".to_owned(), &"key-1".to_owned(), u64::MAX - 1));
}

#[test]
fn token_store_consumes_exactly_once() {
    let mut store = TokenStore::new();
    store
        .insert("token-a".to_owned(), "key-1".to_owned(), 100)
        .unwrap();

    // wrong key consumes nothing
    assert!(!store.consume_if_valid(&"token-a".to_owned(), &"key-2".to_owned(), 50));
    // expired claim consumes nothing
    assert!(!store.consume_if_valid(&"token-a".to_owned(), &"key-1".to_owned(), 100));
    // the one valid claim succeeds
    assert!(store.consume_if_valid(&"token-a".to_owned(), &"key-1".to_owned(), 99));
    // and never again
    assert!(!store.consume_if_valid(&"token-a".to_owned(), &"key-1".to_owned(), 50));
}
