// End-to-end runs of the challenge/proof/token protocol: issue, solve,
// verify, redeem, and every way a redemption or a resubmission must fail.

use mcaptcha::{Captcha, CaptchaError, PoWConfig, VerifyCaptchaResult, Work};

const EASY_LEVEL: u32 = 0;
const MAX_ATTEMPTS: u64 = 5_000_000;

fn setup_site(key: &str, level: u32) -> Captcha {
    let mut captcha = Captcha::new();
    captcha
        .add_site(key.to_owned(), level)
        .expect("fresh key registers");
    captcha
}

fn solve(config: &PoWConfig, key: &str) -> Work {
    let (nonce, result) = mcaptcha::prove_work(
        &config.salt,
        &config.string,
        config.difficulty_factor,
        MAX_ATTEMPTS,
    )
    .expect("a qualifying nonce exists below the bound");
    Work {
        string: config.string.clone(),
        result,
        nonce,
        key: key.to_owned(),
    }
}

#[test]
fn validate_captcha_token_works() {
    let key = "site-one";
    let mut captcha = setup_site(key, EASY_LEVEL);
    let now = 1_000;

    let config = captcha.get_pow_config(&key.to_owned(), now).unwrap();
    let work = solve(&config, key);
    let token = captcha.verify_pow(&work, now).unwrap();

    let claim = VerifyCaptchaResult {
        token: token.token.clone(),
        key: key.to_owned(),
    };
    let resp = captcha.validate_captcha_token(&claim, now);
    assert!(resp.valid);

    // string not found: the token was consumed by the first redemption
    let resp = captcha.validate_captcha_token(&claim, now);
    assert!(!resp.valid);

    // key not found: claiming with the token string in place of the key
    let bad_claim = VerifyCaptchaResult {
        token: token.token.clone(),
        key: token.token.clone(),
    };
    let resp = captcha.validate_captcha_token(&bad_claim, now);
    assert!(!resp.valid);
}

#[test]
fn scenario_issue_solve_redeem() {
    let k1 = "site-k1";
    let k2 = "site-k2";
    let mut captcha = setup_site(k1, EASY_LEVEL);
    captcha.add_site(k2.to_owned(), EASY_LEVEL).unwrap();
    let now = 50;

    let config = captcha.get_pow_config(&k1.to_owned(), now).unwrap();
    let work = solve(&config, k1);
    let token = captcha.verify_pow(&work, now).unwrap();

    // wrong key first: refused, and the token is not consumed
    let wrong = VerifyCaptchaResult {
        token: token.token.clone(),
        key: k2.to_owned(),
    };
    let resp = captcha.validate_captcha_token(&wrong, now);
    assert!(!resp.valid);

    // correct key still succeeds afterwards
    let claim = VerifyCaptchaResult {
        token: token.token.clone(),
        key: k1.to_owned(),
    };
    let resp = captcha.validate_captcha_token(&claim, now);
    assert!(resp.valid);

    // and only once
    let resp = captcha.validate_captcha_token(&claim, now);
    assert!(!resp.valid);
}

#[test]
fn valid_proof_issues_token_invalid_rejected() {
    let key = "site-pow";
    let mut captcha = setup_site(key, EASY_LEVEL);
    let now = 10;

    let config = captcha.get_pow_config(&key.to_owned(), now).unwrap();
    let good = solve(&config, key);

    // a flipped result no longer equals the recomputed value
    let bad_result = Work {
        result: good.result ^ 1,
        ..good.clone()
    };
    assert_eq!(
        captcha.verify_pow(&bad_result, now).unwrap_err(),
        CaptchaError::InvalidProof
    );

    // a submission for a key the challenge is not scoped to
    let bad_key = Work {
        key: "someone-else".to_owned(),
        ..good.clone()
    };
    assert_eq!(
        captcha.verify_pow(&bad_key, now).unwrap_err(),
        CaptchaError::InvalidProof
    );

    // a submission naming no outstanding challenge
    let bad_string = Work {
        string: "no-such-challenge".to_owned(),
        ..good.clone()
    };
    assert_eq!(
        captcha.verify_pow(&bad_string, now).unwrap_err(),
        CaptchaError::InvalidProof
    );

    // the challenge expires CHALLENGE_LIFETIME_SECONDS after issuance
    let late = now + mcaptcha::CHALLENGE_LIFETIME_SECONDS;
    assert_eq!(
        captcha.verify_pow(&good, late).unwrap_err(),
        CaptchaError::InvalidProof
    );

    // the untouched submission, in time, is converted into a token
    let token = captcha.verify_pow(&good, now).unwrap();
    assert_eq!(token.token.len(), mcaptcha::RANDOM_STRING_LEN);
}

#[test]
fn resubmitting_same_work_fails() {
    let key = "site-replay";
    let mut captcha = setup_site(key, EASY_LEVEL);
    let now = 10;

    let config = captcha.get_pow_config(&key.to_owned(), now).unwrap();
    let work = solve(&config, key);

    assert!(captcha.verify_pow(&work, now).is_ok());
    assert_eq!(
        captcha.verify_pow(&work, now).unwrap_err(),
        CaptchaError::InvalidProof
    );
}

#[test]
fn repeated_redemptions_yield_exactly_one_success() {
    let key = "site-once";
    let mut captcha = setup_site(key, EASY_LEVEL);
    let now = 10;

    let config = captcha.get_pow_config(&key.to_owned(), now).unwrap();
    let work = solve(&config, key);
    let token = captcha.verify_pow(&work, now).unwrap();

    let claim = VerifyCaptchaResult {
        token: token.token.clone(),
        key: key.to_owned(),
    };
    let mut successes = 0;
    for _ in 0..5 {
        if captcha.validate_captcha_token(&claim, now).valid {
            successes += 1;
        }
    }
    assert_eq!(successes, 1);
}

#[test]
fn garbage_token_yields_false() {
    let key = "site-garbage";
    let mut captcha = setup_site(key, EASY_LEVEL);
    let claim = VerifyCaptchaResult {
        token: "!!definitely-not-a-token!!".to_owned(),
        key: key.to_owned(),
    };
    let resp = captcha.validate_captcha_token(&claim, 10);
    assert!(!resp.valid);
}

#[test]
fn expired_token_yields_false() {
    let key = "site-expiry";
    let mut captcha = setup_site(key, EASY_LEVEL);
    let now = 10;

    let config = captcha.get_pow_config(&key.to_owned(), now).unwrap();
    let work = solve(&config, key);
    let token = captcha.verify_pow(&work, now).unwrap();

    let claim = VerifyCaptchaResult {
        token: token.token.clone(),
        key: key.to_owned(),
    };
    let late = now + mcaptcha::TOKEN_LIFETIME_SECONDS;
    assert!(!captcha.validate_captcha_token(&claim, late).valid);

    // the failed late claim consumed nothing, but time has still run out
    assert!(!captcha.validate_captcha_token(&claim, late + 1).valid);
}

#[test]
fn unknown_site_key_is_a_configuration_error() {
    let mut captcha = Captcha::new();
    assert_eq!(
        captcha.get_pow_config(&"never-registered".to_owned(), 5).unwrap_err(),
        CaptchaError::Configuration
    );
}

#[test]
fn duplicate_site_key_is_refused() {
    let key = "site-dup";
    let mut captcha = setup_site(key, EASY_LEVEL);
    assert_eq!(
        captcha.add_site(key.to_owned(), 3).unwrap_err(),
        CaptchaError::Configuration
    );
}

#[test]
fn issued_challenges_are_random_and_sized() {
    let key = "site-rand";
    let mut captcha = setup_site(key, EASY_LEVEL);
    let a = captcha.get_pow_config(&key.to_owned(), 5).unwrap();
    let b = captcha.get_pow_config(&key.to_owned(), 5).unwrap();
    assert_eq!(a.string.len(), mcaptcha::RANDOM_STRING_LEN);
    assert_eq!(a.salt.len(), mcaptcha::SALT_LEN);
    assert_ne!(a.string, b.string);
    assert_ne!(a.salt, b.salt);
}

#[test]
fn higher_level_sets_higher_difficulty() {
    let key = "site-levels";
    let mut captcha = setup_site(key, 1);
    let config = captcha.get_pow_config(&key.to_owned(), 5).unwrap();
    assert_eq!(config.difficulty_factor, mcaptcha::DIFFICULTY_PER_LEVEL);

    // and the solver still finds a proof the verifier accepts
    let work = solve(&config, key);
    assert!(captcha.verify_pow(&work, 5).is_ok());
}
