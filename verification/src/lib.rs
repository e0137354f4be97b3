//! A proof-of-work CAPTCHA protocol library.
//!
//! A server issues a computational challenge scoped to a site key, a client
//! solves it and submits proof, the server converts a valid proof into a
//! short-lived single-use validation token, and the site operator redeems
//! that token exactly once.

pub mod captcha;
pub mod challenge;
pub mod errors;
pub mod pow;
pub mod token;

pub use captcha::{
    difficulty_of_level, Captcha, CaptchaValidateResp, PoWConfig, Site, ValidationToken,
    VerifyCaptchaResult, Work, CHALLENGE_LIFETIME_SECONDS, DIFFICULTY_PER_LEVEL, MINT_ATTEMPTS,
    RANDOM_STRING_LEN, SALT_LEN, TOKEN_LIFETIME_SECONDS,
};
pub use challenge::{ChallengeEntry, ChallengeRegistry};
pub use errors::CaptchaError;
pub use pow::{check_pow, compute_pow_value, difficulty_target, prove_work};
pub use token::{TokenEntry, TokenStore};
