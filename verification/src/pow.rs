//! The proof-of-work predicate.
//!
//! A challenge hands the client a salt, an opaque string and a difficulty
//! factor. The client searches for a nonce such that the SHA-256 digest of
//! `salt ++ string ++ nonce` (the nonce appended as 8 little-endian bytes),
//! read as a 128-bit little-endian number from the first 16 digest bytes,
//! reaches the difficulty target. The verifier recomputes that number and
//! checks it against both the submitted result and the target, so the whole
//! predicate is a pure function of the challenge and the submission.

use vstd::prelude::*;
use vstd::bytes::{spec_u128_from_le_bytes, spec_u64_to_le_bytes, u128_from_le_bytes, u64_to_le_bytes};
use vstd::utf8::encode_utf8;

verus! {

/// The SHA-256 digest of a byte sequence, named but left uninterpreted: the
/// digest is a function of the input bytes alone, and nothing more is assumed
/// of it.
pub uninterp spec fn sha256_of(data: Seq<u8>) -> Seq<u8>;

/// Relies on `sha2::Sha256` through `digest::Digest::digest`: the digest is
/// computed from the input bytes alone and is always 32 bytes long.
#[verifier::external_body]
fn sha256_digest(data: &[u8]) -> (r: Vec<u8>)
    ensures
        r@ == sha256_of(data@),
        r@.len() == 32,
{
    let digest = <sha2::Sha256 as sha2::Digest>::digest(data);
    digest.to_vec()
}

/// The byte sequence that is hashed for a proof of work: the salt, then the
/// UTF-8 bytes of the challenge string, then the nonce as 8 little-endian
/// bytes.
pub open spec fn pow_message(salt: Seq<u8>, challenge: Seq<char>, nonce: u64) -> Seq<u8> {
    salt + encode_utf8(challenge) + spec_u64_to_le_bytes(nonce)
}

/// The proof-of-work value of a nonce: the first 16 bytes of the SHA-256
/// digest of the proof-of-work message, read as a little-endian 128-bit
/// number.
pub open spec fn pow_value(salt: Seq<u8>, challenge: Seq<char>, nonce: u64) -> u128 {
    spec_u128_from_le_bytes(sha256_of(pow_message(salt, challenge, nonce)).take(16))
}

/// The threshold a proof-of-work value must reach. A factor of 1 asks for
/// nothing; doubling the factor halves the share of nonces that qualify.
pub open spec fn spec_difficulty_target(difficulty_factor: u32) -> u128
    recommends
        difficulty_factor >= 1,
{
    (u128::MAX - u128::MAX / (difficulty_factor as u128)) as u128
}

/// The proof-of-work predicate: the submitted result is the true value of the
/// nonce, and that value reaches the difficulty target.
pub open spec fn pow_ok(
    salt: Seq<u8>,
    challenge: Seq<char>,
    nonce: u64,
    result: u128,
    difficulty_factor: u32,
) -> bool
    recommends
        difficulty_factor >= 1,
{
    &&& result == pow_value(salt, challenge, nonce)
    &&& result >= spec_difficulty_target(difficulty_factor)
}

/// Appends every byte of `src` to `dst`.
pub(crate) fn push_all(dst: &mut Vec<u8>, src: &[u8])
    ensures
        final(dst)@ == old(dst)@ + src@,
{
    let mut i: usize = 0;
    while i < src.len()
        invariant
            i <= src@.len(),
            dst@ == old(dst)@ + src@.take(i as int),
        decreases src@.len() - i,
    {
        dst.push(src[i]);
        proof {
            assert(dst@ =~= old(dst)@ + src@.take(i + 1));
        }
        i = i + 1;
    }
    proof {
        assert(dst@ =~= old(dst)@ + src@);
    }
}

/// Recomputes the proof-of-work value of a nonce for a given salt and
/// challenge string.
pub fn compute_pow_value(salt: &Vec<u8>, challenge: &str, nonce: u64) -> (r: u128)
    ensures
        r == pow_value(salt@, challenge@, nonce),
{
    let mut msg: Vec<u8> = Vec::new();
    push_all(&mut msg, salt.as_slice());
    push_all(&mut msg, challenge.as_bytes());
    let mut tail = u64_to_le_bytes(nonce);
    msg.append(&mut tail);
    proof {
        assert(msg@ =~= pow_message(salt@, challenge@, nonce));
    }
    let mut digest = sha256_digest(msg.as_slice());
    digest.truncate(16);
    u128_from_le_bytes(digest.as_slice())
}

/// The difficulty target as executable code.
pub fn difficulty_target(difficulty_factor: u32) -> (r: u128)
    requires
        difficulty_factor >= 1,
    ensures
        r == spec_difficulty_target(difficulty_factor),
{
    u128::MAX - u128::MAX / (difficulty_factor as u128)
}

/// Decides the proof-of-work predicate for a submission.
pub fn check_pow(
    salt: &Vec<u8>,
    challenge: &str,
    nonce: u64,
    result: u128,
    difficulty_factor: u32,
) -> (b: bool)
    requires
        difficulty_factor >= 1,
    ensures
        b == pow_ok(salt@, challenge@, nonce, result, difficulty_factor),
{
    let value = compute_pow_value(salt, challenge, nonce);
    result == value && result >= difficulty_target(difficulty_factor)
}

/// Searches nonces `0, 1, ...` below `max_attempts` for one whose value
/// reaches the difficulty target: the client's side of the protocol. Returns
/// the nonce and its value, or `None` when no nonce below the bound
/// qualifies.
pub fn prove_work(
    salt: &Vec<u8>,
    challenge: &str,
    difficulty_factor: u32,
    max_attempts: u64,
) -> (r: Option<(u64, u128)>)
    requires
        difficulty_factor >= 1,
    ensures
        r matches Some(p) ==> pow_ok(salt@, challenge@, p.0, p.1, difficulty_factor)
            && p.0 < max_attempts,
        r is None ==> forall|n: u64, res: u128|
            n < max_attempts ==> !pow_ok(salt@, challenge@, n, res, difficulty_factor),
{
    let target = difficulty_target(difficulty_factor);
    let mut nonce: u64 = 0;
    while nonce < max_attempts
        invariant
            difficulty_factor >= 1,
            target == spec_difficulty_target(difficulty_factor),
            forall|n: u64, res: u128|
                n < nonce ==> !pow_ok(salt@, challenge@, n, res, difficulty_factor),
        decreases max_attempts - nonce,
    {
        let value = compute_pow_value(salt, challenge, nonce);
        if value >= target {
            return Some((nonce, value));
        }
        nonce = nonce + 1;
    }
    None
}

} // verus!
