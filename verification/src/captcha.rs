//! The challenge/proof/token protocol, assembled.
//!
//! `Captcha` ties the three shared structures together: the registry of
//! site keys and their difficulty levels, the registry of outstanding
//! challenges, and the validation-token store. Its four operations are the
//! protocol's state machine: register a site, issue a challenge, verify a
//! proof of work into a single-use token, and redeem that token exactly
//! once. Redemption deliberately answers with a bare boolean: an unknown
//! token, a wrong key, an expired token and a double redemption are all the
//! same `valid: false`, so a caller cannot probe why a claim was refused.

use vstd::prelude::*;
use crate::challenge::{
    challenge_index, challenges_wf, has_challenge, ChallengeEntry, ChallengeRegistry,
    lemma_spent_challenge_gone,
};
use crate::errors::CaptchaError;
use crate::pow::{check_pow, pow_ok, push_all};
use crate::token::{
    consume_at, has_token, redeemable, tokens_unique, TokenEntry, TokenStore,
};

verus! {

/// How long an issued challenge stays valid, in seconds.
pub const CHALLENGE_LIFETIME_SECONDS: u64 = 30;

/// How long a minted validation token stays valid, in seconds.
pub const TOKEN_LIFETIME_SECONDS: u64 = 30;

/// Length of random challenge strings and validation tokens, in characters
/// drawn uniformly from the 62 ASCII letters and digits: about 190 bits of
/// entropy, comfortably above the 128 bits the token needs to make guessing
/// and collisions negligible.
pub const RANDOM_STRING_LEN: usize = 32;

/// Length of a challenge salt, in random bytes.
pub const SALT_LEN: usize = 32;

/// Difficulty grows linearly with the configured threat level.
pub const DIFFICULTY_PER_LEVEL: u32 = 50000;

/// How often a colliding random draw is retried before the internal
/// duplicate fault is reported.
pub const MINT_ATTEMPTS: usize = 16;

/// A challenge as handed to the client: the opaque string, the salt, and
/// the difficulty factor the proof must reach.
#[derive(Clone, Debug)]
pub struct PoWConfig {
    pub string: String,
    pub salt: Vec<u8>,
    pub difficulty_factor: u32,
}

/// A proof submission: the challenge string it answers, the claimed
/// proof-of-work value, the nonce that produced it, and the site key.
#[derive(Clone, Debug)]
pub struct Work {
    pub string: String,
    pub result: u128,
    pub nonce: u64,
    pub key: String,
}

/// The single-use credential minted for a verified proof.
#[derive(Clone, Debug)]
pub struct ValidationToken {
    pub token: String,
}

/// The claim a site operator presents for redemption.
#[derive(Clone, Debug)]
pub struct VerifyCaptchaResult {
    pub token: String,
    pub key: String,
}

/// The sole outward signal of redemption; nothing else leaks.
#[derive(Clone, Copy, Debug, PartialEq, Eq, Structural)]
pub struct CaptchaValidateResp {
    pub valid: bool,
}

/// A registered site: its key and its configured threat level.
#[derive(Clone, Debug)]
pub struct Site {
    pub key: String,
    pub level: u32,
}

/// No two registered sites carry the same key.
pub open spec fn sites_unique(s: Seq<Site>) -> bool {
    forall|i: int, j: int|
        0 <= i < s.len() && 0 <= j < s.len() && i != j ==> s[i].key@ != s[j].key@
}

/// Some registered site carries this key.
pub open spec fn has_site(s: Seq<Site>, key: Seq<char>) -> bool {
    exists|i: int| 0 <= i < s.len() && s[i].key@ == key
}

/// The index of the site carrying this key; meaningful when the key is
/// registered and the registry is well-formed.
pub open spec fn site_index(s: Seq<Site>, key: Seq<char>) -> int {
    choose|i: int| 0 <= i < s.len() && s[i].key@ == key
}

/// The difficulty factor configured for a threat level: level times
/// `DIFFICULTY_PER_LEVEL`, saturated at `u32::MAX` and never below 1.
pub open spec fn spec_difficulty_of_level(level: u32) -> u32 {
    if level == 0 {
        1u32
    } else if level <= u32::MAX / DIFFICULTY_PER_LEVEL {
        (level * DIFFICULTY_PER_LEVEL) as u32
    } else {
        u32::MAX
    }
}

/// The difficulty factor for a threat level, as executable code.
pub fn difficulty_of_level(level: u32) -> (r: u32)
    ensures
        r == spec_difficulty_of_level(level),
        r >= 1,
{
    if level == 0 {
        1
    } else if level <= u32::MAX / DIFFICULTY_PER_LEVEL {
        level * DIFFICULTY_PER_LEVEL
    } else {
        u32::MAX
    }
}

/// An absolute expiry `ttl` seconds after `now`, saturating at the end of
/// representable time.
pub open spec fn spec_expiry_at(now: u64, ttl: u64) -> u64 {
    if now + ttl <= u64::MAX {
        (now + ttl) as u64
    } else {
        u64::MAX
    }
}

/// The expiry timestamp, as executable code.
fn expiry_after(now: u64, ttl: u64) -> (r: u64)
    ensures
        r == spec_expiry_at(now, ttl),
{
    if now <= u64::MAX - ttl {
        now + ttl
    } else {
        u64::MAX
    }
}

/// Relies on rand's `ThreadRng` through `RngCore::fill_bytes`: the buffer
/// comes back fully overwritten with bytes from the thread-local
/// cryptographically secure generator, so only its length can be promised.
#[verifier::external_body]
fn random_bytes(n: usize) -> (r: Vec<u8>)
    ensures
        r@.len() == n,
{
    let mut buf = vec![0u8; n];
    rand::RngCore::fill_bytes(&mut rand::thread_rng(), &mut buf);
    buf
}

/// An ASCII digit or letter: what one draw of the random alphabet yields.
pub open spec fn spec_ascii_alphanumeric(c: char) -> bool {
    ||| 48 <= c as u32 && c as u32 <= 57
    ||| 65 <= c as u32 && c as u32 <= 90
    ||| 97 <= c as u32 && c as u32 <= 122
}

/// Relies on rand's `Alphanumeric` distribution sampled from `ThreadRng`:
/// each drawn byte is one of the 62 ASCII letters and digits, so the
/// collected string has exactly one such character per draw; which ones
/// come is random, and nothing else can be promised.
#[verifier::external_body]
fn random_alphanumeric(n: usize) -> (r: String)
    ensures
        r@.len() == n,
        forall|i: int| 0 <= i < r@.len() ==> spec_ascii_alphanumeric(#[trigger] r@[i]),
{
    rand::Rng::sample_iter(rand::thread_rng(), &rand::distributions::Alphanumeric)
        .take(n)
        .map(char::from)
        .collect()
}

/// Whether a proof submission is accepted against a set of outstanding
/// challenges: the challenge it names is outstanding, scoped to the
/// submitted key, unexpired at `now`, and the nonce and result satisfy the
/// proof-of-work predicate at the challenge's salt and difficulty.
pub open spec fn proof_accepted(
    ch: Seq<ChallengeEntry>,
    string: Seq<char>,
    key: Seq<char>,
    nonce: u64,
    result: u128,
    now: u64,
) -> bool {
    &&& has_challenge(ch, string)
    &&& {
        let e = ch[challenge_index(ch, string)];
        &&& e.key@ == key
        &&& now < e.expiry
        &&& pow_ok(e.salt@, string, nonce, result, e.difficulty_factor)
    }
}

/// The protocol state: registered sites, outstanding challenges, and
/// outstanding validation tokens.
pub struct Captcha {
    sites: Vec<Site>,
    challenges: ChallengeRegistry,
    tokens: TokenStore,
}

impl Captcha {
    /// The registered sites.
    pub closed spec fn sites_view(self) -> Seq<Site> {
        self.sites@
    }

    /// The outstanding challenges.
    pub closed spec fn challenges_view(self) -> Seq<ChallengeEntry> {
        self.challenges@
    }

    /// The outstanding validation tokens.
    pub closed spec fn tokens_view(self) -> Seq<TokenEntry> {
        self.tokens@
    }

    /// The system invariant: each registry is keyed uniquely, and every
    /// outstanding challenge carries a positive difficulty.
    pub open spec fn wf(self) -> bool {
        &&& sites_unique(self.sites_view())
        &&& challenges_wf(self.challenges_view())
        &&& tokens_unique(self.tokens_view())
    }

    /// A fresh system with nothing registered and nothing outstanding.
    pub fn new() -> (r: Captcha)
        ensures
            r.wf(),
            r.sites_view() =~= Seq::<Site>::empty(),
            r.challenges_view() =~= Seq::<ChallengeEntry>::empty(),
            r.tokens_view() =~= Seq::<TokenEntry>::empty(),
    {
        Captcha { sites: Vec::new(), challenges: ChallengeRegistry::new(), tokens: TokenStore::new() }
    }

    /// The index of the site registered under `key`, if any.
    fn find_site(&self, key: &String) -> (r: Option<usize>)
        requires
            self.wf(),
        ensures
            r matches Some(i) ==> {
                &&& i < self.sites_view().len()
                &&& self.sites_view()[i as int].key@ == key@
                &&& has_site(self.sites_view(), key@)
                &&& site_index(self.sites_view(), key@) == i
            },
            r is None ==> !has_site(self.sites_view(), key@),
    {
        let n = self.sites.len();
        let mut i: usize = 0;
        while i < n
            invariant
                self.wf(),
                n == self.sites_view().len(),
                i <= n,
                forall|j: int| 0 <= j < i ==> self.sites_view()[j].key@ != key@,
            decreases n - i,
        {
            if self.sites[i].key == *key {
                proof {
                    assert(has_site(self.sites_view(), key@));
                    let j = site_index(self.sites_view(), key@);
                    assert(self.sites_view()[j].key@ == key@);
                    assert(j == i);
                }
                return Some(i);
            }
            i = i + 1;
        }
        proof {
            if has_site(self.sites_view(), key@) {
                let j = site_index(self.sites_view(), key@);
                assert(self.sites_view()[j].key@ != key@);
            }
        }
        None
    }

    /// Registers a site key with its threat level. Refuses a key that is
    /// already registered.
    pub fn add_site(&mut self, key: String, level: u32) -> (r: Result<(), CaptchaError>)
        requires
            old(self).wf(),
        ensures
            final(self).wf(),
            r is Ok <==> !has_site(old(self).sites_view(), key@),
            r is Ok ==> final(self).sites_view() == old(self).sites_view().push(
                Site { key, level },
            ),
            r is Err ==> *final(self) == *old(self) && r == Err::<(), CaptchaError>(
                CaptchaError::Configuration,
            ),
            final(self).challenges_view() == old(self).challenges_view(),
            final(self).tokens_view() == old(self).tokens_view(),
    {
        if self.find_site(&key).is_some() {
            return Err(CaptchaError::Configuration);
        }
        let ghost s0 = self.sites@;
        self.sites.push(Site { key, level });
        proof {
            assert forall|i: int, j: int|
                0 <= i < self.sites@.len() && 0 <= j < self.sites@.len() && i != j
                implies self.sites@[i].key@ != self.sites@[j].key@ by {
                if i < s0.len() && j < s0.len() {
                    assert(sites_unique(s0));
                } else if i == s0.len() {
                    assert(s0[j].key@ != self.sites@[i].key@);
                } else if j == s0.len() {
                    assert(s0[i].key@ != self.sites@[j].key@);
                }
            }
        }
        Ok(())
    }

    /// Issues a fresh challenge for a registered site key: a random salt, a
    /// random opaque string, and the difficulty factor mapped from the
    /// site's threat level. The challenge is recorded, scoped to the key,
    /// until it expires or a proof spends it. An unknown key is refused
    /// with the configuration error; in the negligible case that every
    /// random draw collides with an outstanding challenge string, the
    /// internal duplicate fault is reported and nothing changes. With no
    /// challenge outstanding no draw can collide, so there a registered
    /// key is owed success outright.
    pub fn get_pow_config(&mut self, key: &String, now: u64) -> (r: Result<
        PoWConfig,
        CaptchaError,
    >)
        requires
            old(self).wf(),
        ensures
            final(self).wf(),
            r == Err::<PoWConfig, CaptchaError>(CaptchaError::Configuration) <==> !has_site(
                old(self).sites_view(),
                key@,
            ),
            r is Err ==> *final(self) == *old(self) && (r == Err::<PoWConfig, CaptchaError>(
                CaptchaError::Configuration,
            ) || r == Err::<PoWConfig, CaptchaError>(CaptchaError::DuplicateToken)),
            has_site(old(self).sites_view(), key@) && old(self).challenges_view().len() == 0
                ==> r is Ok,
            r matches Ok(cfg) ==> ({
                let sites = old(self).sites_view();
                let ch0 = old(self).challenges_view();
                let ch1 = final(self).challenges_view();
                &&& final(self).sites_view() == sites
                &&& final(self).tokens_view() == old(self).tokens_view()
                &&& cfg.difficulty_factor == spec_difficulty_of_level(
                    sites[site_index(sites, key@)].level,
                )
                &&& cfg.difficulty_factor >= 1
                &&& cfg.string@.len() == RANDOM_STRING_LEN
                &&& cfg.salt@.len() == SALT_LEN
                &&& !has_challenge(ch0, cfg.string@)
                &&& ch1 == ch0.push(ch1.last())
                &&& ch1.last().string@ == cfg.string@
                &&& ch1.last().salt@ == cfg.salt@
                &&& ch1.last().difficulty_factor == cfg.difficulty_factor
                &&& ch1.last().key@ == key@
                &&& ch1.last().expiry == spec_expiry_at(now, CHALLENGE_LIFETIME_SECONDS)
            }),
    {
        let site_i = match self.find_site(key) {
            None => {
                return Err(CaptchaError::Configuration);
            },
            Some(i) => i,
        };
        let difficulty_factor = difficulty_of_level(self.sites[site_i].level);

        let mut string = random_alphanumeric(RANDOM_STRING_LEN);
        let mut fresh = !self.challenges.contains(&string);
        let mut attempts: usize = 0;
        while !fresh && attempts < MINT_ATTEMPTS
            invariant
                self.wf(),
                string@.len() == RANDOM_STRING_LEN,
                fresh == !has_challenge(self.challenges_view(), string@),
            decreases MINT_ATTEMPTS - attempts,
        {
            string = random_alphanumeric(RANDOM_STRING_LEN);
            fresh = !self.challenges.contains(&string);
            attempts = attempts + 1;
        }
        if !fresh {
            return Err(CaptchaError::DuplicateToken);
        }

        let salt = random_bytes(SALT_LEN);
        let mut salt_copy: Vec<u8> = Vec::new();
        push_all(&mut salt_copy, salt.as_slice());
        let expiry = expiry_after(now, CHALLENGE_LIFETIME_SECONDS);
        let entry = ChallengeEntry {
            string: string.clone(),
            salt,
            difficulty_factor,
            key: key.clone(),
            expiry,
        };
        match self.challenges.insert(entry) {
            Ok(()) => Ok(PoWConfig { string, salt: salt_copy, difficulty_factor }),
            Err(_) => Err(CaptchaError::DuplicateToken),
        }
    }

    /// Verifies a proof submission. Exactly the submissions accepted by
    /// [`proof_accepted`] — outstanding challenge, matching key, unexpired,
    /// proof-of-work predicate satisfied — are converted into a token; every
    /// other submission is rejected with the one generic proof error and
    /// changes nothing. On success the challenge is spent and a fresh
    /// random token, bound to the submitted key with a short fixed expiry,
    /// is recorded unconsumed; in the negligible case that every random
    /// draw collides with an outstanding token, the internal duplicate
    /// fault is reported and nothing changes. With no token outstanding no
    /// draw can collide, so there an accepted proof is owed its token
    /// outright.
    pub fn verify_pow(&mut self, work: &Work, now: u64) -> (r: Result<
        ValidationToken,
        CaptchaError,
    >)
        requires
            old(self).wf(),
        ensures
            final(self).wf(),
            r == Err::<ValidationToken, CaptchaError>(CaptchaError::InvalidProof) <==> !proof_accepted(
                old(self).challenges_view(),
                work.string@,
                work.key@,
                work.nonce,
                work.result,
                now,
            ),
            r is Err ==> *final(self) == *old(self) && (r == Err::<ValidationToken, CaptchaError>(
                CaptchaError::InvalidProof,
            ) || r == Err::<ValidationToken, CaptchaError>(CaptchaError::DuplicateToken)),
            proof_accepted(
                old(self).challenges_view(),
                work.string@,
                work.key@,
                work.nonce,
                work.result,
                now,
            ) && old(self).tokens_view().len() == 0 ==> r is Ok,
            r matches Ok(tok) ==> ({
                let ch0 = old(self).challenges_view();
                let ts0 = old(self).tokens_view();
                let ts1 = final(self).tokens_view();
                &&& proof_accepted(ch0, work.string@, work.key@, work.nonce, work.result, now)
                &&& final(self).sites_view() == old(self).sites_view()
                &&& final(self).challenges_view() == ch0.remove(challenge_index(ch0, work.string@))
                &&& !has_token(ts0, tok.token@)
                &&& tok.token@.len() == RANDOM_STRING_LEN
                &&& ts1 == ts0.push(ts1.last())
                &&& ts1.last().token@ == tok.token@
                &&& ts1.last().key@ == work.key@
                &&& ts1.last().expiry == spec_expiry_at(now, TOKEN_LIFETIME_SECONDS)
                &&& !ts1.last().consumed
            }),
    {
        let accepted = match self.challenges.get(&work.string) {
            None => false,
            Some(e) => {
                e.key == work.key && now < e.expiry && check_pow(
                    &e.salt,
                    work.string.as_str(),
                    work.nonce,
                    work.result,
                    e.difficulty_factor,
                )
            },
        };
        if !accepted {
            return Err(CaptchaError::InvalidProof);
        }

        let mut token = random_alphanumeric(RANDOM_STRING_LEN);
        let mut fresh = !self.tokens.contains(&token);
        let mut attempts: usize = 0;
        while !fresh && attempts < MINT_ATTEMPTS
            invariant
                self.wf(),
                token@.len() == RANDOM_STRING_LEN,
                fresh == !has_token(self.tokens_view(), token@),
            decreases MINT_ATTEMPTS - attempts,
        {
            token = random_alphanumeric(RANDOM_STRING_LEN);
            fresh = !self.tokens.contains(&token);
            attempts = attempts + 1;
        }
        if !fresh {
            return Err(CaptchaError::DuplicateToken);
        }

        match self.challenges.remove(&work.string) {
            None => Err(CaptchaError::InvalidProof),
            Some(_spent) => {
                let expiry = expiry_after(now, TOKEN_LIFETIME_SECONDS);
                match self.tokens.insert(token.clone(), work.key.clone(), expiry) {
                    Ok(()) => Ok(ValidationToken { token }),
                    Err(e) => Err(e),
                }
            },
        }
    }

    /// Redeems a validation token for a claimed site key: succeeds, and
    /// consumes the token, exactly when the token is outstanding,
    /// unconsumed, unexpired and bound to that key; otherwise answers
    /// `false` and changes nothing. No failure is distinguishable from any
    /// other.
    pub fn validate_verification_tokens(&mut self, payload: &VerifyCaptchaResult, now: u64) -> (valid:
        bool)
        requires
            old(self).wf(),
        ensures
            final(self).wf(),
            valid == redeemable(old(self).tokens_view(), payload.token@, payload.key@, now),
            valid ==> final(self).tokens_view() == consume_at(
                old(self).tokens_view(),
                payload.token@,
            ),
            final(self).sites_view() == old(self).sites_view(),
            final(self).challenges_view() == old(self).challenges_view(),
            !valid ==> *final(self) == *old(self),
    {
        self.tokens.consume_if_valid(&payload.token, &payload.key, now)
    }

    /// Answers a site operator's redemption claim with the bare boolean
    /// response — the whole redemption contract of
    /// [`Self::validate_verification_tokens`], wrapped for the wire.
    pub fn validate_captcha_token(&mut self, payload: &VerifyCaptchaResult, now: u64) -> (r:
        CaptchaValidateResp)
        requires
            old(self).wf(),
        ensures
            final(self).wf(),
            r.valid == redeemable(old(self).tokens_view(), payload.token@, payload.key@, now),
            r.valid ==> final(self).tokens_view() == consume_at(
                old(self).tokens_view(),
                payload.token@,
            ),
            final(self).sites_view() == old(self).sites_view(),
            final(self).challenges_view() == old(self).challenges_view(),
            !r.valid ==> *final(self) == *old(self),
    {
        let valid = self.validate_verification_tokens(payload, now);
        CaptchaValidateResp { valid }
    }
}

/// Resubmitting work against a spent challenge fails: once a proof is
/// accepted and its challenge removed, no submission naming the same
/// challenge string — whatever key, nonce, result or time it presents —
/// can be accepted against the state left behind. The first submission may
/// succeed; the second must not.
pub proof fn lemma_resubmission_rejected(
    ch: Seq<ChallengeEntry>,
    string: Seq<char>,
    key: Seq<char>,
    nonce: u64,
    result: u128,
    now: u64,
    key2: Seq<char>,
    nonce2: u64,
    result2: u128,
    now2: u64,
)
    requires
        challenges_wf(ch),
        proof_accepted(ch, string, key, nonce, result, now),
    ensures
        !proof_accepted(
            ch.remove(challenge_index(ch, string)),
            string,
            key2,
            nonce2,
            result2,
            now2,
        ),
{
    lemma_spent_challenge_gone(ch, string);
}

} // verus!
