//! The validation-token store.
//!
//! A successful proof of work mints a single-use token bound to a site key
//! with an absolute expiry. The store maps each outstanding token to that
//! binding together with a consumed flag, and offers exactly two operations:
//! inserting a fresh token, and atomically checking-and-consuming one. A
//! token, once consumed, can never transition back to unconsumed; the lemmas
//! at the end of this file state the redemption laws over the model.

use vstd::prelude::*;
use vstd::assert_by_contradiction;
use crate::errors::CaptchaError;

verus! {

/// One outstanding validation token: the token itself, the site key it is
/// bound to, the absolute expiry, and whether it has been consumed.
#[derive(Debug)]
pub struct TokenEntry {
    pub token: String,
    pub key: String,
    pub expiry: u64,
    pub consumed: bool,
}

/// No two entries carry the same token.
pub open spec fn tokens_unique(s: Seq<TokenEntry>) -> bool {
    forall|i: int, j: int|
        0 <= i < s.len() && 0 <= j < s.len() && i != j ==> s[i].token@ != s[j].token@
}

/// Some entry carries this token.
pub open spec fn has_token(s: Seq<TokenEntry>, token: Seq<char>) -> bool {
    exists|i: int| 0 <= i < s.len() && s[i].token@ == token
}

/// The index of the entry carrying this token; meaningful when the token is
/// present and the entries are unique.
pub open spec fn token_index(s: Seq<TokenEntry>, token: Seq<char>) -> int {
    choose|i: int| 0 <= i < s.len() && s[i].token@ == token
}

/// Whether a redemption claim succeeds against this store state: the token
/// is present, still unconsumed, unexpired at `now`, and bound to exactly
/// the claimed key.
pub open spec fn redeemable(s: Seq<TokenEntry>, token: Seq<char>, key: Seq<char>, now: u64) -> bool {
    &&& has_token(s, token)
    &&& {
        let e = s[token_index(s, token)];
        &&& e.key@ == key
        &&& !e.consumed
        &&& now < e.expiry
    }
}

/// The store state after consuming this token: the one entry carrying it is
/// marked consumed, everything else is untouched.
pub open spec fn consume_at(s: Seq<TokenEntry>, token: Seq<char>) -> Seq<TokenEntry>
    recommends
        has_token(s, token),
{
    let i = token_index(s, token);
    s.update(
        i,
        TokenEntry { token: s[i].token, key: s[i].key, expiry: s[i].expiry, consumed: true },
    )
}

/// The mapping from token to (site key, expiry, consumed): written once per
/// successful proof, read-and-consumed by redemption. Exclusive access —
/// every operation takes the store by `&mut` — makes each call one atomic
/// step of the protocol's state machine; callers that share the store
/// serialize those steps behind a lock, and the lemmas below then hold along
/// any interleaving.
pub struct TokenStore {
    entries: Vec<TokenEntry>,
}

impl View for TokenStore {
    type V = Seq<TokenEntry>;

    closed spec fn view(&self) -> Seq<TokenEntry> {
        self.entries@
    }
}

impl TokenStore {
    /// The store invariant: outstanding tokens are pairwise distinct.
    pub open spec fn wf(self) -> bool {
        tokens_unique(self@)
    }

    /// An empty store.
    pub fn new() -> (r: TokenStore)
        ensures
            r.wf(),
            r@ =~= Seq::<TokenEntry>::empty(),
    {
        TokenStore { entries: Vec::new() }
    }

    /// The index of the entry carrying `token`, if any.
    fn find(&self, token: &String) -> (r: Option<usize>)
        requires
            self.wf(),
        ensures
            r matches Some(i) ==> {
                &&& i < self@.len()
                &&& self@[i as int].token@ == token@
                &&& has_token(self@, token@)
                &&& token_index(self@, token@) == i
            },
            r is None ==> !has_token(self@, token@),
    {
        let n = self.entries.len();
        let mut i: usize = 0;
        while i < n
            invariant
                self.wf(),
                n == self@.len(),
                i <= n,
                forall|j: int| 0 <= j < i ==> self@[j].token@ != token@,
            decreases n - i,
        {
            if self.entries[i].token == *token {
                proof {
                    assert(has_token(self@, token@));
                    let j = token_index(self@, token@);
                    assert(self@[j].token@ == token@);
                    assert(j == i);
                }
                return Some(i);
            }
            i = i + 1;
        }
        proof {
            assert_by_contradiction!(!has_token(self@, token@), {
                let j = token_index(self@, token@);
                assert(self@[j].token@ != token@);
            });
        }
        None
    }

    /// Whether a token is outstanding.
    pub fn contains(&self, token: &String) -> (b: bool)
        requires
            self.wf(),
        ensures
            b == has_token(self@, token@),
    {
        self.find(token).is_some()
    }

    /// Inserts a fresh token bound to `key`, expiring at `expiry`. Refuses a
    /// token that is already outstanding: such a collision is an internal
    /// fault, handled by drawing a new random token, never surfaced.
    pub fn insert(&mut self, token: String, key: String, expiry: u64) -> (r: Result<
        (),
        CaptchaError,
    >)
        requires
            old(self).wf(),
        ensures
            final(self).wf(),
            r is Ok <==> !has_token(old(self)@, token@),
            r is Ok ==> final(self)@ == old(self)@.push(
                TokenEntry { token, key, expiry, consumed: false },
            ),
            r is Err ==> *final(self) == *old(self) && r == Err::<(), CaptchaError>(
                CaptchaError::DuplicateToken,
            ),
    {
        if self.find(&token).is_some() {
            return Err(CaptchaError::DuplicateToken);
        }
        let ghost s0 = self.entries@;
        let entry = TokenEntry { token, key, expiry, consumed: false };
        self.entries.push(entry);
        proof {
            assert forall|i: int, j: int|
                0 <= i < self.entries@.len() && 0 <= j < self.entries@.len() && i != j
                implies self.entries@[i].token@ != self.entries@[j].token@ by {
                if i < s0.len() && j < s0.len() {
                    assert(tokens_unique(s0));
                } else if i == s0.len() {
                    assert(s0[j].token@ != self.entries@[i].token@);
                } else if j == s0.len() {
                    assert(s0[i].token@ != self.entries@[j].token@);
                }
            }
        }
        Ok(())
    }

    /// Atomically checks and consumes a token: succeeds, marking the token
    /// consumed, exactly when the claim is redeemable; otherwise answers
    /// `false` and changes nothing. Every failure — unknown token, wrong
    /// key, expired, already consumed — is the same `false`.
    pub fn consume_if_valid(&mut self, token: &String, claimed_key: &String, now: u64) -> (b: bool)
        requires
            old(self).wf(),
        ensures
            final(self).wf(),
            b == redeemable(old(self)@, token@, claimed_key@, now),
            b ==> final(self)@ == consume_at(old(self)@, token@),
            !b ==> *final(self) == *old(self),
    {
        let found = self.find(token);
        match found {
            None => false,
            Some(i) => {
                let hit = self.entries[i].key == *claimed_key && !self.entries[i].consumed
                    && now < self.entries[i].expiry;
                if hit {
                    let tok = self.entries[i].token.clone();
                    let bound_key = self.entries[i].key.clone();
                    let exp = self.entries[i].expiry;
                    self.entries[i] = TokenEntry {
                        token: tok,
                        key: bound_key,
                        expiry: exp,
                        consumed: true,
                    };
                    proof {
                        assert(self.entries@ =~= consume_at(old(self)@, token@));
                        assert forall|p: int, q: int|
                            0 <= p < self.entries@.len() && 0 <= q < self.entries@.len() && p != q
                            implies self.entries@[p].token@ != self.entries@[q].token@ by {
                            assert(self.entries@[p].token@ == old(self)@[p].token@);
                            assert(self.entries@[q].token@ == old(self)@[q].token@);
                        }
                    }
                    true
                } else {
                    false
                }
            },
        }
    }
}

/// A validation token can be consumed at most once: when a redemption claim
/// succeeds against a store state, no claim on the same token — whatever key
/// and time it presents — can succeed against the state that consumption
/// leaves behind. Concurrent redemptions race on one atomic
/// check-and-consume, so along any interleaving exactly one caller sees
/// success.
pub proof fn lemma_consume_at_most_once(
    s: Seq<TokenEntry>,
    token: Seq<char>,
    key1: Seq<char>,
    now1: u64,
    key2: Seq<char>,
    now2: u64,
)
    requires
        tokens_unique(s),
        redeemable(s, token, key1, now1),
    ensures
        !redeemable(consume_at(s, token), token, key2, now2),
{
    let i = token_index(s, token);
    let s2 = consume_at(s, token);
    assert(s2[i].consumed);
    if redeemable(s2, token, key2, now2) {
        let j = token_index(s2, token);
        assert(s2[j].token@ == token);
        assert(s2[j].token@ == s[j].token@);
        assert(j == i);
    }
}

/// Redeeming with the correct token but the wrong key fails, at any time:
/// the token stays bound to its own key, and since a failed redemption
/// changes nothing, a later claim with the right key still succeeds.
pub proof fn lemma_wrong_key_rejected(
    s: Seq<TokenEntry>,
    token: Seq<char>,
    key: Seq<char>,
    wrong_key: Seq<char>,
    now: u64,
    now2: u64,
)
    requires
        tokens_unique(s),
        redeemable(s, token, key, now),
        wrong_key != key,
    ensures
        !redeemable(s, token, wrong_key, now2),
{
}

/// A token whose entry is consumed is never redeemable, for any key and any
/// time: `consumed` is a terminal state.
pub proof fn lemma_consumed_never_redeemable(
    s: Seq<TokenEntry>,
    token: Seq<char>,
    key: Seq<char>,
    now: u64,
)
    requires
        has_token(s, token),
        s[token_index(s, token)].consumed,
    ensures
        !redeemable(s, token, key, now),
{
}

/// A token that is not in the store — unknown or plain garbage — is never
/// redeemable; the answer is the quiet `false`, never an error.
pub proof fn lemma_unknown_token_rejected(
    s: Seq<TokenEntry>,
    token: Seq<char>,
    key: Seq<char>,
    now: u64,
)
    requires
        !has_token(s, token),
    ensures
        !redeemable(s, token, key, now),
{
}

} // verus!
