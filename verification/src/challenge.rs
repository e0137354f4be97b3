//! The registry of outstanding challenges.
//!
//! A challenge is issued for a site key, lives until its expiry, and is
//! spent by the first proof verified against it. The registry keys
//! challenges by their opaque string; the proof verifier looks a submission
//! up by that string, and removes the challenge the moment a proof
//! succeeds, so the same challenge can never back two proofs.

use vstd::prelude::*;
use vstd::assert_by_contradiction;
use crate::errors::CaptchaError;

verus! {

/// One outstanding challenge: the opaque string that names it, the salt and
/// difficulty the proof must meet, the site key it is scoped to, and the
/// absolute expiry.
#[derive(Debug)]
pub struct ChallengeEntry {
    pub string: String,
    pub salt: Vec<u8>,
    pub difficulty_factor: u32,
    pub key: String,
    pub expiry: u64,
}

/// No two outstanding challenges carry the same string, and every
/// difficulty factor is positive.
pub open spec fn challenges_wf(s: Seq<ChallengeEntry>) -> bool {
    &&& forall|i: int, j: int|
        0 <= i < s.len() && 0 <= j < s.len() && i != j ==> s[i].string@ != s[j].string@
    &&& forall|i: int| 0 <= i < s.len() ==> #[trigger] s[i].difficulty_factor >= 1
}

/// Some outstanding challenge carries this string.
pub open spec fn has_challenge(s: Seq<ChallengeEntry>, string: Seq<char>) -> bool {
    exists|i: int| 0 <= i < s.len() && s[i].string@ == string
}

/// The index of the challenge carrying this string; meaningful when the
/// challenge is present and the registry is well-formed.
pub open spec fn challenge_index(s: Seq<ChallengeEntry>, string: Seq<char>) -> int {
    choose|i: int| 0 <= i < s.len() && s[i].string@ == string
}

/// The registry of challenges that have been issued and not yet spent.
pub struct ChallengeRegistry {
    entries: Vec<ChallengeEntry>,
}

impl View for ChallengeRegistry {
    type V = Seq<ChallengeEntry>;

    closed spec fn view(&self) -> Seq<ChallengeEntry> {
        self.entries@
    }
}

impl ChallengeRegistry {
    /// The registry invariant: strings are pairwise distinct and every
    /// difficulty factor is positive.
    pub open spec fn wf(self) -> bool {
        challenges_wf(self@)
    }

    /// An empty registry.
    pub fn new() -> (r: ChallengeRegistry)
        ensures
            r.wf(),
            r@ =~= Seq::<ChallengeEntry>::empty(),
    {
        ChallengeRegistry { entries: Vec::new() }
    }

    /// The index of the challenge carrying `string`, if any.
    fn find(&self, string: &String) -> (r: Option<usize>)
        requires
            self.wf(),
        ensures
            r matches Some(i) ==> {
                &&& i < self@.len()
                &&& self@[i as int].string@ == string@
                &&& has_challenge(self@, string@)
                &&& challenge_index(self@, string@) == i
            },
            r is None ==> !has_challenge(self@, string@),
    {
        let n = self.entries.len();
        let mut i: usize = 0;
        while i < n
            invariant
                self.wf(),
                n == self@.len(),
                i <= n,
                forall|j: int| 0 <= j < i ==> self@[j].string@ != string@,
            decreases n - i,
        {
            if self.entries[i].string == *string {
                proof {
                    assert(has_challenge(self@, string@));
                    let j = challenge_index(self@, string@);
                    assert(self@[j].string@ == string@);
                    assert(j == i);
                }
                return Some(i);
            }
            i = i + 1;
        }
        proof {
            assert_by_contradiction!(!has_challenge(self@, string@), {
                let j = challenge_index(self@, string@);
                assert(self@[j].string@ != string@);
            });
        }
        None
    }

    /// Whether a challenge with this string is outstanding.
    pub fn contains(&self, string: &String) -> (b: bool)
        requires
            self.wf(),
        ensures
            b == has_challenge(self@, string@),
    {
        self.find(string).is_some()
    }

    /// Records a freshly issued challenge. Refuses a string that is already
    /// outstanding; the issuer handles that by drawing a new random string.
    pub fn insert(&mut self, entry: ChallengeEntry) -> (r: Result<(), CaptchaError>)
        requires
            old(self).wf(),
            entry.difficulty_factor >= 1,
        ensures
            final(self).wf(),
            r is Ok <==> !has_challenge(old(self)@, entry.string@),
            r is Ok ==> final(self)@ == old(self)@.push(entry),
            r is Err ==> *final(self) == *old(self) && r == Err::<(), CaptchaError>(
                CaptchaError::DuplicateToken,
            ),
    {
        if self.find(&entry.string).is_some() {
            return Err(CaptchaError::DuplicateToken);
        }
        let ghost s0 = self.entries@;
        self.entries.push(entry);
        proof {
            assert forall|i: int, j: int|
                0 <= i < self.entries@.len() && 0 <= j < self.entries@.len() && i != j
                implies self.entries@[i].string@ != self.entries@[j].string@ by {
                if i < s0.len() && j < s0.len() {
                    assert(challenges_wf(s0));
                } else if i == s0.len() {
                    assert(s0[j].string@ != self.entries@[i].string@);
                } else if j == s0.len() {
                    assert(s0[i].string@ != self.entries@[j].string@);
                }
            }
        }
        Ok(())
    }

    /// Looks the challenge for `string` up and hands back a borrow of it.
    pub fn get(&self, string: &String) -> (r: Option<&ChallengeEntry>)
        requires
            self.wf(),
        ensures
            r matches Some(e) ==> {
                &&& has_challenge(self@, string@)
                &&& *e == self@[challenge_index(self@, string@)]
                &&& e.string@ == string@
            },
            r is None ==> !has_challenge(self@, string@),
    {
        match self.find(string) {
            Some(i) => Some(&self.entries[i]),
            None => None,
        }
    }

    /// Removes — spends — the challenge carrying `string`, if one is
    /// outstanding.
    pub fn remove(&mut self, string: &String) -> (r: Option<ChallengeEntry>)
        requires
            old(self).wf(),
        ensures
            final(self).wf(),
            r matches Some(e) ==> {
                &&& has_challenge(old(self)@, string@)
                &&& e == old(self)@[challenge_index(old(self)@, string@)]
                &&& final(self)@ == old(self)@.remove(challenge_index(old(self)@, string@))
            },
            r is None ==> !has_challenge(old(self)@, string@) && *final(self) == *old(self),
    {
        match self.find(string) {
            Some(i) => {
                let e = self.entries.remove(i);
                proof {
                    let s0 = old(self)@;
                    let s1 = self.entries@;
                    assert forall|p: int, q: int|
                        0 <= p < s1.len() && 0 <= q < s1.len() && p != q
                        implies s1[p].string@ != s1[q].string@ by {
                        let p0 = if p < i { p } else { p + 1 };
                        let q0 = if q < i { q } else { q + 1 };
                        assert(s1[p] == s0[p0]);
                        assert(s1[q] == s0[q0]);
                    }
                    assert forall|p: int| 0 <= p < s1.len()
                        implies #[trigger] s1[p].difficulty_factor >= 1 by {
                        let p0 = if p < i { p } else { p + 1 };
                        assert(s1[p] == s0[p0]);
                    }
                }
                Some(e)
            },
            None => None,
        }
    }
}

/// A challenge backs at most one proof: once the challenge named by a
/// string is spent, no submission naming the same string can be accepted,
/// because no outstanding challenge carries that string any more.
pub proof fn lemma_spent_challenge_gone(s: Seq<ChallengeEntry>, string: Seq<char>)
    requires
        challenges_wf(s),
        has_challenge(s, string),
    ensures
        !has_challenge(s.remove(challenge_index(s, string)), string),
{
    let i = challenge_index(s, string);
    let s1 = s.remove(i);
    assert_by_contradiction!(!has_challenge(s1, string), {
        let j = choose|j: int| 0 <= j < s1.len() && s1[j].string@ == string;
        let j0 = if j < i { j } else { j + 1 };
        assert(s1[j] == s[j0]);
        assert(s[j0].string@ == string);
        assert(s[i].string@ == string);
        assert(j0 != i);
    });
}

} // verus!
