//! The pending-authentication ledger.
//!
//! An out-of-band client cannot receive a browser redirect.  It instead
//! asks for an authorization URL and an opaque token, polls under that
//! token, and the callback handler fills the entry once the provider
//! redirects back.  The entry also carries the client's intent — login
//! or registration, with an optional invite code — as a structured
//! correlation record, recovered by lookup rather than parsed out of a
//! string.

use vstd::prelude::*;

use crate::sys::random_token;

verus! {

/// One in-progress out-of-band authentication.
#[derive(Debug)]
pub struct PendingAuth {
    /// Filled exactly once, when the provider redirects back.
    pub user_email: Option<String>,
    /// The invite code the registration intends to consume, if any.
    pub invite_code: Option<String>,
    /// Whether the client intends to register rather than log in.
    pub is_registration: bool,
}

impl Clone for PendingAuth {
    fn clone(&self) -> (res: Self)
        ensures
            res == *self,
    {
        PendingAuth {
            user_email: match &self.user_email {
                Some(e) => Some(e.clone()),
                None => None,
            },
            invite_code: match &self.invite_code {
                Some(c) => Some(c.clone()),
                None => None,
            },
            is_registration: self.is_registration,
        }
    }
}

/// A pending authentication under its opaque correlation token.
#[derive(Debug)]
pub struct PendingEntry {
    /// The opaque token the client polls under.
    pub token: String,
    /// The state of the authentication.
    pub auth: PendingAuth,
}

/// What a poll under an opaque token learns.
#[derive(Debug)]
pub enum PollStatus {
    /// No pending authentication under that token.
    NotFound,
    /// The browser round trip has not come back yet.
    Pending,
    /// The round trip finished; the email it established.
    Completed(String),
}

/// Whether some entry carries the given token.
pub open spec fn has_token(entries: Seq<PendingEntry>, token: Seq<char>) -> bool {
    exists|i: int| 0 <= i < entries.len() && #[trigger] entries[i].token@ == token
}

/// The entry carrying the given token, unique when the ledger is well
/// formed.
pub open spec fn entry_with_token(entries: Seq<PendingEntry>, token: Seq<char>) -> PendingEntry
    recommends
        has_token(entries, token),
{
    entries[choose|i: int| 0 <= i < entries.len() && #[trigger] entries[i].token@ == token]
}

/// The shared map of pending authentications.
pub struct PendingLedger {
    /// The open entries.
    pub entries: Vec<PendingEntry>,
}

impl PendingLedger {
    /// Well-formedness: tokens are unique.
    pub open spec fn wf(self) -> bool {
        forall|i: int, j: int|
            0 <= i < j < self.entries@.len() ==> #[trigger] self.entries@[i].token@
                != #[trigger] self.entries@[j].token@
    }

    /// An empty ledger.
    pub fn new() -> (r: PendingLedger)
        ensures
            r.wf(),
            r.entries@ == Seq::<PendingEntry>::empty(),
    {
        PendingLedger { entries: Vec::new() }
    }

    /// Any two entry indices carrying the same token coincide.
    proof fn lemma_token_unique(&self, i: int, j: int)
        requires
            self.wf(),
            0 <= i < self.entries@.len(),
            0 <= j < self.entries@.len(),
            self.entries@[i].token@ == self.entries@[j].token@,
        ensures
            i == j,
    {
        if i < j {
            assert(self.entries@[i].token@ != self.entries@[j].token@);
        } else if j < i {
            assert(self.entries@[j].token@ != self.entries@[i].token@);
        }
    }

    /// Open a pending authentication under a token drawn elsewhere, not
    /// yet filled, remembering the client's intent.  The entry enters
    /// exactly when no entry carries the token yet; a refusal changes
    /// nothing.
    pub fn insert_pending(
        &mut self,
        token: String,
        is_registration: bool,
        invite_code: Option<String>,
    ) -> (inserted: bool)
        requires
            old(self).wf(),
        ensures
            final(self).wf(),
            inserted <==> !has_token(old(self).entries@, token@),
            !inserted ==> *final(self) == *old(self),
            inserted ==> final(self).entries@ == old(self).entries@.push(
                (PendingEntry {
                    token,
                    auth: PendingAuth { user_email: None, invite_code, is_registration },
                }),
            ),
    {
        let n = self.entries.len();
        let mut i: usize = 0;
        while i < n
            invariant
                *self == *old(self),
                self.wf(),
                n == self.entries@.len(),
                0 <= i <= n,
                forall|j: int| 0 <= j < i ==> #[trigger] self.entries@[j].token@ != token@,
            decreases n - i,
        {
            if self.entries[i].token == token {
                return false;
            }
            i = i + 1;
        }
        self.entries.push(
            PendingEntry {
                token,
                auth: PendingAuth { user_email: None, invite_code, is_registration },
            },
        );
        proof {
            let olde = old(self).entries@;
            assert(forall|j: int| 0 <= j < olde.len() ==> self.entries@[j] == olde[j]);
        }
        true
    }

    /// Open a pending authentication under a fresh opaque token, not yet
    /// filled, remembering the client's intent.  The token is drawn at
    /// random, so success cannot be owed; the entry itself enters
    /// exactly when the drawn token is fresh, and a failure changes
    /// nothing.
    pub fn create_pending(&mut self, is_registration: bool, invite_code: Option<String>) -> (r:
        Option<String>)
        requires
            old(self).wf(),
        ensures
            final(self).wf(),
            r is None ==> *final(self) == *old(self),
            r matches Some(t) ==> {
                &&& t@.len() == 36
                &&& !has_token(old(self).entries@, t@)
                &&& final(self).entries@ == old(self).entries@.push(
                    PendingEntry {
                        token: t,
                        auth: PendingAuth { user_email: None, invite_code, is_registration },
                    },
                )
            },
    {
        let token = random_token();
        let result = token.clone();
        if self.insert_pending(token, is_registration, invite_code) {
            Some(result)
        } else {
            // the random draw collided with an open entry
            None
        }
    }

    /// Fill a pending authentication with the email the browser round
    /// trip established.  An entry is filled exactly once; a token with
    /// no entry, or one already filled, changes nothing.
    pub fn fill(&mut self, token: &str, email: &str) -> (filled: bool)
        requires
            old(self).wf(),
        ensures
            final(self).wf(),
            filled <==> has_token(old(self).entries@, token@) && entry_with_token(
                old(self).entries@,
                token@,
            ).auth.user_email is None,
            !filled ==> *final(self) == *old(self),
            filled ==> {
                &&& final(self).entries@.len() == old(self).entries@.len()
                &&& forall|i: int|
                    0 <= i < old(self).entries@.len() && #[trigger] old(self).entries@[i].token@
                        != token@ ==> final(self).entries@[i] == old(self).entries@[i]
                &&& forall|i: int|
                    0 <= i < old(self).entries@.len() && #[trigger] old(self).entries@[i].token@
                        == token@ ==> {
                        &&& final(self).entries@[i].token == old(self).entries@[i].token
                        &&& final(self).entries@[i].auth.invite_code == old(
                            self,
                        ).entries@[i].auth.invite_code
                        &&& final(self).entries@[i].auth.is_registration == old(
                            self,
                        ).entries@[i].auth.is_registration
                        &&& final(self).entries@[i].auth.user_email matches Some(e) && e@ == email@
                    }
            },
    {
        let target: String = token.to_owned();
        let n = self.entries.len();
        let mut i: usize = 0;
        while i < n
            invariant
                *self == *old(self),
                self.wf(),
                n == self.entries@.len(),
                0 <= i <= n,
                target@ == token@,
                forall|j: int| 0 <= j < i ==> #[trigger] self.entries@[j].token@ != token@,
            decreases n - i,
        {
            if self.entries[i].token == target {
                proof {
                    let k = choose|k: int|
                        0 <= k < self.entries@.len() && #[trigger] self.entries@[k].token@
                            == token@;
                    self.lemma_token_unique(i as int, k);
                }
                if self.entries[i].auth.user_email.is_some() {
                    return false;
                }
                self.entries[i].auth.user_email = Some(email.to_owned());
                proof {
                    let olde = old(self).entries@;
                    assert forall|j: int|
                        0 <= j < olde.len() && #[trigger] olde[j].token@ == token@ implies j == i
                        as int by {
                        old(self).lemma_token_unique(i as int, j);
                    }
                }
                return true;
            }
            i = i + 1;
        }
        false
    }

    /// Poll a pending authentication: absent, still pending, or finished
    /// with the email the round trip established.
    pub fn poll(&self, token: &str) -> (r: PollStatus)
        requires
            self.wf(),
        ensures
            r is NotFound <==> !has_token(self.entries@, token@),
            r is Pending <==> has_token(self.entries@, token@) && entry_with_token(
                self.entries@,
                token@,
            ).auth.user_email is None,
            r matches PollStatus::Completed(e) ==> has_token(self.entries@, token@) && (
            entry_with_token(self.entries@, token@).auth.user_email matches Some(em) && e@ == em@),
            has_token(self.entries@, token@) && entry_with_token(
                self.entries@,
                token@,
            ).auth.user_email is Some ==> r is Completed,
    {
        let target: String = token.to_owned();
        let n = self.entries.len();
        let mut i: usize = 0;
        while i < n
            invariant
                self.wf(),
                n == self.entries@.len(),
                0 <= i <= n,
                target@ == token@,
                forall|j: int| 0 <= j < i ==> #[trigger] self.entries@[j].token@ != token@,
            decreases n - i,
        {
            if self.entries[i].token == target {
                proof {
                    let k = choose|k: int|
                        0 <= k < self.entries@.len() && #[trigger] self.entries@[k].token@
                            == token@;
                    self.lemma_token_unique(i as int, k);
                }
                return match &self.entries[i].auth.user_email {
                    Some(e) => PollStatus::Completed(e.clone()),
                    None => PollStatus::Pending,
                };
            }
            i = i + 1;
        }
        PollStatus::NotFound
    }
}

} // verus!
