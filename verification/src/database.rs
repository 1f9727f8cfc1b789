//! The credential store: the registry of users and of invite codes.
//!
//! The store is the authority for durable state.  Its rules are the core
//! of the gateway: the first user ever registered is the sole root and the
//! only user that starts with invite rights, later users enter only through
//! a one-time invite code, root users can never be deleted, and deleting a
//! user removes every invite code it created or consumed in the same step.
//!
//! Timestamps are seconds since the Unix epoch, as `i64`.

use vstd::prelude::*;

use crate::errors::AuthError;
use crate::sys::random_token;

verus! {

/// A registered user.
#[derive(Debug)]
pub struct RegisteredUser {
    /// Store-assigned identifier, unique and never reused.
    pub id: i64,
    /// Identifier at the external identity provider, unique.
    pub google_id: String,
    /// Email, unique, case-sensitive as stored.
    pub email: String,
    /// Display name.
    pub name: String,
    /// When the user registered.
    pub registered_at: i64,
    /// When the user last logged in, if ever.
    pub last_login: Option<i64>,
    /// Whether this is the root user: the first user ever registered.
    pub is_root: bool,
    /// Whether the user may create and manage invite codes.
    pub can_invite: bool,
    /// The user that invited this one, absent for the root user.
    pub invited_by: Option<i64>,
}

/// A one-time invite code.
#[derive(Debug)]
pub struct InviteCode {
    /// Store-assigned identifier, unique and never reused.
    pub id: i64,
    /// The random unguessable code itself, unique.
    pub code: String,
    /// The user that created the code.
    pub created_by: i64,
    /// When the code was created.
    pub created_at: i64,
    /// When the code stops being accepted, if ever.
    pub expires_at: Option<i64>,
    /// The user that consumed the code, once consumed.
    pub used_by: Option<i64>,
    /// When the code was consumed.
    pub used_at: Option<i64>,
    /// Cleared when a code is withdrawn; an expired code may stay marked
    /// active in storage and is still never accepted.
    pub is_active: bool,
}

impl Clone for RegisteredUser {
    fn clone(&self) -> (res: Self)
        ensures
            res == *self,
    {
        RegisteredUser {
            id: self.id,
            google_id: self.google_id.clone(),
            email: self.email.clone(),
            name: self.name.clone(),
            registered_at: self.registered_at,
            last_login: self.last_login,
            is_root: self.is_root,
            can_invite: self.can_invite,
            invited_by: self.invited_by,
        }
    }
}

impl Clone for InviteCode {
    fn clone(&self) -> (res: Self)
        ensures
            res == *self,
    {
        InviteCode {
            id: self.id,
            code: self.code.clone(),
            created_by: self.created_by,
            created_at: self.created_at,
            expires_at: self.expires_at,
            used_by: self.used_by,
            used_at: self.used_at,
            is_active: self.is_active,
        }
    }
}

/// Filtering a sequence keeps exactly the prefix filter plus the last
/// element, when that element passes the predicate.
proof fn lemma_filter_step<A>(s: Seq<A>, pred: spec_fn(A) -> bool, i: int)
    requires
        0 <= i < s.len(),
    ensures
        pred(s[i]) ==> s.take(i + 1).filter(pred) == s.take(i).filter(pred).push(s[i]),
        !pred(s[i]) ==> s.take(i + 1).filter(pred) == s.take(i).filter(pred),
{
    let t = s.take(i + 1);
    assert(t.drop_last() =~= s.take(i));
    assert(t.last() == s[i]);
    reveal(Seq::filter);
}

/// A filtered sequence is a subsequence: there is a strictly increasing
/// map from its positions back into the original sequence.
proof fn lemma_filter_is_subsequence<A>(s: Seq<A>, pred: spec_fn(A) -> bool) -> (m: Seq<int>)
    ensures
        m.len() == s.filter(pred).len(),
        forall|p: int, q: int| 0 <= p < q < m.len() ==> #[trigger] m[p] < #[trigger] m[q],
        forall|p: int|
            0 <= p < m.len() ==> 0 <= #[trigger] m[p] < s.len() && s.filter(pred)[p] == s[m[p]],
    decreases s.len(),
{
    reveal(Seq::filter);
    if s.len() == 0 {
        Seq::empty()
    } else {
        let m0 = lemma_filter_is_subsequence(s.drop_last(), pred);
        assert(forall|p: int|
            0 <= p < m0.len() ==> s.drop_last().filter(pred)[p] == s.drop_last()[#[trigger] m0[p]]);
        assert(forall|p: int|
            0 <= p < m0.len() ==> s.drop_last()[#[trigger] m0[p]] == s[m0[p]]);
        if pred(s.last()) {
            let m = m0.push(s.len() - 1);
            assert(s.filter(pred) == s.drop_last().filter(pred).push(s.last()));
            assert(forall|p: int|
                0 <= p < m.len() - 1 ==> #[trigger] m[p] == m0[p] && s.filter(pred)[p]
                    == s.drop_last().filter(pred)[p]);
            m
        } else {
            assert(s.filter(pred) == s.drop_last().filter(pred));
            m0
        }
    }
}

/// Whether some user in `users` has the given email.
pub open spec fn has_email(users: Seq<RegisteredUser>, email: Seq<char>) -> bool {
    exists|i: int| 0 <= i < users.len() && #[trigger] users[i].email@ == email
}

/// Whether some user in `users` has the given external identity id.
pub open spec fn has_google_id(users: Seq<RegisteredUser>, google_id: Seq<char>) -> bool {
    exists|i: int| 0 <= i < users.len() && #[trigger] users[i].google_id@ == google_id
}

/// Whether some user in `users` has the given identifier.
pub open spec fn has_user_id(users: Seq<RegisteredUser>, id: i64) -> bool {
    exists|i: int| 0 <= i < users.len() && #[trigger] users[i].id == id
}

/// The user in `users` with the given email, unique when the store is
/// well formed.
pub open spec fn user_with_email(users: Seq<RegisteredUser>, email: Seq<char>) -> RegisteredUser
    recommends
        has_email(users, email),
{
    users[choose|i: int| 0 <= i < users.len() && #[trigger] users[i].email@ == email]
}

/// The user in `users` with the given identifier, unique when the store
/// is well formed.
pub open spec fn user_with_id(users: Seq<RegisteredUser>, id: i64) -> RegisteredUser
    recommends
        has_user_id(users, id),
{
    users[choose|i: int| 0 <= i < users.len() && #[trigger] users[i].id == id]
}

/// Whether some invite code in `invites` reads `code`.
pub open spec fn has_code(invites: Seq<InviteCode>, code: Seq<char>) -> bool {
    exists|i: int| 0 <= i < invites.len() && #[trigger] invites[i].code@ == code
}

/// The invite in `invites` that reads `code`, unique when the store is
/// well formed.
pub open spec fn invite_with_code(invites: Seq<InviteCode>, code: Seq<char>) -> InviteCode
    recommends
        has_code(invites, code),
{
    invites[choose|i: int| 0 <= i < invites.len() && #[trigger] invites[i].code@ == code]
}

/// Whether an invite code is accepted at time `now`: still active, never
/// consumed, and not past its expiry.  An expired code is rejected no
/// matter what its active flag says.
pub open spec fn invite_usable(c: InviteCode, now: i64) -> bool {
    &&& c.is_active
    &&& c.used_by is None
    &&& match c.expires_at {
        Some(e) => now <= e,
        None => true,
    }
}

/// Whether `code` names an invite in `invites` that is accepted at `now`.
pub open spec fn has_usable_code(invites: Seq<InviteCode>, code: Seq<char>, now: i64) -> bool {
    exists|i: int|
        0 <= i < invites.len() && #[trigger] invites[i].code@ == code && invite_usable(
            invites[i],
            now,
        )
}

/// Whether `code` names an invite in `invites` that is already consumed.
pub open spec fn has_consumed_code(invites: Seq<InviteCode>, code: Seq<char>) -> bool {
    exists|i: int|
        0 <= i < invites.len() && #[trigger] invites[i].code@ == code && invites[i].used_by
            is Some
}

/// The credential store.
pub struct Database {
    /// The registered users, in order of registration.
    pub users: Vec<RegisteredUser>,
    /// Every invite code ever created and not cascaded away.
    pub invites: Vec<InviteCode>,
    /// The identifier the next registered user receives.
    pub next_user_id: i64,
    /// The identifier the next invite code receives.
    pub next_invite_id: i64,
}

impl Database {
    /// Well-formedness: the store's standing invariant.  Every operation
    /// requires it and every operation preserves it.
    pub open spec fn wf(self) -> bool {
        &&& 0 < self.next_user_id
        &&& 0 < self.next_invite_id
        &&& self.users@.len() < self.next_user_id
        &&& self.invites@.len() < self.next_invite_id
        // user identifiers are assigned from `next_user_id` and unique
        &&& forall|i: int|
            0 <= i < self.users@.len() ==> 0 < #[trigger] self.users@[i].id < self.next_user_id
        &&& forall|i: int, j: int|
            0 <= i < j < self.users@.len() ==> #[trigger] self.users@[i].id != #[trigger] self.users@[j].id
        // emails and external identity ids are unique
        &&& forall|i: int, j: int|
            0 <= i < j < self.users@.len() ==> #[trigger] self.users@[i].email@
                != #[trigger] self.users@[j].email@
        &&& forall|i: int, j: int|
            0 <= i < j < self.users@.len() ==> #[trigger] self.users@[i].google_id@
                != #[trigger] self.users@[j].google_id@
        // exactly the first user ever registered is root; it is never
        // deleted, so a root exists whenever any user does
        &&& forall|i: int, j: int|
            0 <= i < self.users@.len() && 0 <= j < self.users@.len() && #[trigger] self.users@[i].is_root
                && #[trigger] self.users@[j].is_root ==> i == j
        &&& self.users@.len() > 0 ==> exists|i: int|
            0 <= i < self.users@.len() && #[trigger] self.users@[i].is_root
        &&& forall|i: int|
            0 <= i < self.users@.len() && #[trigger] self.users@[i].is_root
                ==> self.users@[i].invited_by is None && self.users@[i].can_invite
        // invite identifiers are assigned from `next_invite_id` and unique
        &&& forall|i: int|
            0 <= i < self.invites@.len() ==> 0 < #[trigger] self.invites@[i].id
                < self.next_invite_id
        &&& forall|i: int, j: int|
            0 <= i < j < self.invites@.len() ==> #[trigger] self.invites@[i].id
                != #[trigger] self.invites@[j].id
        // invite codes are unique
        &&& forall|i: int, j: int|
            0 <= i < j < self.invites@.len() ==> #[trigger] self.invites@[i].code@
                != #[trigger] self.invites@[j].code@
        // creator and consumer always reference present users
        &&& forall|i: int|
            0 <= i < self.invites@.len() ==> has_user_id(
                self.users@,
                #[trigger] self.invites@[i].created_by,
            )
        &&& forall|i: int|
            0 <= i < self.invites@.len() && #[trigger] self.invites@[i].used_by is Some
                ==> has_user_id(self.users@, self.invites@[i].used_by->0)
                    && self.invites@[i].used_at is Some
    }

    /// A fresh, empty store.
    pub fn new() -> (db: Database)
        ensures
            db.wf(),
            db.users@ == Seq::<RegisteredUser>::empty(),
            db.invites@ == Seq::<InviteCode>::empty(),
            db.next_user_id == 1,
            db.next_invite_id == 1,
    {
        Database { users: Vec::new(), invites: Vec::new(), next_user_id: 1, next_invite_id: 1 }
    }

    /// How many users are registered.
    pub fn count_registered_users(&self) -> (n: i64)
        requires
            self.wf(),
        ensures
            n == self.users@.len(),
    {
        proof {
            assert(self.users@.len() < self.next_user_id <= i64::MAX);
        }
        self.users.len() as i64
    }

    /// Whether a user with this email exists.
    pub fn is_user_registered(&self, email: &str) -> (b: bool)
        requires
            self.wf(),
        ensures
            b == has_email(self.users@, email@),
    {
        let target: String = email.to_owned();
        let n = self.users.len();
        let mut i: usize = 0;
        while i < n
            invariant
                n == self.users@.len(),
                0 <= i <= n,
                target@ == email@,
                forall|j: int| 0 <= j < i ==> #[trigger] self.users@[j].email@ != email@,
            decreases n - i,
        {
            if self.users[i].email == target {
                return true;
            }
            i = i + 1;
        }
        false
    }

    /// Whether a user with this external identity id exists.
    pub fn is_google_id_registered(&self, google_id: &str) -> (b: bool)
        requires
            self.wf(),
        ensures
            b == has_google_id(self.users@, google_id@),
    {
        let target: String = google_id.to_owned();
        let n = self.users.len();
        let mut i: usize = 0;
        while i < n
            invariant
                n == self.users@.len(),
                0 <= i <= n,
                target@ == google_id@,
                forall|j: int| 0 <= j < i ==> #[trigger] self.users@[j].google_id@ != google_id@,
            decreases n - i,
        {
            if self.users[i].google_id == target {
                return true;
            }
            i = i + 1;
        }
        false
    }

    /// Any two user indices carrying the same email coincide.
    pub proof fn lemma_email_unique(&self, i: int, j: int)
        requires
            self.wf(),
            0 <= i < self.users@.len(),
            0 <= j < self.users@.len(),
            self.users@[i].email@ == self.users@[j].email@,
        ensures
            i == j,
    {
        if i < j {
            assert(self.users@[i].email@ != self.users@[j].email@);
        } else if j < i {
            assert(self.users@[j].email@ != self.users@[i].email@);
        }
    }

    /// Any two user indices carrying the same identifier coincide.
    pub proof fn lemma_user_id_unique(&self, i: int, j: int)
        requires
            self.wf(),
            0 <= i < self.users@.len(),
            0 <= j < self.users@.len(),
            self.users@[i].id == self.users@[j].id,
        ensures
            i == j,
    {
        if i < j {
            assert(self.users@[i].id != self.users@[j].id);
        } else if j < i {
            assert(self.users@[j].id != self.users@[i].id);
        }
    }

    /// The user with this email, if any.
    pub fn get_user_by_email(&self, email: &str) -> (r: Option<RegisteredUser>)
        requires
            self.wf(),
        ensures
            r matches Some(u) ==> has_email(self.users@, email@) && u == user_with_email(
                self.users@,
                email@,
            ),
            r is None <==> !has_email(self.users@, email@),
    {
        let target: String = email.to_owned();
        let n = self.users.len();
        let mut i: usize = 0;
        while i < n
            invariant
                self.wf(),
                n == self.users@.len(),
                0 <= i <= n,
                target@ == email@,
                forall|j: int| 0 <= j < i ==> #[trigger] self.users@[j].email@ != email@,
            decreases n - i,
        {
            if self.users[i].email == target {
                proof {
                    let k = choose|k: int|
                        0 <= k < self.users@.len() && #[trigger] self.users@[k].email@ == email@;
                    self.lemma_email_unique(i as int, k);
                }
                return Some(self.users[i].clone());
            }
            i = i + 1;
        }
        None
    }

    /// The user with this identifier, if any.
    pub fn get_user_by_id(&self, user_id: i64) -> (r: Option<RegisteredUser>)
        requires
            self.wf(),
        ensures
            r matches Some(u) ==> has_user_id(self.users@, user_id) && u == user_with_id(
                self.users@,
                user_id,
            ),
            r is None <==> !has_user_id(self.users@, user_id),
    {
        let n = self.users.len();
        let mut i: usize = 0;
        while i < n
            invariant
                self.wf(),
                n == self.users@.len(),
                0 <= i <= n,
                forall|j: int| 0 <= j < i ==> #[trigger] self.users@[j].id != user_id,
            decreases n - i,
        {
            if self.users[i].id == user_id {
                proof {
                    let k = choose|k: int|
                        0 <= k < self.users@.len() && #[trigger] self.users@[k].id == user_id;
                    self.lemma_user_id_unique(i as int, k);
                }
                return Some(self.users[i].clone());
            }
            i = i + 1;
        }
        None
    }

    /// Register a brand-new user.  The very first user ever registered
    /// becomes the root user, with invite rights and no inviter; every
    /// later user entering through this path is neither.
    pub fn register_user(&mut self, google_id: &str, email: &str, name: &str, now: i64) -> (r:
        Result<RegisteredUser, AuthError>)
        requires
            old(self).wf(),
        ensures
            final(self).wf(),
            r is Ok <==> !has_email(old(self).users@, email@) && !has_google_id(
                old(self).users@,
                google_id@,
            ) && old(self).next_user_id < i64::MAX,
            has_email(old(self).users@, email@) || has_google_id(old(self).users@, google_id@)
                ==> r == Err::<RegisteredUser, AuthError>(AuthError::AlreadyRegistered),
            !has_email(old(self).users@, email@) && !has_google_id(old(self).users@, google_id@)
                && old(self).next_user_id == i64::MAX ==> r == Err::<RegisteredUser, AuthError>(
                AuthError::Internal,
            ),
            r is Err ==> *final(self) == *old(self),
            r matches Ok(u) ==> {
                &&& u.id == old(self).next_user_id
                &&& u.google_id@ == google_id@
                &&& u.email@ == email@
                &&& u.name@ == name@
                &&& u.registered_at == now
                &&& u.last_login == Some(now)
                &&& u.is_root == (old(self).users@.len() == 0)
                &&& u.can_invite == (old(self).users@.len() == 0)
                &&& u.invited_by is None
                &&& final(self).users@ == old(self).users@.push(u)
                &&& final(self).invites@ == old(self).invites@
                &&& final(self).next_user_id == old(self).next_user_id + 1
                &&& final(self).next_invite_id == old(self).next_invite_id
            },
    {
        if self.is_user_registered(email) {
            return Err(AuthError::AlreadyRegistered);
        }
        let gid: String = google_id.to_owned();
        let n = self.users.len();
        let mut i: usize = 0;
        while i < n
            invariant
                self.wf(),
                n == self.users@.len(),
                0 <= i <= n,
                gid@ == google_id@,
                forall|j: int| 0 <= j < i ==> #[trigger] self.users@[j].google_id@ != google_id@,
            decreases n - i,
        {
            if self.users[i].google_id == gid {
                return Err(AuthError::AlreadyRegistered);
            }
            i = i + 1;
        }
        if self.next_user_id == i64::MAX {
            return Err(AuthError::Internal);
        }
        let is_first = self.users.len() == 0;
        let user = RegisteredUser {
            id: self.next_user_id,
            google_id: gid,
            email: email.to_owned(),
            name: name.to_owned(),
            registered_at: now,
            last_login: Some(now),
            is_root: is_first,
            can_invite: is_first,
            invited_by: None,
        };
        let result = user.clone();
        self.users.push(user);
        self.next_user_id = self.next_user_id + 1;
        proof {
            self.lemma_wf_after_user_push(*old(self));
        }
        Ok(result)
    }

    /// Register a user entering through a valid invite.  The new user is
    /// never root and starts without invite rights.
    pub fn register_invited_user(
        &mut self,
        google_id: &str,
        email: &str,
        name: &str,
        invited_by: i64,
        now: i64,
    ) -> (r: Result<RegisteredUser, AuthError>)
        requires
            old(self).wf(),
            has_user_id(old(self).users@, invited_by),
        ensures
            final(self).wf(),
            r is Ok <==> !has_email(old(self).users@, email@) && !has_google_id(
                old(self).users@,
                google_id@,
            ) && old(self).next_user_id < i64::MAX,
            has_email(old(self).users@, email@) || has_google_id(old(self).users@, google_id@)
                ==> r == Err::<RegisteredUser, AuthError>(AuthError::AlreadyRegistered),
            !has_email(old(self).users@, email@) && !has_google_id(old(self).users@, google_id@)
                && old(self).next_user_id == i64::MAX ==> r == Err::<RegisteredUser, AuthError>(
                AuthError::Internal,
            ),
            r is Err ==> *final(self) == *old(self),
            r matches Ok(u) ==> {
                &&& u.id == old(self).next_user_id
                &&& u.google_id@ == google_id@
                &&& u.email@ == email@
                &&& u.name@ == name@
                &&& u.registered_at == now
                &&& u.last_login == Some(now)
                &&& u.is_root == false
                &&& u.can_invite == false
                &&& u.invited_by == Some(invited_by)
                &&& final(self).users@ == old(self).users@.push(u)
                &&& final(self).invites@ == old(self).invites@
                &&& final(self).next_user_id == old(self).next_user_id + 1
                &&& final(self).next_invite_id == old(self).next_invite_id
            },
    {
        if self.is_user_registered(email) {
            return Err(AuthError::AlreadyRegistered);
        }
        let gid: String = google_id.to_owned();
        let n = self.users.len();
        let mut i: usize = 0;
        while i < n
            invariant
                self.wf(),
                n == self.users@.len(),
                0 <= i <= n,
                gid@ == google_id@,
                forall|j: int| 0 <= j < i ==> #[trigger] self.users@[j].google_id@ != google_id@,
            decreases n - i,
        {
            if self.users[i].google_id == gid {
                return Err(AuthError::AlreadyRegistered);
            }
            i = i + 1;
        }
        if self.next_user_id == i64::MAX {
            return Err(AuthError::Internal);
        }
        let user = RegisteredUser {
            id: self.next_user_id,
            google_id: gid,
            email: email.to_owned(),
            name: name.to_owned(),
            registered_at: now,
            last_login: Some(now),
            is_root: false,
            can_invite: false,
            invited_by: Some(invited_by),
        };
        let result = user.clone();
        self.users.push(user);
        self.next_user_id = self.next_user_id + 1;
        proof {
            self.lemma_wf_after_user_push(*old(self));
        }
        Ok(result)
    }

    /// Pushing one well-chosen user onto a well-formed store keeps it
    /// well formed.
    proof fn lemma_wf_after_user_push(&self, pre: Database)
        requires
            pre.wf(),
            self.users@.len() == pre.users@.len() + 1,
            self.users@ == pre.users@.push(self.users@.last()),
            self.invites@ == pre.invites@,
            self.next_user_id == pre.next_user_id + 1,
            self.next_invite_id == pre.next_invite_id,
            self.users@.last().id == pre.next_user_id,
            !has_email(pre.users@, self.users@.last().email@),
            !has_google_id(pre.users@, self.users@.last().google_id@),
            self.users@.last().is_root == (pre.users@.len() == 0),
            self.users@.last().is_root ==> self.users@.last().invited_by is None
                && self.users@.last().can_invite,
        ensures
            self.wf(),
    {
        let oldu = pre.users@;
        let newu = self.users@;
        let m = oldu.len() as int;
        assert(forall|i: int| 0 <= i < m ==> newu[i] == oldu[i]);
        assert forall|i: int|
            0 <= i < self.invites@.len() implies has_user_id(
            newu,
            #[trigger] self.invites@[i].created_by,
        ) by {
            let k = choose|k: int|
                0 <= k < oldu.len() && #[trigger] oldu[k].id == self.invites@[i].created_by;
            assert(newu[k].id == self.invites@[i].created_by);
        }
        assert forall|i: int|
            0 <= i < self.invites@.len() && #[trigger] self.invites@[i].used_by
                is Some implies has_user_id(newu, self.invites@[i].used_by->0) && self.invites@[i].used_at is Some by {
            let k = choose|k: int|
                0 <= k < oldu.len() && #[trigger] oldu[k].id == self.invites@[i].used_by->0;
            assert(newu[k].id == self.invites@[i].used_by->0);
        }
        if m > 0 {
            let k = choose|k: int| 0 <= k < m && #[trigger] oldu[k].is_root;
            assert(newu[k].is_root);
        }
    }

    /// Record a login: stamp `last_login` for the user with this email,
    /// if present; a miss changes nothing.
    pub fn update_last_login(&mut self, email: &str, now: i64)
        requires
            old(self).wf(),
        ensures
            final(self).wf(),
            final(self).users@.len() == old(self).users@.len(),
            forall|i: int|
                0 <= i < old(self).users@.len() && #[trigger] old(self).users@[i].email@ != email@
                    ==> final(self).users@[i] == old(self).users@[i],
            forall|i: int|
                0 <= i < old(self).users@.len() && #[trigger] old(self).users@[i].email@ == email@
                    ==> final(self).users@[i] == (RegisteredUser {
                    last_login: Some(now),
                    ..old(self).users@[i]
                }),
            final(self).invites@ == old(self).invites@,
            final(self).next_user_id == old(self).next_user_id,
            final(self).next_invite_id == old(self).next_invite_id,
    {
        let target: String = email.to_owned();
        let n = self.users.len();
        let mut i: usize = 0;
        while i < n
            invariant
                *self == *old(self),
                self.wf(),
                n == self.users@.len(),
                0 <= i <= n,
                target@ == email@,
                forall|j: int| 0 <= j < i ==> #[trigger] self.users@[j].email@ != email@,
            decreases n - i,
        {
            if self.users[i].email == target {
                self.users[i].last_login = Some(now);
                proof {
                    let newu = self.users@;
                    let oldu = old(self).users@;
                    assert forall|j: int|
                        0 <= j < oldu.len() && #[trigger] oldu[j].email@ == email@ implies newu[j]
                        == (RegisteredUser { last_login: Some(now), ..oldu[j] }) by {
                        old(self).lemma_email_unique(i as int, j);
                    }
                    assert forall|j: int|
                        0 <= j < self.invites@.len() implies has_user_id(
                        newu,
                        #[trigger] self.invites@[j].created_by,
                    ) by {
                        let k = choose|k: int|
                            0 <= k < oldu.len() && #[trigger] oldu[k].id
                                == self.invites@[j].created_by;
                        assert(newu[k].id == self.invites@[j].created_by);
                    }
                    assert forall|j: int|
                        0 <= j < self.invites@.len() && #[trigger] self.invites@[j].used_by
                            is Some implies has_user_id(newu, self.invites@[j].used_by->0)
                        && self.invites@[j].used_at is Some by {
                        let k = choose|k: int|
                            0 <= k < oldu.len() && #[trigger] oldu[k].id
                                == self.invites@[j].used_by->0;
                        assert(newu[k].id == self.invites@[j].used_by->0);
                    }
                    if oldu.len() > 0 {
                        let k = choose|k: int| 0 <= k < oldu.len() && #[trigger] oldu[k].is_root;
                        assert(newu[k].is_root);
                    }
                }
                return ;
            }
            i = i + 1;
        }
    }

    /// Delete a user, root users excepted.  A root user or a missing
    /// identifier leaves the store untouched.  A successful deletion
    /// also removes, in the same atomic step, every invite code that the
    /// user created or consumed.
    pub fn delete_user(&mut self, user_id: i64) -> (deleted: bool)
        requires
            old(self).wf(),
        ensures
            final(self).wf(),
            deleted <==> has_user_id(old(self).users@, user_id) && !user_with_id(
                old(self).users@,
                user_id,
            ).is_root,
            !deleted ==> *final(self) == *old(self),
            deleted ==> final(self).users@ == old(self).users@.filter(
                |u: RegisteredUser| u.id != user_id,
            ),
            deleted ==> final(self).invites@ == old(self).invites@.filter(
                |c: InviteCode| c.created_by != user_id && c.used_by != Some(user_id),
            ),
            final(self).next_user_id == old(self).next_user_id,
            final(self).next_invite_id == old(self).next_invite_id,
    {
        let target = self.get_user_by_id(user_id);
        let found = match target {
            None => {
                return false;
            },
            Some(u) => u,
        };
        if found.is_root {
            return false;
        }
        let ghost upred = |u: RegisteredUser| u.id != user_id;
        let ghost cpred = |c: InviteCode| c.created_by != user_id && c.used_by != Some(user_id);
        let mut new_users: Vec<RegisteredUser> = Vec::new();
        let n = self.users.len();
        let mut i: usize = 0;
        while i < n
            invariant
                *self == *old(self),
                self.wf(),
                n == self.users@.len(),
                0 <= i <= n,
                upred == (|u: RegisteredUser| u.id != user_id),
                new_users@ == self.users@.take(i as int).filter(upred),
            decreases n - i,
        {
            proof {
                lemma_filter_step(self.users@, upred, i as int);
            }
            if self.users[i].id != user_id {
                new_users.push(self.users[i].clone());
            }
            i = i + 1;
        }
        let mut new_invites: Vec<InviteCode> = Vec::new();
        let m = self.invites.len();
        let mut j: usize = 0;
        while j < m
            invariant
                *self == *old(self),
                self.wf(),
                m == self.invites@.len(),
                0 <= j <= m,
                cpred == (|c: InviteCode| c.created_by != user_id && c.used_by != Some(user_id)),
                new_invites@ == self.invites@.take(j as int).filter(cpred),
            decreases m - j,
        {
            proof {
                lemma_filter_step(self.invites@, cpred, j as int);
            }
            let keep = self.invites[j].created_by != user_id && match self.invites[j].used_by {
                Some(ub) => ub != user_id,
                None => true,
            };
            if keep {
                new_invites.push(self.invites[j].clone());
            }
            j = j + 1;
        }
        self.users = new_users;
        self.invites = new_invites;
        proof {
            let oldu = old(self).users@;
            let oldc = old(self).invites@;
            assert(oldu.take(oldu.len() as int) =~= oldu);
            assert(oldc.take(oldc.len() as int) =~= oldc);
            self.lemma_wf_after_delete(*old(self), user_id);
        }
        true
    }

    /// Removing one non-root user and every invite it touched keeps the
    /// store well formed.
    proof fn lemma_wf_after_delete(&self, pre: Database, user_id: i64)
        requires
            pre.wf(),
            has_user_id(pre.users@, user_id),
            !user_with_id(pre.users@, user_id).is_root,
            self.users@ == pre.users@.filter(|u: RegisteredUser| u.id != user_id),
            self.invites@ == pre.invites@.filter(
                |c: InviteCode| c.created_by != user_id && c.used_by != Some(user_id),
            ),
            self.next_user_id == pre.next_user_id,
            self.next_invite_id == pre.next_invite_id,
        ensures
            self.wf(),
    {
        broadcast use vstd::seq_lib::group_filter_ensures;

        let upred = |u: RegisteredUser| u.id != user_id;
        let cpred = |c: InviteCode| c.created_by != user_id && c.used_by != Some(user_id);
        let oldu = pre.users@;
        let oldc = pre.invites@;
        let mu = lemma_filter_is_subsequence(oldu, upred);
        let mc = lemma_filter_is_subsequence(oldc, cpred);
        assert(self.users@.len() <= oldu.len());
        assert(self.invites@.len() <= oldc.len());
        // pairwise facts fall out of the strictly increasing index map
        assert(forall|p: int|
            0 <= p < self.users@.len() ==> #[trigger] self.users@[p] == oldu[mu[p]]);
        assert(forall|p: int|
            0 <= p < self.invites@.len() ==> #[trigger] self.invites@[p] == oldc[mc[p]]);
        // a root user survives whenever any user does
        if self.users@.len() > 0 {
            assert(oldu.len() > 0);
            let k = choose|k: int| 0 <= k < oldu.len() && #[trigger] oldu[k].is_root;
            let t = choose|t: int| 0 <= t < oldu.len() && #[trigger] oldu[t].id == user_id;
            assert(oldu[t] == user_with_id(pre.users@, user_id));
            if oldu[k].id == user_id {
                pre.lemma_user_id_unique(k, t);
            }
            assert(upred(oldu[k]));
            assert(self.users@.contains(oldu[k]));
            let p = choose|p: int| 0 <= p < self.users@.len() && self.users@[p] == oldu[k];
            assert(self.users@[p].is_root);
        }
        // surviving invites still reference surviving users
        assert forall|p: int|
            0 <= p < self.invites@.len() implies has_user_id(
            self.users@,
            #[trigger] self.invites@[p].created_by,
        ) by {
            let cb = self.invites@[p].created_by;
            assert(cpred(oldc[mc[p]]));
            assert(cb != user_id);
            let k = choose|k: int| 0 <= k < oldu.len() && #[trigger] oldu[k].id == cb;
            assert(upred(oldu[k]));
            assert(self.users@.contains(oldu[k]));
            let q = choose|q: int| 0 <= q < self.users@.len() && self.users@[q] == oldu[k];
            assert(self.users@[q].id == cb);
        }
        assert forall|p: int|
            0 <= p < self.invites@.len() && #[trigger] self.invites@[p].used_by
                is Some implies has_user_id(self.users@, self.invites@[p].used_by->0)
            && self.invites@[p].used_at is Some by {
            let ub = self.invites@[p].used_by->0;
            assert(cpred(oldc[mc[p]]));
            assert(ub != user_id);
            let k = choose|k: int| 0 <= k < oldu.len() && #[trigger] oldu[k].id == ub;
            assert(upred(oldu[k]));
            assert(self.users@.contains(oldu[k]));
            let q = choose|q: int| 0 <= q < self.users@.len() && self.users@[q] == oldu[k];
            assert(self.users@[q].id == ub);
        }
    }

    /// Any two invite indices carrying the same code coincide.
    pub proof fn lemma_code_unique(&self, i: int, j: int)
        requires
            self.wf(),
            0 <= i < self.invites@.len(),
            0 <= j < self.invites@.len(),
            self.invites@[i].code@ == self.invites@[j].code@,
        ensures
            i == j,
    {
        if i < j {
            assert(self.invites@[i].code@ != self.invites@[j].code@);
        } else if j < i {
            assert(self.invites@[j].code@ != self.invites@[i].code@);
        }
    }

    /// Record an invite code whose text was drawn elsewhere: it enters
    /// active, unconsumed, expiring at `expires_at` if that is set.
    /// The insertion succeeds exactly when the code is fresh and an
    /// identifier is left to assign; a refusal changes nothing.
    pub fn insert_invite(
        &mut self,
        code: String,
        created_by: i64,
        now: i64,
        expires_at: Option<i64>,
    ) -> (r: Result<InviteCode, AuthError>)
        requires
            old(self).wf(),
            has_user_id(old(self).users@, created_by),
        ensures
            final(self).wf(),
            r is Ok <==> !has_code(old(self).invites@, code@) && old(self).next_invite_id
                < i64::MAX,
            r matches Err(e) ==> e == AuthError::Internal && *final(self) == *old(self),
            r matches Ok(c) ==> {
                &&& c.id == old(self).next_invite_id
                &&& c.code@ == code@
                &&& !has_code(old(self).invites@, c.code@)
                &&& c.created_by == created_by
                &&& c.created_at == now
                &&& c.expires_at == expires_at
                &&& c.used_by is None
                &&& c.used_at is None
                &&& c.is_active
                &&& final(self).invites@ == old(self).invites@.push(c)
                &&& final(self).users@ == old(self).users@
                &&& final(self).next_invite_id == old(self).next_invite_id + 1
                &&& final(self).next_user_id == old(self).next_user_id
            },
    {
        if self.next_invite_id == i64::MAX {
            return Err(AuthError::Internal);
        }
        let m = self.invites.len();
        let mut i: usize = 0;
        while i < m
            invariant
                *self == *old(self),
                self.wf(),
                m == self.invites@.len(),
                0 <= i <= m,
                forall|j: int| 0 <= j < i ==> #[trigger] self.invites@[j].code@ != code@,
            decreases m - i,
        {
            if self.invites[i].code == code {
                // the random draw collided with an existing code
                return Err(AuthError::Internal);
            }
            i = i + 1;
        }
        let invite = InviteCode {
            id: self.next_invite_id,
            code,
            created_by,
            created_at: now,
            expires_at,
            used_by: None,
            used_at: None,
            is_active: true,
        };
        let result = invite.clone();
        self.invites.push(invite);
        self.next_invite_id = self.next_invite_id + 1;
        proof {
            let oldc = old(self).invites@;
            let newc = self.invites@;
            assert(forall|j: int| 0 <= j < oldc.len() ==> newc[j] == oldc[j]);
            assert forall|j: int|
                0 <= j < newc.len() implies has_user_id(
                self.users@,
                #[trigger] newc[j].created_by,
            ) by {
                if j < oldc.len() {
                    assert(has_user_id(self.users@, oldc[j].created_by));
                }
            }
        }
        Ok(result)
    }

    /// Create a one-time invite code on behalf of `created_by`: a fresh
    /// random code, active, unconsumed, expiring at `expires_at` if
    /// that is set.  The code is drawn at random, so success cannot be
    /// owed; short of the draw itself everything is: an exhausted
    /// identifier counter is the one library-side refusal, and a
    /// failure of any kind changes nothing.
    pub fn create_invite_code(&mut self, created_by: i64, now: i64, expires_at: Option<i64>) -> (r:
        Result<InviteCode, AuthError>)
        requires
            old(self).wf(),
            has_user_id(old(self).users@, created_by),
        ensures
            final(self).wf(),
            old(self).next_invite_id == i64::MAX ==> r is Err,
            r matches Err(e) ==> e == AuthError::Internal && *final(self) == *old(self),
            r matches Ok(c) ==> {
                &&& c.id == old(self).next_invite_id
                &&& c.code@.len() == 36
                &&& !has_code(old(self).invites@, c.code@)
                &&& c.created_by == created_by
                &&& c.created_at == now
                &&& c.expires_at == expires_at
                &&& c.used_by is None
                &&& c.used_at is None
                &&& c.is_active
                &&& final(self).invites@ == old(self).invites@.push(c)
                &&& final(self).users@ == old(self).users@
                &&& final(self).next_invite_id == old(self).next_invite_id + 1
                &&& final(self).next_user_id == old(self).next_user_id
            },
    {
        let code = random_token();
        self.insert_invite(code, created_by, now, expires_at)
    }

    /// Look an invite code up for registration.  The record comes back
    /// only if the code exists, is still active, was never consumed and
    /// is not past its expiry; an expired code is not found, no matter
    /// what its active flag says.
    pub fn validate_invite_code(&self, code: &str, now: i64) -> (r: Option<InviteCode>)
        requires
            self.wf(),
        ensures
            r matches Some(c) ==> has_code(self.invites@, code@) && c == invite_with_code(
                self.invites@,
                code@,
            ) && invite_usable(c, now),
            r is Some <==> has_usable_code(self.invites@, code@, now),
    {
        let target: String = code.to_owned();
        let m = self.invites.len();
        let mut i: usize = 0;
        while i < m
            invariant
                self.wf(),
                m == self.invites@.len(),
                0 <= i <= m,
                target@ == code@,
                forall|j: int| 0 <= j < i ==> #[trigger] self.invites@[j].code@ != code@,
            decreases m - i,
        {
            if self.invites[i].code == target {
                proof {
                    let k = choose|k: int|
                        0 <= k < self.invites@.len() && #[trigger] self.invites@[k].code@ == code@;
                    self.lemma_code_unique(i as int, k);
                    assert forall|j: int|
                        0 <= j < self.invites@.len() && #[trigger] self.invites@[j].code@ == code@
                            implies j == i as int by {
                        self.lemma_code_unique(i as int, j);
                    }
                }
                let c = &self.invites[i];
                let usable = c.is_active && c.used_by.is_none() && match c.expires_at {
                    Some(e) => now <= e,
                    None => true,
                };
                if usable {
                    return Some(c.clone());
                }
                return None;
            }
            i = i + 1;
        }
        None
    }

    /// Consume an invite code: a conditional update that succeeds only
    /// if the code exists and was never consumed, and then stamps the
    /// consumer and the time in one step.  Two registrations can never
    /// both consume the same code.
    pub fn use_invite_code(&mut self, code: &str, used_by: i64, now: i64) -> (consumed: bool)
        requires
            old(self).wf(),
            has_user_id(old(self).users@, used_by),
        ensures
            final(self).wf(),
            consumed <==> has_code(old(self).invites@, code@) && invite_with_code(
                old(self).invites@,
                code@,
            ).used_by is None,
            !consumed ==> *final(self) == *old(self),
            consumed ==> {
                &&& final(self).invites@.len() == old(self).invites@.len()
                &&& forall|i: int|
                    0 <= i < old(self).invites@.len() && #[trigger] old(self).invites@[i].code@
                        != code@ ==> final(self).invites@[i] == old(self).invites@[i]
                &&& forall|i: int|
                    0 <= i < old(self).invites@.len() && #[trigger] old(self).invites@[i].code@
                        == code@ ==> final(self).invites@[i] == (InviteCode {
                        used_by: Some(used_by),
                        used_at: Some(now),
                        ..old(self).invites@[i]
                    })
                &&& final(self).users@ == old(self).users@
                &&& final(self).next_user_id == old(self).next_user_id
                &&& final(self).next_invite_id == old(self).next_invite_id
            },
    {
        let target: String = code.to_owned();
        let m = self.invites.len();
        let mut i: usize = 0;
        while i < m
            invariant
                *self == *old(self),
                self.wf(),
                has_user_id(old(self).users@, used_by),
                m == self.invites@.len(),
                0 <= i <= m,
                target@ == code@,
                forall|j: int| 0 <= j < i ==> #[trigger] self.invites@[j].code@ != code@,
            decreases m - i,
        {
            if self.invites[i].code == target {
                proof {
                    let k = choose|k: int|
                        0 <= k < self.invites@.len() && #[trigger] self.invites@[k].code@ == code@;
                    self.lemma_code_unique(i as int, k);
                }
                if self.invites[i].used_by.is_some() {
                    return false;
                }
                self.invites[i].used_by = Some(used_by);
                self.invites[i].used_at = Some(now);
                proof {
                    let oldc = old(self).invites@;
                    let newc = self.invites@;
                    assert forall|j: int|
                        0 <= j < oldc.len() && #[trigger] oldc[j].code@ == code@ implies newc[j]
                        == (InviteCode {
                        used_by: Some(used_by),
                        used_at: Some(now),
                        ..oldc[j]
                    }) by {
                        old(self).lemma_code_unique(i as int, j);
                    }
                    assert forall|j: int|
                        0 <= j < newc.len() implies has_user_id(
                        self.users@,
                        #[trigger] newc[j].created_by,
                    ) by {
                        assert(has_user_id(self.users@, oldc[j].created_by));
                    }
                    assert forall|j: int|
                        0 <= j < newc.len() && #[trigger] newc[j].used_by is Some implies has_user_id(
                        self.users@,
                        newc[j].used_by->0,
                    ) && newc[j].used_at is Some by {
                        if j == i as int {
                            assert(newc[j].used_by->0 == used_by);
                            assert(self.users@ == old(self).users@);
                            let w = choose|w: int|
                                0 <= w < old(self).users@.len() && #[trigger] old(
                                    self,
                                ).users@[w].id == used_by;
                            assert(self.users@[w].id == used_by);
                            assert(has_user_id(self.users@, used_by));
                        } else {
                            assert(newc[j] == oldc[j]);
                            assert(has_user_id(self.users@, oldc[j].used_by->0));
                        }
                    }
                }
                return true;
            }
            i = i + 1;
        }
        false
    }
}

/// Whether a user listing is ordered most-recently-registered first.
pub open spec fn sorted_by_registered_desc(s: Seq<RegisteredUser>) -> bool {
    forall|i: int, j: int|
        0 <= i < j < s.len() ==> #[trigger] s[i].registered_at >= #[trigger] s[j].registered_at
}

/// Whether an invite listing is ordered most-recently-created first.
pub open spec fn sorted_by_created_desc(s: Seq<InviteCode>) -> bool {
    forall|i: int, j: int|
        0 <= i < j < s.len() ==> #[trigger] s[i].created_at >= #[trigger] s[j].created_at
}

impl Database {
    /// Every registered user, most recently registered first.
    pub fn get_all_registered_users(&self) -> (r: Vec<RegisteredUser>)
        requires
            self.wf(),
        ensures
            r@.to_multiset() == self.users@.to_multiset(),
            sorted_by_registered_desc(r@),
    {
        let n = self.users.len();
        let mut out: Vec<RegisteredUser> = Vec::new();
        let mut i: usize = 0;
        proof {
            assert(self.users@.take(0) =~= out@);
        }
        while i < n
            invariant
                self.wf(),
                n == self.users@.len(),
                0 <= i <= n,
                out@.to_multiset() == self.users@.take(i as int).to_multiset(),
                sorted_by_registered_desc(out@),
            decreases n - i,
        {
            let u = self.users[i].clone();
            let k = out.len();
            let mut p: usize = 0;
            while p < k && out[p].registered_at >= u.registered_at
                invariant
                    k == out@.len(),
                    0 <= p <= k,
                    forall|q: int| 0 <= q < p ==> #[trigger] out@[q].registered_at >= u.registered_at,
                    sorted_by_registered_desc(out@),
                decreases k - p,
            {
                p = p + 1;
            }
            proof {
                assert(p == out@.len() || out@[p as int].registered_at < u.registered_at);
            }
            let ghost prev = out@;
            out.insert(p, u);
            proof {
                prev.insert_ensures(p as int, u);
                vstd::seq_lib::to_multiset_insert(prev, p as int, u);
                let s = self.users@;
                assert(s.take(i + 1) =~= s.take(i as int).push(s[i as int]));
                vstd::seq_lib::to_multiset_build(s.take(i as int), s[i as int]);
                assert(out@.to_multiset() == s.take(i + 1).to_multiset());
                assert forall|a: int, b: int|
                    0 <= a < b < out@.len() implies #[trigger] out@[a].registered_at
                    >= #[trigger] out@[b].registered_at by {
                    if b < p {
                        assert(out@[a] == prev[a] && out@[b] == prev[b]);
                    } else if a < p && b == p {
                        assert(out@[a] == prev[a]);
                    } else if a < p && b > p {
                        assert(out@[a] == prev[a] && out@[b] == prev[b - 1]);
                        if p < prev.len() {
                            assert(prev[p as int].registered_at < u.registered_at);
                        }
                    } else if a == p && b > p {
                        assert(out@[b] == prev[b - 1]);
                        assert(prev[p as int].registered_at < u.registered_at);
                        assert(prev[b - 1].registered_at <= prev[p as int].registered_at);
                    } else {
                        assert(out@[a] == prev[a - 1] && out@[b] == prev[b - 1]);
                    }
                }
            }
            i = i + 1;
        }
        proof {
            assert(self.users@.take(n as int) =~= self.users@);
        }
        out
    }

    /// Every invite code created by `user_id`, most recently created
    /// first.
    pub fn get_invite_codes_by_user(&self, user_id: i64) -> (r: Vec<InviteCode>)
        requires
            self.wf(),
        ensures
            r@.to_multiset() == self.invites@.filter(
                |c: InviteCode| c.created_by == user_id,
            ).to_multiset(),
            sorted_by_created_desc(r@),
            forall|i: int| 0 <= i < r@.len() ==> #[trigger] r@[i].created_by == user_id,
    {
        let ghost cpred = |c: InviteCode| c.created_by == user_id;
        let n = self.invites.len();
        let mut out: Vec<InviteCode> = Vec::new();
        let mut i: usize = 0;
        proof {
            reveal(Seq::filter);
            assert(self.invites@.take(0) =~= Seq::<InviteCode>::empty());
            assert(self.invites@.take(0).filter(cpred) =~= out@);
        }
        while i < n
            invariant
                self.wf(),
                n == self.invites@.len(),
                0 <= i <= n,
                cpred == (|c: InviteCode| c.created_by == user_id),
                out@.to_multiset() == self.invites@.take(i as int).filter(cpred).to_multiset(),
                sorted_by_created_desc(out@),
                forall|q: int| 0 <= q < out@.len() ==> #[trigger] out@[q].created_by == user_id,
            decreases n - i,
        {
            proof {
                lemma_filter_step(self.invites@, cpred, i as int);
            }
            if self.invites[i].created_by == user_id {
                let c = self.invites[i].clone();
                let k = out.len();
                let mut p: usize = 0;
                while p < k && out[p].created_at >= c.created_at
                    invariant
                        k == out@.len(),
                        0 <= p <= k,
                        forall|q: int| 0 <= q < p ==> #[trigger] out@[q].created_at >= c.created_at,
                        sorted_by_created_desc(out@),
                    decreases k - p,
                {
                    p = p + 1;
                }
                proof {
                    assert(p == out@.len() || out@[p as int].created_at < c.created_at);
                }
                let ghost prev = out@;
                out.insert(p, c);
                proof {
                    prev.insert_ensures(p as int, c);
                    vstd::seq_lib::to_multiset_insert(prev, p as int, c);
                    let pre = self.invites@.take(i as int).filter(cpred);
                    vstd::seq_lib::to_multiset_build(pre, self.invites@[i as int]);
                    assert(out@.to_multiset() == self.invites@.take(i + 1).filter(
                        cpred,
                    ).to_multiset());
                    assert forall|a: int, b: int|
                        0 <= a < b < out@.len() implies #[trigger] out@[a].created_at
                        >= #[trigger] out@[b].created_at by {
                        if b < p {
                            assert(out@[a] == prev[a] && out@[b] == prev[b]);
                        } else if a < p && b == p {
                            assert(out@[a] == prev[a]);
                        } else if a < p && b > p {
                            assert(out@[a] == prev[a] && out@[b] == prev[b - 1]);
                            assert(prev[p as int].created_at < c.created_at);
                        } else if a == p && b > p {
                            assert(out@[b] == prev[b - 1]);
                            assert(prev[p as int].created_at < c.created_at);
                            assert(prev[b - 1].created_at <= prev[p as int].created_at);
                        } else {
                            assert(out@[a] == prev[a - 1] && out@[b] == prev[b - 1]);
                        }
                    }
                }
            }
            i = i + 1;
        }
        proof {
            assert(self.invites@.take(n as int) =~= self.invites@);
        }
        out
    }
}

/// A consumed invite code is spent for good: it can neither pass
/// validation nor be consumed a second time, at any later moment.  Of
/// two registrations racing for one code, the one serialized second
/// therefore observes an invalid invite.
pub proof fn lemma_invite_single_use(db: Database, code: Seq<char>, now: i64)
    requires
        db.wf(),
        has_consumed_code(db.invites@, code),
    ensures
        !has_usable_code(db.invites@, code, now),
        has_code(db.invites@, code) ==> invite_with_code(db.invites@, code).used_by is Some,
{
    let k = choose|k: int|
        0 <= k < db.invites@.len() && #[trigger] db.invites@[k].code@ == code && db.invites@[k].used_by
            is Some;
    assert forall|j: int|
        0 <= j < db.invites@.len() && #[trigger] db.invites@[j].code@ == code implies db.invites@[j].used_by
        is Some by {
        db.lemma_code_unique(k, j);
    }
}

/// An invite code whose expiry lies in the past is never usable, no
/// matter what its active flag says.
pub proof fn lemma_expired_invite_rejected(c: InviteCode, now: i64)
    requires
        c.expires_at matches Some(e) && e < now,
    ensures
        !invite_usable(c, now),
{
}

} // verus!
