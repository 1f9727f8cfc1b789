//! The registration/login state machine and the gated request handlers.
//!
//! Each function here decides one request from the store's current
//! content and the request's plain inputs, and says in its contract
//! exactly which outcome every input receives.  The identity-provider
//! exchange itself — trading an authorization code for a profile — is
//! wire work and stays outside; these functions take over at the point
//! where the profile, or the bearer token, is in hand.

use vstd::prelude::*;

use crate::database::has_code;
use crate::database::has_email;
use crate::database::has_google_id;
use crate::database::has_usable_code;
use crate::database::has_user_id;
use crate::database::invite_with_code;
use crate::database::sorted_by_created_desc;
use crate::database::sorted_by_registered_desc;
use crate::database::user_with_email;
use crate::database::user_with_id;
use crate::database::Database;
use crate::database::InviteCode;
use crate::database::RegisteredUser;
use crate::errors::AuthError;
use crate::pending::entry_with_token;
use crate::pending::has_token;
use crate::pending::PendingLedger;
use crate::sys::now_ts;
use crate::token::issue_token;
use crate::token::jwt_of;
use crate::token::TOKEN_LIFETIME_SECONDS;

verus! {

/// A successful token issuance: the bearer token and the user it names.
#[derive(Debug)]
pub struct AccessTokenResponse {
    /// The signed bearer token.
    pub access_token: String,
    /// Always the bearer scheme.
    pub token_type: String,
    /// Seconds until the token expires.
    pub expires_in: i64,
    /// The user the token was issued to, as read before the login was
    /// stamped.
    pub user: RegisteredUser,
}

/// What a token request asks the server to do.
#[derive(Debug)]
pub enum TokenPlan {
    /// Exchange an authorization code, then complete the login.
    Exchange {
        /// The authorization code to exchange.
        code: String,
        /// The correlation state echoed by the provider.
        state: String,
    },
    /// Open a pending authentication and hand back its polling token.
    StartPolling,
}

/// Decide a token request from its grant type.  An authorization-code
/// grant must carry both the code and the state; the only other grant
/// accepted is client-credentials, which opens a polling handshake.
pub fn plan_token_request(grant_type: &str, code: Option<String>, state: Option<String>) -> (r:
    Result<TokenPlan, AuthError>)
    ensures
        grant_type@ == "authorization_code"@ && code is Some && state is Some ==> (r matches Ok(
            TokenPlan::Exchange { code: c, state: s },
        ) && c == code->0 && s == state->0),
        grant_type@ == "authorization_code"@ && (code is None || state is None) ==> r == Err::<
            TokenPlan,
            AuthError,
        >(AuthError::InvalidRequest),
        grant_type@ == "client_credentials"@ ==> r == Ok::<TokenPlan, AuthError>(
            TokenPlan::StartPolling,
        ),
        grant_type@ != "authorization_code"@ && grant_type@ != "client_credentials"@ ==> r == Err::<
            TokenPlan,
            AuthError,
        >(AuthError::UnsupportedGrantType),
{
    proof {
        reveal_strlit("authorization_code");
        reveal_strlit("client_credentials");
        assert("authorization_code"@[0] == 'a');
        assert("client_credentials"@[0] == 'c');
        assert("authorization_code"@ != "client_credentials"@);
    }
    let g: String = grant_type.to_owned();
    if g == "authorization_code".to_owned() {
        match (code, state) {
            (Some(c), Some(s)) => Ok(TokenPlan::Exchange { code: c, state: s }),
            _ => Err(AuthError::InvalidRequest),
        }
    } else if g == "client_credentials".to_owned() {
        Ok(TokenPlan::StartPolling)
    } else {
        Err(AuthError::UnsupportedGrantType)
    }
}

/// Register a user, at the given request time.
///
/// The decision, in order: an email or external identity id that
/// already has a user is refused; the very first user ever becomes
/// root, with invite rights and no inviter, no invite code required or
/// consulted; any later registration must carry an invite code that is
/// accepted at the request time, enters without root or invite rights,
/// records the invite's creator as its inviter, and consumes the code
/// in the same step.
pub fn create_user_request_at(
    db: &mut Database,
    google_id: &str,
    email: &str,
    name: &str,
    invite_code: Option<&str>,
    now: i64,
) -> (r: Result<RegisteredUser, AuthError>)
    requires
        old(db).wf(),
    ensures
        final(db).wf(),
        r is Err ==> *final(db) == *old(db),
        r == Err::<RegisteredUser, AuthError>(AuthError::AlreadyRegistered) <==> has_email(
            old(db).users@,
            email@,
        ) || has_google_id(old(db).users@, google_id@),
        r == Err::<RegisteredUser, AuthError>(AuthError::InviteRequired) <==> !has_email(
            old(db).users@,
            email@,
        ) && !has_google_id(old(db).users@, google_id@) && old(db).users@.len() > 0 && invite_code
            is None,
        r == Err::<RegisteredUser, AuthError>(AuthError::InvalidInvite) <==> !has_email(
            old(db).users@,
            email@,
        ) && !has_google_id(old(db).users@, google_id@) && old(db).users@.len() > 0 && (invite_code matches Some(
            c,
        ) && !has_usable_code(old(db).invites@, c@, now)),
        r is Ok <==> !has_email(old(db).users@, email@) && !has_google_id(
            old(db).users@,
            google_id@,
        ) && old(db).next_user_id < i64::MAX && (old(db).users@.len() == 0 || (invite_code matches Some(
            c,
        ) && has_usable_code(old(db).invites@, c@, now))),
        r matches Ok(u) ==> {
            &&& u.id == old(db).next_user_id
            &&& u.google_id@ == google_id@
            &&& u.email@ == email@
            &&& u.name@ == name@
            &&& u.registered_at == now
            &&& u.is_root == (old(db).users@.len() == 0)
            &&& u.can_invite == (old(db).users@.len() == 0)
            &&& final(db).users@ == old(db).users@.push(u)
            &&& final(db).next_user_id == old(db).next_user_id + 1
            &&& final(db).next_invite_id == old(db).next_invite_id
        },
        r matches Ok(u) ==> (old(db).users@.len() == 0 ==> u.invited_by is None
            && final(db).invites@ == old(db).invites@),
        r matches Ok(u) ==> (old(db).users@.len() > 0 ==> (invite_code matches Some(c) && {
            &&& u.invited_by == Some(invite_with_code(old(db).invites@, c@).created_by)
            &&& final(db).invites@.len() == old(db).invites@.len()
            &&& forall|i: int|
                0 <= i < old(db).invites@.len() && #[trigger] old(db).invites@[i].code@ != c@
                    ==> final(db).invites@[i] == old(db).invites@[i]
            &&& forall|i: int|
                0 <= i < old(db).invites@.len() && #[trigger] old(db).invites@[i].code@ == c@
                    ==> final(db).invites@[i] == (InviteCode {
                    used_by: Some(u.id),
                    used_at: Some(now),
                    ..old(db).invites@[i]
                })
        })),
{
    // a profile that already has a user can only log in
    if db.is_user_registered(email) {
        return Err(AuthError::AlreadyRegistered);
    }
    if db.is_google_id_registered(google_id) {
        return Err(AuthError::AlreadyRegistered);
    }
    let count = db.count_registered_users();
    if count == 0 {
        // bootstrap: the first user ever is the root user
        let user = match db.register_user(google_id, email, name, now) {
            Ok(u) => u,
            Err(e) => {
                return Err(e);
            },
        };
        proof {
            assert(db.users@[db.users@.len() - 1].email@ == email@);
        }
        // defensive double-check: the user must now be present
        if !db.is_user_registered(email) {
            return Err(AuthError::Internal);
        }
        Ok(user)
    } else {
        // past bootstrap, entry is by invite only
        let code = match invite_code {
            Some(c) => c,
            None => {
                return Err(AuthError::InviteRequired);
            },
        };
        let invite = match db.validate_invite_code(code, now) {
            Some(inv) => inv,
            None => {
                return Err(AuthError::InvalidInvite);
            },
        };
        proof {
            let k = choose|k: int|
                0 <= k < db.invites@.len() && #[trigger] db.invites@[k].code@ == code@;
            assert(has_user_id(db.users@, db.invites@[k].created_by));
        }
        let user = match db.register_invited_user(google_id, email, name, invite.created_by, now) {
            Ok(u) => u,
            Err(e) => {
                return Err(e);
            },
        };
        proof {
            assert(db.users@[db.users@.len() - 1].id == user.id);
            assert(db.users@[db.users@.len() - 1].email@ == email@);
        }
        // consume the code; the conditional update cannot find it
        // already consumed, validation just saw it untouched
        let consumed = db.use_invite_code(code, user.id, now);
        if !consumed {
            proof {
                assert(false);
            }
            return Err(AuthError::Internal);
        }
        // defensive double-check: the user must now be present
        if !db.is_user_registered(email) {
            return Err(AuthError::Internal);
        }
        Ok(user)
    }
}

/// Register a user at the present moment: reads the clock and decides
/// as `create_user_request_at` does at that instant.  Everything the
/// clock cannot sway is promised here; in particular the bootstrap
/// path never consults an invite code at all.
pub fn create_user_request(
    db: &mut Database,
    google_id: &str,
    email: &str,
    name: &str,
    invite_code: Option<&str>,
) -> (r: Result<RegisteredUser, AuthError>)
    requires
        old(db).wf(),
    ensures
        final(db).wf(),
        r is Err ==> *final(db) == *old(db),
        r == Err::<RegisteredUser, AuthError>(AuthError::AlreadyRegistered) <==> has_email(
            old(db).users@,
            email@,
        ) || has_google_id(old(db).users@, google_id@),
        r == Err::<RegisteredUser, AuthError>(AuthError::InviteRequired) <==> !has_email(
            old(db).users@,
            email@,
        ) && !has_google_id(old(db).users@, google_id@) && old(db).users@.len() > 0 && invite_code
            is None,
        old(db).users@.len() == 0 && !has_email(old(db).users@, email@) && !has_google_id(
            old(db).users@,
            google_id@,
        ) && old(db).next_user_id < i64::MAX ==> r is Ok,
        r matches Ok(u) ==> {
            &&& u.id == old(db).next_user_id
            &&& u.google_id@ == google_id@
            &&& u.email@ == email@
            &&& u.name@ == name@
            &&& u.is_root == (old(db).users@.len() == 0)
            &&& u.can_invite == (old(db).users@.len() == 0)
            &&& (old(db).users@.len() == 0 ==> u.invited_by is None && final(db).invites@ == old(
                db,
            ).invites@)
            &&& final(db).users@ == old(db).users@.push(u)
            &&& final(db).next_user_id == old(db).next_user_id + 1
            &&& final(db).next_invite_id == old(db).next_invite_id
        },
{
    let now = now_ts();
    create_user_request_at(db, google_id, email, name, invite_code, now)
}

/// Complete a login for a profile the identity provider vouched for,
/// at the given request time: the email must already have a user, the
/// login is stamped, and a signed bearer token is issued.  An unknown
/// email is turned away with nothing issued and nothing changed.
pub fn handle_token_exchange_at(db: &mut Database, email: &str, now: i64, secret: &str) -> (r:
    Result<AccessTokenResponse, AuthError>)
    requires
        old(db).wf(),
        now <= i64::MAX - TOKEN_LIFETIME_SECONDS,
    ensures
        final(db).wf(),
        r == Err::<AccessTokenResponse, AuthError>(AuthError::NotRegistered) <==> !has_email(
            old(db).users@,
            email@,
        ),
        r == Err::<AccessTokenResponse, AuthError>(AuthError::NotRegistered) ==> *final(db) == *old(
            db,
        ),
        r is Ok <==> has_email(old(db).users@, email@),
        has_email(old(db).users@, email@) ==> {
            &&& final(db).users@.len() == old(db).users@.len()
            &&& forall|i: int|
                0 <= i < old(db).users@.len() && #[trigger] old(db).users@[i].email@ != email@
                    ==> final(db).users@[i] == old(db).users@[i]
            &&& forall|i: int|
                0 <= i < old(db).users@.len() && #[trigger] old(db).users@[i].email@ == email@
                    ==> final(db).users@[i] == (RegisteredUser {
                    last_login: Some(now),
                    ..old(db).users@[i]
                })
            &&& final(db).invites@ == old(db).invites@
            &&& final(db).next_user_id == old(db).next_user_id
            &&& final(db).next_invite_id == old(db).next_invite_id
        },
        r matches Ok(g) ==> {
            &&& g.user == user_with_email(old(db).users@, email@)
            &&& g.access_token@ == jwt_of(
                g.user.id as int,
                email@,
                now as int,
                now + TOKEN_LIFETIME_SECONDS,
                secret@,
            )
            &&& g.token_type@ == "Bearer"@
            &&& g.expires_in == TOKEN_LIFETIME_SECONDS
        },
{
    let user = match db.get_user_by_email(email) {
        Some(u) => u,
        None => {
            return Err(AuthError::NotRegistered);
        },
    };
    db.update_last_login(email, now);
    let token = issue_token(user.id, email, now, secret);
    Ok(
        AccessTokenResponse {
            access_token: token,
            token_type: "Bearer".to_owned(),
            expires_in: TOKEN_LIFETIME_SECONDS,
            user,
        },
    )
}

/// Complete a login at the present moment: reads the clock and decides
/// as `handle_token_exchange_at` does at that instant.  Whether the
/// email has a user does not depend on the clock, so the refusal and
/// everything but the timestamps is promised here.
pub fn handle_token_exchange(db: &mut Database, email: &str, secret: &str) -> (r: Result<
    AccessTokenResponse,
    AuthError,
>)
    requires
        old(db).wf(),
    ensures
        final(db).wf(),
        r == Err::<AccessTokenResponse, AuthError>(AuthError::NotRegistered) <==> !has_email(
            old(db).users@,
            email@,
        ),
        r == Err::<AccessTokenResponse, AuthError>(AuthError::NotRegistered) ==> *final(db) == *old(
            db,
        ),
        r is Err && has_email(old(db).users@, email@) ==> r == Err::<
            AccessTokenResponse,
            AuthError,
        >(AuthError::Internal) && *final(db) == *old(db),
        r is Ok ==> forall|i: int|
            0 <= i < old(db).users@.len() && #[trigger] old(db).users@[i].email@ == email@
                ==> final(db).users@[i].last_login is Some,
        has_email(old(db).users@, email@) ==> {
            &&& final(db).users@.len() == old(db).users@.len()
            &&& forall|i: int|
                0 <= i < old(db).users@.len() && #[trigger] old(db).users@[i].email@ != email@
                    ==> final(db).users@[i] == old(db).users@[i]
            &&& forall|i: int|
                0 <= i < old(db).users@.len() && #[trigger] old(db).users@[i].email@ == email@
                    ==> {
                    &&& final(db).users@[i].id == old(db).users@[i].id
                    &&& final(db).users@[i].google_id == old(db).users@[i].google_id
                    &&& final(db).users@[i].email == old(db).users@[i].email
                    &&& final(db).users@[i].name == old(db).users@[i].name
                    &&& final(db).users@[i].registered_at == old(db).users@[i].registered_at
                    &&& final(db).users@[i].is_root == old(db).users@[i].is_root
                    &&& final(db).users@[i].can_invite == old(db).users@[i].can_invite
                    &&& final(db).users@[i].invited_by == old(db).users@[i].invited_by
                }
            &&& final(db).invites@ == old(db).invites@
            &&& final(db).next_user_id == old(db).next_user_id
            &&& final(db).next_invite_id == old(db).next_invite_id
        },
        r matches Ok(g) ==> {
            &&& g.user == user_with_email(old(db).users@, email@)
            &&& g.token_type@ == "Bearer"@
            &&& g.expires_in == TOKEN_LIFETIME_SECONDS
        },
{
    if !db.is_user_registered(email) {
        return Err(AuthError::NotRegistered);
    }
    let now = now_ts();
    if now > i64::MAX - TOKEN_LIFETIME_SECONDS {
        // a clock reading the token arithmetic cannot carry
        return Err(AuthError::Internal);
    }
    handle_token_exchange_at(db, email, now, secret)
}

/// Complete the provider's browser callback, at the given request
/// time: finish the login, and, when the correlation carried a
/// client token with a still-pending entry, fill that entry with the
/// email so the out-of-band client's poll completes.  The fill is
/// best-effort and never fails the login itself.
pub fn oauth_callback_request(
    db: &mut Database,
    pending: &mut PendingLedger,
    email: &str,
    state_token: Option<&str>,
    now: i64,
    secret: &str,
) -> (r: Result<AccessTokenResponse, AuthError>)
    requires
        old(db).wf(),
        old(pending).wf(),
        now <= i64::MAX - TOKEN_LIFETIME_SECONDS,
    ensures
        final(db).wf(),
        final(pending).wf(),
        r == Err::<AccessTokenResponse, AuthError>(AuthError::NotRegistered) <==> !has_email(
            old(db).users@,
            email@,
        ),
        r == Err::<AccessTokenResponse, AuthError>(AuthError::NotRegistered) ==> *final(db) == *old(
            db,
        ),
        r is Ok <==> has_email(old(db).users@, email@),
        r matches Ok(g) ==> {
            &&& g.user == user_with_email(old(db).users@, email@)
            &&& g.access_token@ == jwt_of(
                g.user.id as int,
                email@,
                now as int,
                now + TOKEN_LIFETIME_SECONDS,
                secret@,
            )
            &&& g.token_type@ == "Bearer"@
            &&& g.expires_in == TOKEN_LIFETIME_SECONDS
        },
        !(r is Ok) || state_token is None ==> *final(pending) == *old(pending),
        state_token matches Some(t) ==> (r is Ok && !(has_token(old(pending).entries@, t@)
            && entry_with_token(old(pending).entries@, t@).auth.user_email is None)
            ==> *final(pending) == *old(pending)),
        state_token matches Some(t) ==> (r is Ok && has_token(old(pending).entries@, t@)
            && entry_with_token(old(pending).entries@, t@).auth.user_email is None ==> {
            &&& final(pending).entries@.len() == old(pending).entries@.len()
            &&& forall|i: int|
                0 <= i < old(pending).entries@.len() && #[trigger] old(
                    pending,
                ).entries@[i].token@ != t@ ==> final(pending).entries@[i] == old(
                    pending,
                ).entries@[i]
            &&& forall|i: int|
                0 <= i < old(pending).entries@.len() && #[trigger] old(
                    pending,
                ).entries@[i].token@ == t@ ==> (final(pending).entries@[i].auth.user_email matches Some(
                    e,
                ) && e@ == email@)
        }),
{
    let result = handle_token_exchange_at(db, email, now, secret);
    let grant = match result {
        Ok(g) => g,
        Err(e) => {
            return Err(e);
        },
    };
    if let Some(token) = state_token {
        // best-effort: a stale or unknown token changes nothing
        let _filled = pending.fill(token, email);
    }
    Ok(grant)
}

/// List every registered user, a right reserved to the root user.
pub fn list_users_request(db: &Database, requester_email: &str) -> (r: Result<
    Vec<RegisteredUser>,
    AuthError,
>)
    requires
        db.wf(),
    ensures
        r == Err::<Vec<RegisteredUser>, AuthError>(AuthError::Unauthorized) <==> !has_email(
            db.users@,
            requester_email@,
        ),
        r == Err::<Vec<RegisteredUser>, AuthError>(AuthError::PermissionDenied) <==> has_email(
            db.users@,
            requester_email@,
        ) && !user_with_email(db.users@, requester_email@).is_root,
        r is Ok <==> has_email(db.users@, requester_email@) && user_with_email(
            db.users@,
            requester_email@,
        ).is_root,
        r matches Ok(v) ==> v@.to_multiset() == db.users@.to_multiset()
            && sorted_by_registered_desc(v@),
{
    let requester = match db.get_user_by_email(requester_email) {
        Some(u) => u,
        None => {
            return Err(AuthError::Unauthorized);
        },
    };
    if !requester.is_root {
        return Err(AuthError::PermissionDenied);
    }
    Ok(db.get_all_registered_users())
}

/// Read one user: a user may read itself, the root user may read
/// anyone.
pub fn get_user_request(db: &Database, requester_email: &str, target_id: i64) -> (r: Result<
    RegisteredUser,
    AuthError,
>)
    requires
        db.wf(),
    ensures
        r == Err::<RegisteredUser, AuthError>(AuthError::Unauthorized) <==> !has_email(
            db.users@,
            requester_email@,
        ),
        r == Err::<RegisteredUser, AuthError>(AuthError::PermissionDenied) <==> has_email(
            db.users@,
            requester_email@,
        ) && !user_with_email(db.users@, requester_email@).is_root && user_with_email(
            db.users@,
            requester_email@,
        ).id != target_id,
        r == Err::<RegisteredUser, AuthError>(AuthError::NotFound) <==> has_email(
            db.users@,
            requester_email@,
        ) && (user_with_email(db.users@, requester_email@).is_root || user_with_email(
            db.users@,
            requester_email@,
        ).id == target_id) && !has_user_id(db.users@, target_id),
        r is Ok <==> has_email(db.users@, requester_email@) && (user_with_email(
            db.users@,
            requester_email@,
        ).is_root || user_with_email(db.users@, requester_email@).id == target_id) && has_user_id(
            db.users@,
            target_id,
        ),
        r matches Ok(u) ==> u == user_with_id(db.users@, target_id),
{
    let requester = match db.get_user_by_email(requester_email) {
        Some(u) => u,
        None => {
            return Err(AuthError::Unauthorized);
        },
    };
    if !requester.is_root && requester.id != target_id {
        return Err(AuthError::PermissionDenied);
    }
    match db.get_user_by_id(target_id) {
        Some(u) => Ok(u),
        None => Err(AuthError::NotFound),
    }
}

/// Work out what an update to a user would look like.  Invite rights
/// may only be granted or withdrawn by the root user, and never on
/// itself; a name is changed by its own user or by the root user.  The
/// store itself is left untouched: the update is returned, not yet
/// persisted.
pub fn update_user_request(
    db: &Database,
    requester_email: &str,
    target_id: i64,
    new_name: Option<&str>,
    new_can_invite: Option<bool>,
) -> (r: Result<RegisteredUser, AuthError>)
    requires
        db.wf(),
    ensures
        r == Err::<RegisteredUser, AuthError>(AuthError::Unauthorized) <==> !has_email(
            db.users@,
            requester_email@,
        ),
        r == Err::<RegisteredUser, AuthError>(AuthError::PermissionDenied) <==> has_email(
            db.users@,
            requester_email@,
        ) && ({
            let req = user_with_email(db.users@, requester_email@);
            ||| new_can_invite is Some && (!req.is_root || req.id == target_id)
            ||| new_name is Some && !req.is_root && req.id != target_id
        }),
        r == Err::<RegisteredUser, AuthError>(AuthError::NotFound) <==> has_email(
            db.users@,
            requester_email@,
        ) && !({
            let req = user_with_email(db.users@, requester_email@);
            ||| new_can_invite is Some && (!req.is_root || req.id == target_id)
            ||| new_name is Some && !req.is_root && req.id != target_id
        }) && !has_user_id(db.users@, target_id),
        r is Ok <==> has_email(db.users@, requester_email@) && !({
            let req = user_with_email(db.users@, requester_email@);
            ||| new_can_invite is Some && (!req.is_root || req.id == target_id)
            ||| new_name is Some && !req.is_root && req.id != target_id
        }) && has_user_id(db.users@, target_id),
        r matches Ok(u) ==> has_user_id(db.users@, target_id) && ({
            let base = user_with_id(db.users@, target_id);
            &&& u.id == base.id
            &&& u.google_id == base.google_id
            &&& u.email == base.email
            &&& (new_name matches Some(nm) ==> u.name@ == nm@)
            &&& (new_name is None ==> u.name == base.name)
            &&& u.registered_at == base.registered_at
            &&& u.last_login == base.last_login
            &&& u.is_root == base.is_root
            &&& (new_can_invite matches Some(b) ==> u.can_invite == b)
            &&& (new_can_invite is None ==> u.can_invite == base.can_invite)
            &&& u.invited_by == base.invited_by
        }),
{
    let requester = match db.get_user_by_email(requester_email) {
        Some(u) => u,
        None => {
            return Err(AuthError::Unauthorized);
        },
    };
    // invite rights move only by the root user's hand, never its own
    if new_can_invite.is_some() && (!requester.is_root || requester.id == target_id) {
        return Err(AuthError::PermissionDenied);
    }
    // a name is changed by its own user or by the root user
    if new_name.is_some() && !requester.is_root && requester.id != target_id {
        return Err(AuthError::PermissionDenied);
    }
    let mut user = match db.get_user_by_id(target_id) {
        Some(u) => u,
        None => {
            return Err(AuthError::NotFound);
        },
    };
    if let Some(nm) = new_name {
        user.name = nm.to_owned();
    }
    if let Some(b) = new_can_invite {
        user.can_invite = b;
    }
    Ok(user)
}

/// Delete a user: only the root user may delete, never itself, and a
/// root user can never be deleted.  Any refusal leaves the store
/// exactly as it was; a deletion also removes every invite code the
/// user created or consumed, in the same atomic step.
pub fn delete_user_request(db: &mut Database, requester_email: &str, target_id: i64) -> (r: Result<
    (),
    AuthError,
>)
    requires
        old(db).wf(),
    ensures
        final(db).wf(),
        r is Err ==> *final(db) == *old(db),
        r == Err::<(), AuthError>(AuthError::Unauthorized) <==> !has_email(
            old(db).users@,
            requester_email@,
        ),
        r == Err::<(), AuthError>(AuthError::PermissionDenied) <==> has_email(
            old(db).users@,
            requester_email@,
        ) && !user_with_email(old(db).users@, requester_email@).is_root,
        r == Err::<(), AuthError>(AuthError::InvalidRequest) <==> has_email(
            old(db).users@,
            requester_email@,
        ) && user_with_email(old(db).users@, requester_email@).is_root && user_with_email(
            old(db).users@,
            requester_email@,
        ).id == target_id,
        r is Ok <==> has_email(old(db).users@, requester_email@) && user_with_email(
            old(db).users@,
            requester_email@,
        ).is_root && user_with_email(old(db).users@, requester_email@).id != target_id
            && has_user_id(old(db).users@, target_id) && !user_with_id(
            old(db).users@,
            target_id,
        ).is_root,
        r is Ok ==> final(db).users@ == old(db).users@.filter(
            |u: RegisteredUser| u.id != target_id,
        ) && final(db).invites@ == old(db).invites@.filter(
            |c: InviteCode| c.created_by != target_id && c.used_by != Some(target_id),
        ),
        final(db).next_user_id == old(db).next_user_id,
        final(db).next_invite_id == old(db).next_invite_id,
{
    let requester = match db.get_user_by_email(requester_email) {
        Some(u) => u,
        None => {
            return Err(AuthError::Unauthorized);
        },
    };
    if !requester.is_root {
        return Err(AuthError::PermissionDenied);
    }
    if requester.id == target_id {
        // the root user never deletes itself
        return Err(AuthError::InvalidRequest);
    }
    if db.delete_user(target_id) {
        Ok(())
    } else {
        Err(AuthError::NotFound)
    }
}

/// List the invite codes a user created, a right tied to the invite
/// flag.
pub fn list_invites_request(db: &Database, requester_email: &str) -> (r: Result<
    Vec<InviteCode>,
    AuthError,
>)
    requires
        db.wf(),
    ensures
        r == Err::<Vec<InviteCode>, AuthError>(AuthError::Unauthorized) <==> !has_email(
            db.users@,
            requester_email@,
        ),
        r == Err::<Vec<InviteCode>, AuthError>(AuthError::PermissionDenied) <==> has_email(
            db.users@,
            requester_email@,
        ) && !user_with_email(db.users@, requester_email@).can_invite,
        r is Ok <==> has_email(db.users@, requester_email@) && user_with_email(
            db.users@,
            requester_email@,
        ).can_invite,
        r matches Ok(v) ==> v@.to_multiset() == db.invites@.filter(
            |c: InviteCode| c.created_by == user_with_email(db.users@, requester_email@).id,
        ).to_multiset() && sorted_by_created_desc(v@),
{
    let requester = match db.get_user_by_email(requester_email) {
        Some(u) => u,
        None => {
            return Err(AuthError::Unauthorized);
        },
    };
    if !requester.can_invite {
        return Err(AuthError::PermissionDenied);
    }
    Ok(db.get_invite_codes_by_user(requester.id))
}

/// Create an invite code, a right tied to the invite flag; the code is
/// issued without an expiry unless the deployment configures one.
pub fn create_invite_request(
    db: &mut Database,
    requester_email: &str,
    now: i64,
    expires_at: Option<i64>,
) -> (r: Result<InviteCode, AuthError>)
    requires
        old(db).wf(),
    ensures
        final(db).wf(),
        r is Err ==> *final(db) == *old(db),
        r == Err::<InviteCode, AuthError>(AuthError::Unauthorized) <==> !has_email(
            old(db).users@,
            requester_email@,
        ),
        r == Err::<InviteCode, AuthError>(AuthError::PermissionDenied) <==> has_email(
            old(db).users@,
            requester_email@,
        ) && !user_with_email(old(db).users@, requester_email@).can_invite,
        r is Err ==> r == Err::<InviteCode, AuthError>(AuthError::Unauthorized) || r == Err::<
            InviteCode,
            AuthError,
        >(AuthError::PermissionDenied) || r == Err::<InviteCode, AuthError>(AuthError::Internal),
        has_email(old(db).users@, requester_email@) && user_with_email(
            old(db).users@,
            requester_email@,
        ).can_invite && old(db).next_invite_id == i64::MAX ==> r == Err::<InviteCode, AuthError>(
            AuthError::Internal,
        ),
        r matches Ok(c) ==> {
            &&& c.created_by == user_with_email(old(db).users@, requester_email@).id
            &&& c.created_at == now
            &&& c.expires_at == expires_at
            &&& c.used_by is None
            &&& c.used_at is None
            &&& c.is_active
            &&& c.code@.len() == 36
            &&& !has_code(old(db).invites@, c.code@)
            &&& final(db).invites@ == old(db).invites@.push(c)
            &&& final(db).users@ == old(db).users@
        },
{
    let requester = match db.get_user_by_email(requester_email) {
        Some(u) => u,
        None => {
            return Err(AuthError::Unauthorized);
        },
    };
    if !requester.can_invite {
        return Err(AuthError::PermissionDenied);
    }
    proof {
        let k = choose|k: int|
            0 <= k < db.users@.len() && #[trigger] db.users@[k].email@ == requester_email@;
        assert(db.users@[k].id == requester.id);
    }
    db.create_invite_code(requester.id, now, expires_at)
}

/// Withdraw an invite code, a right tied to the invite flag.  The
/// withdrawal itself is not carried out yet; the store is untouched.
pub fn delete_invite_request(db: &Database, requester_email: &str) -> (r: Result<(), AuthError>)
    requires
        db.wf(),
    ensures
        r == Err::<(), AuthError>(AuthError::Unauthorized) <==> !has_email(
            db.users@,
            requester_email@,
        ),
        r == Err::<(), AuthError>(AuthError::PermissionDenied) <==> has_email(
            db.users@,
            requester_email@,
        ) && !user_with_email(db.users@, requester_email@).can_invite,
        r is Ok <==> has_email(db.users@, requester_email@) && user_with_email(
            db.users@,
            requester_email@,
        ).can_invite,
{
    let requester = match db.get_user_by_email(requester_email) {
        Some(u) => u,
        None => {
            return Err(AuthError::Unauthorized);
        },
    };
    if !requester.can_invite {
        return Err(AuthError::PermissionDenied);
    }
    Ok(())
}

/// The placeholder protected payload: a greeting naming the caller,
/// the caller itself, and the time of the request.
#[derive(Debug)]
pub struct ContentResponse {
    /// The greeting shown to the caller.
    pub message: String,
    /// The caller's email, as taken from the bearer token.
    pub user: String,
    /// The time of the request.
    pub timestamp: i64,
}

/// Build the protected payload for an authenticated caller.
pub fn get_protected_content(email: &str, now: i64) -> (r: ContentResponse)
    ensures
        r.message@ == "Hello "@ + email@
            + "! Here's your protected content: 'The Grand Library of Patchouli Knowledge awaits your exploration. May your quest for knowledge be fruitful and your discoveries illuminate the path ahead.'"@,
        r.user@ == email@,
        r.timestamp == now,
{
    let mut message: String = "Hello ".to_owned();
    message.append(email);
    message.append(
        "! Here's your protected content: 'The Grand Library of Patchouli Knowledge awaits your exploration. May your quest for knowledge be fruitful and your discoveries illuminate the path ahead.'",
    );
    ContentResponse { message, user: email.to_owned(), timestamp: now }
}

/// What the public status endpoint reports.
#[derive(Debug)]
pub struct SystemStatus {
    /// How many users are registered.
    pub users_registered: i64,
    /// Whether a root user exists: true exactly when anyone is
    /// registered, the first registrant being the root.
    pub root_user_exists: bool,
}

/// The public system status: the user count and whether a root exists.
pub fn get_system_status(db: &Database) -> (r: SystemStatus)
    requires
        db.wf(),
    ensures
        r.users_registered == db.users@.len(),
        r.root_user_exists == (db.users@.len() > 0),
{
    let count = db.count_registered_users();
    SystemStatus { users_registered: count, root_user_exists: count > 0 }
}

} // verus!
