//! The gated request handlers, the token-request planner, the pending
//! ledger and the public endpoints.

use patchouli::database::Database;
use patchouli::errors::AuthError;
use patchouli::flow::create_invite_request;
use patchouli::flow::create_user_request_at;
use patchouli::flow::delete_invite_request;
use patchouli::flow::get_protected_content;
use patchouli::flow::get_system_status;
use patchouli::flow::get_user_request;
use patchouli::flow::list_invites_request;
use patchouli::flow::list_users_request;
use patchouli::flow::oauth_callback_request;
use patchouli::flow::plan_token_request;
use patchouli::flow::update_user_request;
use patchouli::flow::TokenPlan;
use patchouli::pending::PendingLedger;
use patchouli::pending::PollStatus;

const T0: i64 = 1_700_000_000;
const SECRET: &str = "test-signing-secret";

fn seed() -> (Database, i64, i64) {
    let mut db = Database::new();
    let alice = create_user_request_at(&mut db, "g-alice", "alice@x.com", "Alice", None, T0)
        .unwrap();
    let invite = db.create_invite_code(alice.id, T0, None).unwrap();
    let bob = create_user_request_at(
        &mut db,
        "g-bob",
        "bob@x.com",
        "Bob",
        Some(invite.code.as_str()),
        T0 + 1,
    )
    .unwrap();
    (db, alice.id, bob.id)
}

#[test]
fn listing_users_is_root_gated() {
    let (db, alice_id, bob_id) = seed();
    let users = list_users_request(&db, "alice@x.com").unwrap();
    assert_eq!(users.len(), 2);
    // most recently registered first
    assert_eq!(users[0].id, bob_id);
    assert_eq!(users[1].id, alice_id);

    let r = list_users_request(&db, "bob@x.com");
    assert_eq!(r.unwrap_err(), AuthError::PermissionDenied);
    let r = list_users_request(&db, "ghost@x.com");
    assert_eq!(r.unwrap_err(), AuthError::Unauthorized);
}

#[test]
fn reading_a_user_is_self_or_root_gated() {
    let (db, alice_id, bob_id) = seed();
    // the root user reads anyone
    assert_eq!(get_user_request(&db, "alice@x.com", bob_id).unwrap().id, bob_id);
    // a user reads itself
    assert_eq!(get_user_request(&db, "bob@x.com", bob_id).unwrap().id, bob_id);
    // but nobody else
    let r = get_user_request(&db, "bob@x.com", alice_id);
    assert_eq!(r.unwrap_err(), AuthError::PermissionDenied);
    // a missing target is not found
    let r = get_user_request(&db, "alice@x.com", 999);
    assert_eq!(r.unwrap_err(), AuthError::NotFound);
}

#[test]
fn updating_permissions_is_root_gated_and_never_reflexive() {
    let (db, alice_id, bob_id) = seed();
    // the root user may grant invite rights to another user
    let u = update_user_request(&db, "alice@x.com", bob_id, None, Some(true)).unwrap();
    assert!(u.can_invite);
    assert_eq!(u.id, bob_id);
    // the store itself was not changed by the dry-run update
    assert!(!get_user_request(&db, "alice@x.com", bob_id).unwrap().can_invite);
    // not even the root user may change its own permissions
    let r = update_user_request(&db, "alice@x.com", alice_id, None, Some(false));
    assert_eq!(r.unwrap_err(), AuthError::PermissionDenied);
    // a non-root user may not touch permissions at all
    let r = update_user_request(&db, "bob@x.com", bob_id, None, Some(true));
    assert_eq!(r.unwrap_err(), AuthError::PermissionDenied);
    // a user renames itself; renaming another needs root
    let u = update_user_request(&db, "bob@x.com", bob_id, Some("Robert"), None).unwrap();
    assert_eq!(u.name, "Robert");
    let r = update_user_request(&db, "bob@x.com", alice_id, Some("Mallory"), None);
    assert_eq!(r.unwrap_err(), AuthError::PermissionDenied);
}

#[test]
fn invite_management_is_gated_by_the_invite_flag() {
    let (mut db, alice_id, _bob_id) = seed();
    let invite = create_invite_request(&mut db, "alice@x.com", T0 + 5, None).unwrap();
    assert_eq!(invite.created_by, alice_id);
    assert_eq!(invite.expires_at, None);
    assert!(invite.is_active);
    assert_eq!(invite.used_by, None);

    let r = create_invite_request(&mut db, "bob@x.com", T0 + 5, None);
    assert_eq!(r.unwrap_err(), AuthError::PermissionDenied);

    let mine = list_invites_request(&db, "alice@x.com").unwrap();
    // the consumed bootstrap invite and the fresh one, newest first
    assert_eq!(mine.len(), 2);
    assert_eq!(mine[0].created_at, T0 + 5);
    assert_eq!(mine[1].created_at, T0);
    assert!(mine.iter().all(|c| c.created_by == alice_id));

    let r = list_invites_request(&db, "bob@x.com");
    assert_eq!(r.unwrap_err(), AuthError::PermissionDenied);

    assert!(delete_invite_request(&db, "alice@x.com").is_ok());
    let r = delete_invite_request(&db, "bob@x.com");
    assert_eq!(r.unwrap_err(), AuthError::PermissionDenied);
    let r = delete_invite_request(&db, "ghost@x.com");
    assert_eq!(r.unwrap_err(), AuthError::Unauthorized);
}

#[test]
fn token_requests_are_planned_by_grant_type() {
    let plan = plan_token_request(
        "authorization_code",
        Some("the-code".to_owned()),
        Some("the-state".to_owned()),
    )
    .unwrap();
    match plan {
        TokenPlan::Exchange { code, state } => {
            assert_eq!(code, "the-code");
            assert_eq!(state, "the-state");
        }
        TokenPlan::StartPolling => panic!("an authorization-code grant must exchange"),
    }

    let r = plan_token_request("authorization_code", None, Some("s".to_owned()));
    assert_eq!(r.unwrap_err(), AuthError::InvalidRequest);
    let r = plan_token_request("authorization_code", Some("c".to_owned()), None);
    assert_eq!(r.unwrap_err(), AuthError::InvalidRequest);

    assert!(matches!(
        plan_token_request("client_credentials", None, None),
        Ok(TokenPlan::StartPolling)
    ));

    let r = plan_token_request("password", None, None);
    assert_eq!(r.unwrap_err(), AuthError::UnsupportedGrantType);
}

#[test]
fn pending_auth_is_polled_and_filled_once() {
    let mut pending = PendingLedger::new();
    let token = pending.create_pending(false, None).unwrap();
    assert_eq!(token.len(), 36);

    assert!(matches!(pending.poll(token.as_str()), PollStatus::Pending));
    assert!(matches!(pending.poll("unknown"), PollStatus::NotFound));

    assert!(pending.fill(token.as_str(), "alice@x.com"));
    match pending.poll(token.as_str()) {
        PollStatus::Completed(email) => assert_eq!(email, "alice@x.com"),
        _ => panic!("a filled entry must poll as completed"),
    }
    // filled exactly once
    assert!(!pending.fill(token.as_str(), "mallory@x.com"));
    assert!(!pending.fill("unknown", "mallory@x.com"));
}

#[test]
fn the_callback_fills_the_pending_entry() {
    let (mut db, _alice_id, _bob_id) = seed();
    let mut pending = PendingLedger::new();
    let token = pending.create_pending(false, None).unwrap();

    let t = chrono::Utc::now().timestamp();
    let grant = oauth_callback_request(
        &mut db,
        &mut pending,
        "alice@x.com",
        Some(token.as_str()),
        t,
        SECRET,
    )
    .unwrap();
    assert_eq!(grant.user.email, "alice@x.com");
    match pending.poll(token.as_str()) {
        PollStatus::Completed(email) => assert_eq!(email, "alice@x.com"),
        _ => panic!("the callback must fill the pending entry"),
    }
}

#[test]
fn the_callback_for_an_unknown_email_fills_nothing() {
    let mut db = Database::new();
    let mut pending = PendingLedger::new();
    let token = pending.create_pending(false, None).unwrap();

    let r = oauth_callback_request(
        &mut db,
        &mut pending,
        "ghost@x.com",
        Some(token.as_str()),
        T0,
        SECRET,
    );
    assert_eq!(r.unwrap_err(), AuthError::NotRegistered);
    assert!(matches!(pending.poll(token.as_str()), PollStatus::Pending));
}

#[test]
fn the_status_endpoint_counts_users() {
    let mut db = Database::new();
    let s = get_system_status(&db);
    assert_eq!(s.users_registered, 0);
    assert!(!s.root_user_exists);

    create_user_request_at(&mut db, "g-alice", "alice@x.com", "Alice", None, T0).unwrap();
    let s = get_system_status(&db);
    assert_eq!(s.users_registered, 1);
    assert!(s.root_user_exists);
}

#[test]
fn the_protected_content_names_its_caller() {
    let page = get_protected_content("alice@x.com", T0);
    assert_eq!(page.user, "alice@x.com");
    assert_eq!(page.timestamp, T0);
    assert_eq!(
        page.message,
        "Hello alice@x.com! Here's your protected content: 'The Grand Library of Patchouli \
         Knowledge awaits your exploration. May your quest for knowledge be fruitful and your \
         discoveries illuminate the path ahead.'"
    );
}

#[test]
fn a_pending_entry_is_never_opened_twice_under_one_token() {
    let mut pending = PendingLedger::new();
    assert!(pending.insert_pending("tok-1".to_owned(), false, None));
    // a second entry under the same token is refused and changes nothing
    assert!(!pending.insert_pending("tok-1".to_owned(), true, Some("c".to_owned())));
    assert!(matches!(pending.poll("tok-1"), PollStatus::Pending));
    assert!(pending.insert_pending("tok-2".to_owned(), false, None));
}

#[test]
fn error_outcomes_carry_their_status_codes() {
    assert_eq!(AuthError::UpstreamAuthFailure.status_code(), 400);
    assert_eq!(AuthError::AlreadyRegistered.status_code(), 400);
    assert_eq!(AuthError::NotRegistered.status_code(), 401);
    assert_eq!(AuthError::InviteRequired.status_code(), 400);
    assert_eq!(AuthError::InvalidInvite.status_code(), 400);
    assert_eq!(AuthError::PermissionDenied.status_code(), 403);
    assert_eq!(AuthError::Unauthorized.status_code(), 401);
    assert_eq!(AuthError::NotFound.status_code(), 404);
    assert_eq!(AuthError::InvalidRequest.status_code(), 400);
    assert_eq!(AuthError::UnsupportedGrantType.status_code(), 400);
    assert_eq!(AuthError::Internal.status_code(), 500);
}
