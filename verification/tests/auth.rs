//! Login, token issuance and the bearer check on protected requests.

use patchouli::database::Database;
use patchouli::errors::AuthError;
use patchouli::flow::create_user_request_at;
use patchouli::flow::delete_user_request;
use patchouli::flow::handle_token_exchange_at;
use patchouli::token::admit_claims;
use patchouli::token::authenticate;
use patchouli::token::Claims;
use patchouli::token::TOKEN_LIFETIME_SECONDS;

const SECRET: &str = "test-signing-secret";

fn now() -> i64 {
    chrono::Utc::now().timestamp()
}

#[test]
fn login_for_unknown_email_issues_nothing() {
    let mut db = Database::new();
    let t = now();
    create_user_request_at(&mut db, "g-alice", "alice@x.com", "Alice", None, t).unwrap();

    let r = handle_token_exchange_at(&mut db, "ghost@x.com", t, SECRET);
    assert_eq!(r.unwrap_err(), AuthError::NotRegistered);
    // the store's user count is unchanged
    assert_eq!(db.count_registered_users(), 1);
}

#[test]
fn login_for_empty_store_issues_nothing() {
    let mut db = Database::new();
    let r = handle_token_exchange_at(&mut db, "ghost@x.com", now(), SECRET);
    assert_eq!(r.unwrap_err(), AuthError::NotRegistered);
    assert_eq!(db.count_registered_users(), 0);
}

#[test]
fn login_issues_a_bearer_token() {
    let mut db = Database::new();
    let t = now();
    let alice = create_user_request_at(&mut db, "g-alice", "alice@x.com", "Alice", None, t).unwrap();

    let grant = handle_token_exchange_at(&mut db, "alice@x.com", t + 10, SECRET).unwrap();
    assert_eq!(grant.token_type, "Bearer");
    assert_eq!(grant.expires_in, TOKEN_LIFETIME_SECONDS);
    assert_eq!(grant.user.id, alice.id);
    assert_eq!(grant.user.email, "alice@x.com");
    // a signed token is not the inputs echoed back
    assert_ne!(grant.access_token, "alice@x.com");
    assert!(!grant.access_token.is_empty());

    // the login was stamped
    let u = db.get_user_by_email("alice@x.com").unwrap();
    assert_eq!(u.last_login, Some(t + 10));
}

#[test]
fn a_valid_token_passes_the_bearer_check() {
    let mut db = Database::new();
    let t = now();
    create_user_request_at(&mut db, "g-alice", "alice@x.com", "Alice", None, t).unwrap();
    let grant = handle_token_exchange_at(&mut db, "alice@x.com", t, SECRET).unwrap();

    let claims = authenticate(&db, grant.access_token.as_str(), SECRET).unwrap();
    assert_eq!(claims.email, "alice@x.com");
    assert_eq!(claims.sub, grant.user.id);
    assert_eq!(claims.exp, claims.iat + TOKEN_LIFETIME_SECONDS);
}

#[test]
fn a_tampered_token_is_rejected() {
    let mut db = Database::new();
    let t = now();
    create_user_request_at(&mut db, "g-alice", "alice@x.com", "Alice", None, t).unwrap();
    let grant = handle_token_exchange_at(&mut db, "alice@x.com", t, SECRET).unwrap();

    let mut tampered = grant.access_token.clone();
    tampered.push('x');
    let r = authenticate(&db, tampered.as_str(), SECRET);
    assert_eq!(r.unwrap_err(), AuthError::Unauthorized);

    // a token signed under another secret is rejected too
    let r = authenticate(&db, grant.access_token.as_str(), "another-secret");
    assert_eq!(r.unwrap_err(), AuthError::Unauthorized);
}

#[test]
fn a_deleted_users_token_stops_working() {
    let mut db = Database::new();
    let t = now();
    let alice = create_user_request_at(&mut db, "g-alice", "alice@x.com", "Alice", None, t).unwrap();
    let invite = db.create_invite_code(alice.id, t, None).unwrap();
    let bob = create_user_request_at(
        &mut db,
        "g-bob",
        "bob@x.com",
        "Bob",
        Some(invite.code.as_str()),
        t,
    )
    .unwrap();

    let grant = handle_token_exchange_at(&mut db, "bob@x.com", t, SECRET).unwrap();
    // the signature is valid: the token passes while bob exists
    assert!(authenticate(&db, grant.access_token.as_str(), SECRET).is_ok());

    delete_user_request(&mut db, "alice@x.com", bob.id).unwrap();

    // the embedded email no longer names a user: rejected on every
    // subsequent protected-resource request
    let r = authenticate(&db, grant.access_token.as_str(), SECRET);
    assert_eq!(r.unwrap_err(), AuthError::Unauthorized);
    let r = authenticate(&db, grant.access_token.as_str(), SECRET);
    assert_eq!(r.unwrap_err(), AuthError::Unauthorized);
}

#[test]
fn claims_are_admitted_exactly_while_their_email_is_registered() {
    let mut db = Database::new();
    let t = now();
    let alice = create_user_request_at(&mut db, "g-alice", "alice@x.com", "Alice", None, t).unwrap();

    let claims = Claims {
        sub: alice.id,
        email: "alice@x.com".to_owned(),
        iat: t,
        exp: t + TOKEN_LIFETIME_SECONDS,
    };
    let admitted = admit_claims(&db, claims.clone()).unwrap();
    assert_eq!(admitted.sub, claims.sub);
    assert_eq!(admitted.email, claims.email);

    let stale = Claims { sub: 99, email: "ghost@x.com".to_owned(), iat: t, exp: t + 1 };
    assert_eq!(admit_claims(&db, stale).unwrap_err(), AuthError::Unauthorized);
}

#[test]
fn garbage_tokens_are_rejected() {
    let db = Database::new();
    assert_eq!(
        authenticate(&db, "", SECRET).unwrap_err(),
        AuthError::Unauthorized
    );
    assert_eq!(
        authenticate(&db, "not.a.token", SECRET).unwrap_err(),
        AuthError::Unauthorized
    );
}
