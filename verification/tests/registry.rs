//! The invite-gated registry: bootstrap, invites, deletion.

use patchouli::database::Database;
use patchouli::errors::AuthError;
use patchouli::flow::create_user_request_at;
use patchouli::flow::delete_user_request;

const T0: i64 = 1_700_000_000;

fn bootstrap_alice(db: &mut Database) -> patchouli::database::RegisteredUser {
    create_user_request_at(db, "g-alice", "alice@x.com", "Alice", None, T0).unwrap()
}

#[test]
fn first_registration_is_root() {
    let mut db = Database::new();
    let alice = bootstrap_alice(&mut db);
    assert!(alice.is_root);
    assert!(alice.can_invite);
    assert_eq!(alice.invited_by, None);
    assert_eq!(alice.email, "alice@x.com");
    assert_eq!(alice.registered_at, T0);
    assert_eq!(alice.last_login, Some(T0));
    assert_eq!(db.count_registered_users(), 1);
}

#[test]
fn second_registration_without_invite_is_refused() {
    let mut db = Database::new();
    bootstrap_alice(&mut db);
    let r = create_user_request_at(&mut db, "g-bob", "bob@x.com", "Bob", None, T0);
    assert_eq!(r.unwrap_err(), AuthError::InviteRequired);
    assert_eq!(db.count_registered_users(), 1);
}

#[test]
fn duplicate_email_is_refused() {
    let mut db = Database::new();
    bootstrap_alice(&mut db);
    let r = create_user_request_at(&mut db, "g-other", "alice@x.com", "Other", None, T0);
    assert_eq!(r.unwrap_err(), AuthError::AlreadyRegistered);
}

#[test]
fn duplicate_google_id_is_refused() {
    let mut db = Database::new();
    bootstrap_alice(&mut db);
    let r = create_user_request_at(&mut db, "g-alice", "other@x.com", "Other", None, T0);
    assert_eq!(r.unwrap_err(), AuthError::AlreadyRegistered);
}

#[test]
fn invite_gated_registration_succeeds_once() {
    let mut db = Database::new();
    let alice = bootstrap_alice(&mut db);
    let invite = db.create_invite_code(alice.id, T0, None).unwrap();
    assert_eq!(invite.code.len(), 36);

    let bob = create_user_request_at(
        &mut db,
        "g-bob",
        "bob@x.com",
        "Bob",
        Some(invite.code.as_str()),
        T0 + 10,
    )
    .unwrap();
    assert!(!bob.is_root);
    assert!(!bob.can_invite);
    assert_eq!(bob.invited_by, Some(alice.id));
    assert_eq!(db.count_registered_users(), 2);

    // the code is spent: a second registration with it is refused
    let r = create_user_request_at(
        &mut db,
        "g-carol",
        "carol@x.com",
        "Carol",
        Some(invite.code.as_str()),
        T0 + 20,
    );
    assert_eq!(r.unwrap_err(), AuthError::InvalidInvite);
    assert_eq!(db.count_registered_users(), 2);
}

#[test]
fn unknown_invite_is_refused() {
    let mut db = Database::new();
    bootstrap_alice(&mut db);
    let r = create_user_request_at(&mut db, "g-bob", "bob@x.com", "Bob", Some("no-such-code"), T0);
    assert_eq!(r.unwrap_err(), AuthError::InvalidInvite);
}

#[test]
fn expired_invite_is_rejected_even_while_active() {
    let mut db = Database::new();
    let alice = bootstrap_alice(&mut db);
    let invite = db.create_invite_code(alice.id, T0, Some(T0 + 100)).unwrap();
    assert!(invite.is_active);

    // before the expiry the code validates; one second past it, never
    assert!(db.validate_invite_code(invite.code.as_str(), T0 + 100).is_some());
    assert!(db.validate_invite_code(invite.code.as_str(), T0 + 101).is_none());

    let r = create_user_request_at(
        &mut db,
        "g-bob",
        "bob@x.com",
        "Bob",
        Some(invite.code.as_str()),
        T0 + 101,
    );
    assert_eq!(r.unwrap_err(), AuthError::InvalidInvite);
}

#[test]
fn invite_codes_are_distinct() {
    let mut db = Database::new();
    let alice = bootstrap_alice(&mut db);
    let a = db.create_invite_code(alice.id, T0, None).unwrap();
    let b = db.create_invite_code(alice.id, T0, None).unwrap();
    assert_eq!(a.code.len(), 36);
    assert_eq!(b.code.len(), 36);
    assert_ne!(a.code, b.code);
}

#[test]
fn an_invite_code_is_recorded_once() {
    let mut db = Database::new();
    let alice = bootstrap_alice(&mut db);
    let first = db.insert_invite("code-1".to_owned(), alice.id, T0, None).unwrap();
    assert_eq!(first.code, "code-1");
    assert_eq!(first.created_by, alice.id);
    // the same code cannot enter the ledger twice
    let again = db.insert_invite("code-1".to_owned(), alice.id, T0 + 1, None);
    assert_eq!(again.unwrap_err(), AuthError::Internal);
    assert!(db.validate_invite_code("code-1", T0 + 1).is_some());
}

#[test]
fn consume_is_single_use() {
    let mut db = Database::new();
    let alice = bootstrap_alice(&mut db);
    let invite = db.create_invite_code(alice.id, T0, None).unwrap();

    assert!(db.use_invite_code(invite.code.as_str(), alice.id, T0 + 5));
    assert!(!db.use_invite_code(invite.code.as_str(), alice.id, T0 + 6));
    assert!(db.validate_invite_code(invite.code.as_str(), T0 + 6).is_none());
}

#[test]
fn deleting_root_fails_and_changes_nothing() {
    let mut db = Database::new();
    let alice = bootstrap_alice(&mut db);
    let invite = db.create_invite_code(alice.id, T0, None).unwrap();

    assert!(!db.delete_user(alice.id));
    assert_eq!(db.count_registered_users(), 1);
    assert!(db.validate_invite_code(invite.code.as_str(), T0).is_some());
}

#[test]
fn deleting_unknown_user_fails() {
    let mut db = Database::new();
    bootstrap_alice(&mut db);
    assert!(!db.delete_user(999));
    assert_eq!(db.count_registered_users(), 1);
}

#[test]
fn deletion_cascades_over_invites() {
    let mut db = Database::new();
    let alice = bootstrap_alice(&mut db);
    let c1 = db.create_invite_code(alice.id, T0, None).unwrap();
    let bob = create_user_request_at(
        &mut db,
        "g-bob",
        "bob@x.com",
        "Bob",
        Some(c1.code.as_str()),
        T0 + 1,
    )
    .unwrap();
    // an invite bob created, and the one he consumed, both go with him
    let c2 = db.create_invite_code(bob.id, T0 + 2, None).unwrap();
    let c3 = db.create_invite_code(alice.id, T0 + 3, None).unwrap();

    assert!(db.delete_user(bob.id));
    assert_eq!(db.count_registered_users(), 1);
    assert!(db.validate_invite_code(c2.code.as_str(), T0 + 4).is_none());
    assert!(db.validate_invite_code(c1.code.as_str(), T0 + 4).is_none());
    // an invite untouched by bob stays
    assert!(db.validate_invite_code(c3.code.as_str(), T0 + 4).is_some());
}

#[test]
fn delete_request_is_root_gated() {
    let mut db = Database::new();
    let alice = bootstrap_alice(&mut db);
    let c1 = db.create_invite_code(alice.id, T0, None).unwrap();
    let bob = create_user_request_at(
        &mut db,
        "g-bob",
        "bob@x.com",
        "Bob",
        Some(c1.code.as_str()),
        T0 + 1,
    )
    .unwrap();

    // a non-root user may not delete anyone
    let r = delete_user_request(&mut db, "bob@x.com", alice.id);
    assert_eq!(r.unwrap_err(), AuthError::PermissionDenied);
    // the root user may not delete itself
    let r = delete_user_request(&mut db, "alice@x.com", alice.id);
    assert_eq!(r.unwrap_err(), AuthError::InvalidRequest);
    // an unknown requester is unauthorized
    let r = delete_user_request(&mut db, "nobody@x.com", bob.id);
    assert_eq!(r.unwrap_err(), AuthError::Unauthorized);
    // the root target is reported undeletable through the request too
    assert_eq!(db.count_registered_users(), 2);
    let r = delete_user_request(&mut db, "alice@x.com", bob.id);
    assert!(r.is_ok());
    assert_eq!(db.count_registered_users(), 1);
}
