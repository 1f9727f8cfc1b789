//! The stateless credential: signed bearer tokens.
//!
//! A token carries the claims {subject, email, issued-at, expiry}, with
//! the expiry fixed at twenty-four hours past issuance.  Its validity is
//! determined purely by the signature and the expiry; there is no
//! revocation list.  A protected request therefore re-checks, besides the
//! token itself, that the subject's email still names a registered user,
//! so that a deleted user's not-yet-expired token stops working at once.

use vstd::prelude::*;

use crate::database::has_email;
use crate::database::Database;
use crate::errors::AuthError;

verus! {

/// How long a signed token stays valid, in seconds.
pub const TOKEN_LIFETIME_SECONDS: i64 = 86400;

/// The claims carried by a signed bearer token.
#[derive(Debug)]
pub struct Claims {
    /// The subject: the user's store identifier.
    pub sub: i64,
    /// The user's email at issuance.
    pub email: String,
    /// When the token was issued.
    pub iat: i64,
    /// When the token stops being accepted.
    pub exp: i64,
}

impl Clone for Claims {
    fn clone(&self) -> (res: Self)
        ensures
            res == *self,
    {
        Claims { sub: self.sub, email: self.email.clone(), iat: self.iat, exp: self.exp }
    }
}

/// The token that signing the given claims with the given secret yields.
pub uninterp spec fn jwt_of(sub: int, email: Seq<char>, iat: int, exp: int, secret: Seq<char>) -> Seq<char>;

/// The subject a token's payload embeds, as read back by the decoder.
pub uninterp spec fn sub_of(token: Seq<char>) -> int;

/// The email a token's payload embeds, as read back by the decoder.
pub uninterp spec fn email_of(token: Seq<char>) -> Seq<char>;

/// The issued-at time a token's payload embeds, as read back by the
/// decoder.
pub uninterp spec fn iat_of(token: Seq<char>) -> int;

/// The expiry a token's payload embeds, as read back by the decoder.
pub uninterp spec fn exp_of(token: Seq<char>) -> int;

/// Relies on jsonwebtoken's `encode` with the default header and a
/// secret-based HMAC key: the token it produces is a function of the
/// claims and the secret alone, and the call cannot fail — an HMAC key
/// of any length is accepted, HMAC signing is infallible, and the fixed
/// header and claims map always serialize.
#[verifier::external_body]
fn encode_jwt(claims: &Claims, secret: &str) -> (r: Option<String>)
    ensures
        r is Some,
        r matches Some(t) ==> t@ == jwt_of(
            claims.sub as int,
            claims.email@,
            claims.iat as int,
            claims.exp as int,
            secret@,
        ),
{
    let mut payload = serde_json::Map::new();
    payload.insert("sub".to_owned(), serde_json::Value::from(claims.sub.to_string()));
    payload.insert("email".to_owned(), serde_json::Value::from(claims.email.clone()));
    payload.insert("iat".to_owned(), serde_json::Value::from(claims.iat));
    payload.insert("exp".to_owned(), serde_json::Value::from(claims.exp));
    let key = jsonwebtoken::EncodingKey::from_secret(secret.as_bytes());
    jsonwebtoken::encode(&jsonwebtoken::Header::default(), &payload, &key).ok()
}

/// Relies on jsonwebtoken's `decode` with the default validation: the
/// claims come back only when the signature matches the secret and the
/// expiry does not lie in the past of the system clock.  Whether a
/// token is accepted depends on that clock, so acceptance is not
/// promised; the claims of an accepted token are read off the token's
/// payload alone, so they carry their names.
#[verifier::external_body]
fn decode_jwt(token: &str, secret: &str) -> (r: Option<Claims>)
    ensures
        r matches Some(c) ==> {
            &&& c.sub as int == sub_of(token@)
            &&& c.email@ == email_of(token@)
            &&& c.iat as int == iat_of(token@)
            &&& c.exp as int == exp_of(token@)
        },
{
    let key = jsonwebtoken::DecodingKey::from_secret(secret.as_bytes());
    let validation = jsonwebtoken::Validation::default();
    let data = jsonwebtoken::decode::<serde_json::Value>(token, &key, &validation).ok()?;
    let sub = data.claims.get("sub")?.as_str()?.parse::<i64>().ok()?;
    let email = data.claims.get("email")?.as_str()?.to_owned();
    let iat = data.claims.get("iat")?.as_i64()?;
    let exp = data.claims.get("exp")?.as_i64()?;
    Some(Claims { sub, email, iat, exp })
}

/// The claims for a token issued to `user_id` at `now`: the expiry is
/// the issuance time plus the token lifetime.
pub fn issue_claims(user_id: i64, email: &str, now: i64) -> (c: Claims)
    requires
        now <= i64::MAX - TOKEN_LIFETIME_SECONDS,
    ensures
        c.sub == user_id,
        c.email@ == email@,
        c.iat == now,
        c.exp == now + TOKEN_LIFETIME_SECONDS,
{
    Claims { sub: user_id, email: email.to_owned(), iat: now, exp: now + TOKEN_LIFETIME_SECONDS }
}

/// Issue a signed bearer token: claims {subject, email, issued-at,
/// expiry a day later}, signed with the server secret.  The signer
/// cannot refuse.
pub fn issue_token(user_id: i64, email: &str, now: i64, secret: &str) -> (t: String)
    requires
        now <= i64::MAX - TOKEN_LIFETIME_SECONDS,
    ensures
        t@ == jwt_of(user_id as int, email@, now as int, now + TOKEN_LIFETIME_SECONDS, secret@),
{
    let claims = issue_claims(user_id, email, now);
    match encode_jwt(&claims, secret) {
        Some(t) => t,
        None => unreached(),
    }
}

/// Admit decoded claims to the protected endpoints: accepted exactly
/// when the email inside them still names a registered user, and handed
/// back unchanged.
pub fn admit_claims(db: &Database, claims: Claims) -> (r: Result<Claims, AuthError>)
    requires
        db.wf(),
    ensures
        r is Ok <==> has_email(db.users@, claims.email@),
        r matches Ok(c) ==> c == claims,
        r matches Err(e) ==> e == AuthError::Unauthorized,
{
    if db.is_user_registered(claims.email.as_str()) {
        Ok(claims)
    } else {
        Err(AuthError::Unauthorized)
    }
}

/// Admit a bearer token to the protected endpoints.  The token must
/// decode under the secret, and the email its payload embeds must still
/// name a registered user: a user deleted after issuance is turned away
/// on every later request, however long the token itself would stay
/// valid.
pub fn authenticate(db: &Database, token: &str, secret: &str) -> (r: Result<Claims, AuthError>)
    requires
        db.wf(),
    ensures
        r matches Ok(c) ==> {
            &&& c.sub as int == sub_of(token@)
            &&& c.email@ == email_of(token@)
            &&& c.iat as int == iat_of(token@)
            &&& c.exp as int == exp_of(token@)
            &&& has_email(db.users@, c.email@)
        },
        !has_email(db.users@, email_of(token@)) ==> r is Err,
        r matches Err(e) ==> e == AuthError::Unauthorized,
{
    match decode_jwt(token, secret) {
        None => Err(AuthError::Unauthorized),
        Some(claims) => admit_claims(db, claims),
    }
}

} // verus!
