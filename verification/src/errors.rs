//! The error taxonomy of the gateway.
//!
//! Every request ends in exactly one of these outcomes; none of them is
//! retried automatically.

use vstd::prelude::*;

verus! {

/// One terminal outcome of a failed request.
#[derive(Clone, Copy, Debug, PartialEq, Eq, Structural)]
pub enum AuthError {
    /// The identity provider exchange or profile fetch failed.
    UpstreamAuthFailure,
    /// A registration was attempted for an email that already has a user.
    AlreadyRegistered,
    /// A login was attempted for an email with no user.
    NotRegistered,
    /// A non-bootstrap registration arrived without an invite code.
    InviteRequired,
    /// The invite code given is unknown, consumed, inactive or expired.
    InvalidInvite,
    /// The caller lacks the right the action is gated on.
    PermissionDenied,
    /// The bearer credential is missing, malformed or stale.
    Unauthorized,
    /// The user or invite addressed does not exist or cannot be touched.
    NotFound,
    /// The request itself is malformed.
    InvalidRequest,
    /// A token was requested under a grant type the server does not
    /// offer.
    UnsupportedGrantType,
    /// The store or the signer failed; never expected, never retried.
    Internal,
}

impl AuthError {
    /// The HTTP status the outcome is rendered with.
    pub fn status_code(&self) -> (code: u16)
        ensures
            code == self.spec_status_code(),
    {
        match self {
            AuthError::UpstreamAuthFailure => 400,
            AuthError::AlreadyRegistered => 400,
            AuthError::NotRegistered => 401,
            AuthError::InviteRequired => 400,
            AuthError::InvalidInvite => 400,
            AuthError::PermissionDenied => 403,
            AuthError::Unauthorized => 401,
            AuthError::NotFound => 404,
            AuthError::InvalidRequest => 400,
            AuthError::UnsupportedGrantType => 400,
            AuthError::Internal => 500,
        }
    }

    /// The status each outcome carries.
    pub open spec fn spec_status_code(self) -> u16 {
        match self {
            AuthError::UpstreamAuthFailure => 400,
            AuthError::AlreadyRegistered => 400,
            AuthError::NotRegistered => 401,
            AuthError::InviteRequired => 400,
            AuthError::InvalidInvite => 400,
            AuthError::PermissionDenied => 403,
            AuthError::Unauthorized => 401,
            AuthError::NotFound => 404,
            AuthError::InvalidRequest => 400,
            AuthError::UnsupportedGrantType => 400,
            AuthError::Internal => 500,
        }
    }
}

} // verus!
