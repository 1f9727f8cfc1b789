//! An invite-gated user registry with token-based authentication.
//!
//! The library models the credential store of a small authentication
//! gateway: a registry of users bootstrapped by a single root user,
//! registration gated by single-use invite codes, and issuance and
//! checking of signed bearer tokens for the protected endpoints.

pub mod database;
pub mod errors;
pub mod flow;
pub mod pending;
mod sys;
pub mod token;
