//! The authorization gate. Resolving a session token to an identity is the
//! outside identity provider's work; the decisions around that call — token
//! presence, identity shape, identity-equals-claimed-owner — live here, and
//! every record operation on an owner's data waits for all three to
//! succeed. Authorization has no side effects on the store.

use vstd::prelude::*;

use crate::uid::{is_uuid_text, Uid};

verus! {

/// Every way authorization can fail.
#[derive(Debug, PartialEq, Eq)]
pub enum AuthError {
    /// The identity provider could not answer; carries its message.
    AwsGetUser(String),
    /// No session token came with the request.
    MissingAuthenticationCookie,
    /// The session resolves to an identity other than the claimed owner.
    Unauthorized,
    /// The resolved identity is not a well-formed identifier.
    ParseIdentifier,
}

/// The token-presence check: fails exactly when the caller supplied no
/// token; a supplied token passes through untouched.
pub fn require_access_token(token: Option<String>) -> (r: Result<String, AuthError>)
    ensures
        token matches Option::Some(t) ==> (r matches Result::Ok(u) && u@ == t@),
        token is None <==> (r matches Result::Err(AuthError::MissingAuthenticationCookie)),
{
    match token {
        Option::Some(t) => Result::Ok(t),
        Option::None => Result::Err(AuthError::MissingAuthenticationCookie),
    }
}

/// The identity check on a resolved session: the username the provider
/// answered with must be a well-formed identifier — a malformed one is an
/// error, never a crash — and must equal the claimed owner.
pub fn verify_session_claim_to_uuid(resolved_username: &str, user_id: &Uid) -> (r: Result<
    Uid,
    AuthError,
>)
    ensures
        !is_uuid_text(resolved_username@) ==> (r matches Result::Err(AuthError::ParseIdentifier)),
        is_uuid_text(resolved_username@) && resolved_username@ != user_id@ ==> (r matches Result::Err(
            AuthError::Unauthorized,
        )),
        is_uuid_text(resolved_username@) && resolved_username@ == user_id@ ==> (r matches Result::Ok(
            u,
        ) && u@ == user_id@),
{
    match Uid::parse(resolved_username) {
        Option::Some(u) => {
            if u.same(user_id) {
                Result::Ok(u)
            } else {
                Result::Err(AuthError::Unauthorized)
            }
        },
        Option::None => Result::Err(AuthError::ParseIdentifier),
    }
}

} // verus!
