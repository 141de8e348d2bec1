//! The request and response shapes the core defines for the HTTP layer
//! around it: what a caller sends to create or edit a record, what comes
//! back, and the shapes of the session endpoints.

use vstd::prelude::*;

use crate::clocks::{ClockInTimeUpdate, ClockSchema, EditClockInputStrategy};
use crate::context::ContextError;
use crate::uid::Uid;

verus! {

/// Query parameters of the sign-in redirect: the authorization code, when
/// the identity provider supplied one.
#[derive(Debug, PartialEq, Eq)]
pub struct RedirectParams {
    pub code: Option<String>,
}

/// The token set the identity provider answers the code exchange with.
#[derive(Debug, PartialEq, Eq)]
pub struct AwsCognitoRedirect {
    pub access_token: String,
    pub expires_in: i64,
    pub id_token: String,
    pub refresh_token: String,
    pub token_type: String,
}

/// The signed-in user, as the session endpoint reports it: the username and
/// the provider's attribute list.
#[derive(Debug, PartialEq, Eq)]
pub struct GetUser {
    pub username: String,
    pub user_attributes: Vec<(String, Option<String>)>,
}

/// Failure of the session endpoint.
#[derive(Debug, PartialEq, Eq)]
pub enum GetUserError {
    ContextError(ContextError),
}

/// Body of a create request.
#[derive(Debug, PartialEq, Eq)]
pub struct CreateClockBody {
    pub name: String,
}

/// Body of an edit request: each field independently optional, the
/// clock-in time as the explicit three-way instruction.
#[derive(Debug)]
pub struct EditClockBody {
    pub name: Option<String>,
    pub active: Option<bool>,
    pub clock_in_time: ClockInTimeUpdate,
}

impl EditClockBody {
    /// The field patch this body asks for, on behalf of the given owner.
    pub fn into_strategy(self, identity_pool_user_id: Uid) -> (r: EditClockInputStrategy)
        ensures
            r == (EditClockInputStrategy::Fields {
                identity_pool_user_id,
                name: self.name,
                active: self.active,
                clock_in_time: self.clock_in_time,
            }),
    {
        EditClockInputStrategy::Fields {
            identity_pool_user_id,
            name: self.name,
            active: self.active,
            clock_in_time: self.clock_in_time,
        }
    }
}

/// Answer of an edit request: the updated record, or nothing for a no-op.
#[derive(Debug)]
pub struct EditClockResponse {
    pub clock: Option<ClockSchema>,
}

/// Answer of a delete request: the removed record's last snapshot.
#[derive(Debug)]
pub struct DeleteClockResponse {
    pub clock: ClockSchema,
}

} // verus!
