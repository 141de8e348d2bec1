//! The uniform failure classification the surrounding layers consume to
//! pick their answers: authentication and ownership failures on one side,
//! data and transport failures on the other.

use vstd::prelude::*;

use crate::auth::AuthError;
use crate::clocks::ClockError;

verus! {

/// A failure of any part of the core, for the surrounding layer to
/// classify. No kind is ever swallowed: every operation answers with a
/// typed value or with one of these.
#[derive(Debug, PartialEq, Eq)]
pub enum ContextError {
    /// A redirect or endpoint location could not be parsed; carries the
    /// parser's message.
    UrlParse(String),
    /// The authorization gate failed.
    AuthError(AuthError),
    /// A record operation failed.
    ClockError(ClockError),
}

} // verus!
