//! The operations that the service offers over the wire, each as a function
//! of the application state and the request.

pub mod session;
pub mod signin;
pub mod signout;
pub mod signup;
pub mod state;

use crate::api::state::AppState;
use crate::db::{bootstrap_content, bootstrap_pending, first_signup_invitation, is_bootstrap};
use crate::invitation::{InvitationCode, IssueError};
use crate::time::DateTime;
use vstd::prelude::*;

verus! {

/// How a request ended, for the transport to report.
#[derive(Clone, Copy, Debug, PartialEq, Eq, Structural)]
pub enum Status {
    /// The request was served.
    Success,
    /// The request was served and there is nothing to say.
    NoContent,
    /// The request names a session by something that is no identifier.
    BadRequest,
    /// The caller did not show a valid invitation, session or password.
    Unauthorized,
    /// The request carries a message that is not what it should be.
    UnprocessableEntity,
    /// The service could not do its part.
    InternalServerError,
}

impl Status {
    /// The HTTP status code.
    pub fn code(&self) -> (code: u16)
        ensures
            code == match *self {
                Status::Success => 200u16,
                Status::NoContent => 204u16,
                Status::BadRequest => 400u16,
                Status::Unauthorized => 401u16,
                Status::UnprocessableEntity => 422u16,
                Status::InternalServerError => 500u16,
            },
    {
        match self {
            Status::Success => 200,
            Status::NoContent => 204,
            Status::BadRequest => 400,
            Status::Unauthorized => 401,
            Status::UnprocessableEntity => 422,
            Status::InternalServerError => 500,
        }
    }
}

/// The health check: the service is up and has nothing to say.
pub fn health() -> (status: Status)
    ensures
        status == Status::NoContent,
{
    Status::NoContent
}

/// Generate an invitation code for the administrator, once: see
/// [`first_signup_invitation`].
pub fn bootstrap(state: &mut AppState, admin: &str, now: DateTime) -> (r: Result<
    Option<InvitationCode>,
    IssueError,
>)
    requires
        old(state).wf(),
    ensures
        final(state).wf(),
        final(state).setup() == old(state).setup(),
        final(state).key() == old(state).key(),
        final(state).content() == bootstrap_content(old(state).content(), admin@, now@),
        final(state).pending() == bootstrap_pending(
            old(state).pending(),
            old(state).content(),
            admin@,
            now@,
        ),
        final(state).durable() == old(state).durable(),
        is_bootstrap(r, old(state).key(), old(state).content(), admin@, now@),
{
    first_signup_invitation(&mut state.storage, &state.invitation_key, admin, now)
}

} // verus!
