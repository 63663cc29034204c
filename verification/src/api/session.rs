//! Who a session belongs to.

use crate::api::state::AppState;
use crate::api::Status;
use crate::session::{parsed_session, SessionId};
use crate::time::DateTime;
use crate::user::resolve_session;
use vstd::prelude::*;

verus! {

/// What is told of an authenticated session: whose it is.
pub struct Session {
    pub username: String,
}

/// Reads the identifier of a session from the path of a request.
pub fn parse_session_id(text: &str) -> (r: Result<SessionId, Status>)
    ensures
        match parsed_session(text@) {
            Some(id) => r matches Ok(session_id) && session_id@ == id,
            None => r matches Err(status) && status == Status::BadRequest,
        },
{
    match SessionId::parse(text) {
        Ok(session_id) => Ok(session_id),
        Err(_) => Err(Status::BadRequest),
    }
}

/// Tells whose the authenticated session `session_id` is at the time `now`.
/// A session that is not there, or is past its lifetime, is not authorized; a
/// record that cannot be read is the service's failure.
pub fn get_session(state: &AppState, session_id: SessionId, now: DateTime) -> (r: Result<
    Session,
    Status,
>)
    requires
        state.wf(),
    ensures
        match resolve_session(state.content(), session_id@, now@) {
            Ok(Some(session)) => r matches Ok(told) && told.username@ == session.username,
            Ok(None) => r matches Err(status) && status == Status::Unauthorized,
            Err(_) => r matches Err(status) && status == Status::InternalServerError,
        },
{
    match crate::user::get_session(&state.storage, session_id, now) {
        Ok(Some(session)) => Ok(Session { username: session.into_username() }),
        Ok(None) => Err(Status::Unauthorized),
        Err(_) => Err(Status::InternalServerError),
    }
}

} // verus!
