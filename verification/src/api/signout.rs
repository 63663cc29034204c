//! Signing out.

use crate::api::state::{lemma_changed_once, lemma_unchanged, stepped, AppState};
use crate::api::Status;
use crate::session::{parsed_session, SessionId};
use crate::storage::Change;
use crate::user::{finish_session, session_key, Session, SessionCookie};
use vstd::prelude::*;

verus! {

/// The session that the value of a session cookie names, if it names one.
pub open spec fn named_session(value: Option<Seq<char>>) -> Option<Seq<u8>> {
    match value {
        Some(text) => parsed_session(text),
        None => None,
    }
}

/// The view of the value of a cookie that may be missing.
pub open spec fn value_view(value: Option<&str>) -> Option<Seq<char>> {
    match value {
        Some(text) => Some(text@),
        None => None,
    }
}

/// Ends the session that the session cookie names and tells the client to
/// forget the cookie. Without a cookie, or with one that names no session,
/// there is nothing to end and nothing changes.
pub fn signout(state: &mut AppState, cookie: Option<&str>) -> (r: Result<SessionCookie, Status>)
    requires
        old(state).wf(),
    ensures
        match named_session(value_view(cookie)) {
            Some(id) => r matches Ok(removal) && Session::is_removal_cookie(removal) && stepped(
                *old(state),
                *final(state),
                seq![(session_key(id), None)],
            ),
            None => r matches Err(status) && status == Status::Success && stepped(
                *old(state),
                *final(state),
                Seq::<Change>::empty(),
            ),
        },
{
    proof {
        lemma_unchanged(*old(state));
    }
    let value = match cookie {
        Some(value) => value,
        None => { return Err(Status::Success); },
    };
    let session_id = match SessionId::parse(value) {
        Ok(session_id) => session_id,
        Err(_) => { return Err(Status::Success); },
    };
    let ghost id = session_id@;
    let removal = finish_session(&mut state.storage, session_id);
    proof {
        lemma_changed_once(*old(state), *state, (session_key(id), None));
    }
    Ok(removal)
}

} // verus!
