//! Login: the two round trips that turn a password into an authenticated
//! session.

use crate::api::state::{
    lemma_changed_once, lemma_changed_twice, lemma_unchanged, stepped, AppState,
};
use crate::api::Status;
use crate::base64::base64url_bytes;
use crate::codec::plain_record;
use crate::opaque::{
    is_login_finalization, is_login_request, is_login_state, login_accepts, parsed_message,
    LoginFinalization, LoginRequest, LoginResponse, LOGIN_RESPONSE_BYTES,
};
use crate::rng::CryptoRng;
use crate::session::{parsed_session, SessionId, SESSION_BYTES};
use crate::storage::Change;
use crate::time::DateTime;
use crate::user::{
    cookie_session, get_password_file, pull_signin_session, push_signin_session, resolve_signin,
    session_key, signin_record, signin_session_key, start_new_session, stored_password_file,
    Session, SessionCookie, SigninSession, SigninSessionView,
};
use vstd::prelude::*;

verus! {

/// The first step: a username and the client's first message.
pub struct StartReq {
    pub username: String,
    pub message: LoginRequest,
}

/// The answer to the first step: the signin session and the server's
/// message.
pub struct StartRes {
    pub session: SessionId,
    pub message: LoginResponse,
}

/// The second step: the signin session and the client's last message.
pub struct FinishReq {
    pub session: SessionId,
    pub message: LoginFinalization,
}

impl StartReq {
    /// Reads the first step as it comes over the wire: the message must be
    /// one.
    pub fn parse(username: String, message: &str) -> (r: Result<StartReq, Status>)
        ensures
            match parsed_message(message@, |bytes: Seq<u8>| is_login_request(bytes)) {
                Some(bytes) => r matches Ok(req) && req.username@ == username@ && req.message@
                    == bytes,
                None => r matches Err(status) && status == Status::UnprocessableEntity,
            },
    {
        match LoginRequest::deserialize(message) {
            Ok(message) => Ok(StartReq { username, message }),
            Err(_) => Err(Status::UnprocessableEntity),
        }
    }
}

impl FinishReq {
    /// Reads the second step as it comes over the wire: the session must be
    /// the printed form of an identifier, and the message must be one.
    pub fn parse(session: &str, message: &str) -> (r: Result<FinishReq, Status>)
        ensures
            match (
                parsed_session(session@),
                parsed_message(message@, |bytes: Seq<u8>| is_login_finalization(bytes)),
            ) {
                (Some(id), Some(bytes)) => r matches Ok(req) && req.session@ == id && req.message@
                    == bytes,
                _ => r matches Err(status) && status == Status::UnprocessableEntity,
            },
    {
        let session = match SessionId::parse(session) {
            Ok(session) => session,
            Err(_) => { return Err(Status::UnprocessableEntity); },
        };
        match LoginFinalization::deserialize(message) {
            Ok(message) => Ok(FinishReq { session, message }),
            Err(_) => Err(Status::UnprocessableEntity),
        }
    }
}

/// Whether `after` and `res` are what a successful first step leaves: a
/// message of the one length that every answer has, and a fresh signin
/// session for the user, created now, that holds a state of the exchange.
pub open spec fn started(
    before: AppState,
    after: AppState,
    res: StartRes,
    username: Seq<char>,
    now: int,
) -> bool {
    &&& res.message@.len() == LOGIN_RESPONSE_BYTES
    &&& res.session@.len() == SESSION_BYTES
    &&& exists|state: Seq<u8>|
        is_login_state(state) && #[trigger] stepped(
            before,
            after,
            seq![
                (
                    signin_session_key(res.session@),
                    Some(signin_record(SigninSessionView { username, state, created_at: now })),
                ),
            ],
        )
}

/// First step of login.
///
/// The exchange runs whether or not the user has registered, and what is
/// answered has the same shape either way. Nothing is stored unless the
/// exchange answers; a password file that cannot be read is the service's
/// failure.
pub fn start(state: &mut AppState, req: StartReq, now: DateTime, rng: &mut CryptoRng) -> (r:
    Result<StartRes, Status>)
    requires
        old(state).wf(),
    ensures
        match r {
            Ok(res) => stored_password_file(old(state).content(), req.username@) is Ok && started(
                *old(state),
                *final(state),
                res,
                req.username@,
                now@,
            ),
            Err(status) => status == Status::InternalServerError && stepped(
                *old(state),
                *final(state),
                Seq::<Change>::empty(),
            ),
        },
{
    let StartReq { username, message } = req;
    proof {
        lemma_unchanged(*old(state));
    }
    let password_file = match get_password_file(&state.storage, username.as_str()) {
        Ok(password_file) => password_file,
        Err(_) => { return Err(Status::InternalServerError); },
    };
    let (response, login_state) = match state.signature.login_start(
        rng,
        username.as_str(),
        password_file,
        message,
    ) {
        Ok(started) => started,
        Err(_) => { return Err(Status::InternalServerError); },
    };
    let ghost name = username@;
    let ghost exchange = login_state@;
    let session = SigninSession::new(username, login_state, now);
    let session_id = push_signin_session(&mut state.storage, session, rng);
    proof {
        let change = (
            signin_session_key(session_id@),
            Some(
                signin_record(
                    SigninSessionView { username: name, state: exchange, created_at: now@ },
                ),
            ),
        );
        lemma_changed_once(*old(state), *state, change);
        assert(is_login_state(exchange));
        assert(stepped(*old(state), *state, seq![change]));
    }
    Ok(StartRes { session: session_id, message: response })
}

/// What the second step comes to in the store `content` at the time `now`:
/// the user who is logged in, or the status of the failure.
pub open spec fn finish_outcome(
    state: AppState,
    id: Seq<u8>,
    finalization: Seq<u8>,
    now: int,
) -> Result<Seq<char>, Status> {
    match resolve_signin(state.content(), id, now) {
        Ok(Some(session)) => if login_accepts(session.state, finalization) {
            Ok(session.username)
        } else {
            Err(Status::Unauthorized)
        },
        Ok(None) => Err(Status::Unauthorized),
        Err(_) => Err(Status::InternalServerError),
    }
}

/// Whether `after` and `cookie` are what a successful second step leaves:
/// the signin session gone, a fresh authenticated session for the user,
/// created now, and the cookie of that session.
pub open spec fn finished(
    before: AppState,
    after: AppState,
    cookie: SessionCookie,
    id: Seq<u8>,
    username: Seq<char>,
    now: int,
) -> bool {
    &&& base64url_bytes(cookie.value@) is Some
    &&& cookie_session(cookie).len() == SESSION_BYTES
    &&& Session::is_session_cookie(cookie, cookie_session(cookie))
    &&& stepped(
        before,
        after,
        seq![
            (signin_session_key(id), None),
            (session_key(cookie_session(cookie)), Some(plain_record(now, username))),
        ],
    )
}

/// Finish login.
///
/// The signin session is consumed whatever comes of the step: a failed
/// login cannot be tried again on the same session. An authenticated session
/// starts only where the signin session is there, within its lifetime, and
/// the exchange accepts the client's last message.
pub fn finish(state: &mut AppState, req: FinishReq, now: DateTime, rng: &mut CryptoRng) -> (r:
    Result<SessionCookie, Status>)
    requires
        old(state).wf(),
    ensures
        match finish_outcome(*old(state), req.session@, req.message@, now@) {
            Ok(username) => r matches Ok(cookie) && finished(
                *old(state),
                *final(state),
                cookie,
                req.session@,
                username,
                now@,
            ),
            Err(status) => r matches Err(s) && s == status && stepped(
                *old(state),
                *final(state),
                seq![(signin_session_key(req.session@), None)],
            ),
        },
{
    let FinishReq { session: session_id, message } = req;
    let ghost id = session_id@;
    let pulled = pull_signin_session(&mut state.storage, session_id, now);
    let ghost between = state.storage;
    proof {
        lemma_changed_once(*old(state), *state, (signin_session_key(id), None));
    }
    let session = match pulled {
        Ok(Some(session)) => session,
        Ok(None) => { return Err(Status::Unauthorized); },
        Err(_) => { return Err(Status::InternalServerError); },
    };
    let (username, login_state) = session.into_parts();
    if state.signature.login_finish(login_state, message).is_err() {
        return Err(Status::Unauthorized);
    }
    let ghost name = username@;
    let cookie = start_new_session(&mut state.storage, username, now, rng);
    proof {
        lemma_changed_twice(
            *old(state),
            between,
            *state,
            (signin_session_key(id), None),
            (session_key(cookie_session(cookie)), Some(plain_record(now@, name))),
        );
    }
    Ok(cookie)
}

} // verus!
