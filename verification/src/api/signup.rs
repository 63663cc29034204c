//! Registration: the two round trips that turn an invitation into a
//! password file.

use crate::api::state::{
    lemma_changed_once, lemma_changed_twice, lemma_unchanged, stepped, AppState,
};
use crate::api::Status;
use crate::codec::plain_record;
use crate::invitation::{verified_invitation, InvitationCode};
use crate::opaque::{
    is_registration_request, is_registration_upload, parsed_message, registration_record,
    OpaqueServer, RegistrationRequest, RegistrationResponse, RegistrationUpload,
};
use crate::rng::CryptoRng;
use crate::session::{parsed_session, SessionId, SESSION_BYTES};
use crate::storage::Change;
use crate::time::DateTime;
use crate::user::{
    password_key, pull_signup_session, push_signup_session, resolve_signup, signup_session_key,
    SignupSession, UserTable,
};
use vstd::prelude::*;

verus! {

/// A registration request: one of the two steps.
pub enum Request {
    Start(StartReq),
    Finish(FinishReq),
}

/// What is answered to a registration request.
pub enum Response {
    Start(StartRes),
    Finish(FinishRes),
}

/// The first step: an invitation and the client's first message.
pub struct StartReq {
    pub code: InvitationCode,
    pub message: RegistrationRequest,
}

/// The answer to the first step: the signup session and the server's
/// message.
pub struct StartRes {
    pub session: SessionId,
    pub message: RegistrationResponse,
}

/// The second step: the signup session and the client's last message.
pub struct FinishReq {
    pub session: SessionId,
    pub message: RegistrationUpload,
}

/// The answer to the second step: nothing but that it is done.
pub struct FinishRes {}

impl StartReq {
    /// Reads the first step as it comes over the wire. The invitation is
    /// taken as it is and checked when the step is taken; the message must be
    /// one.
    pub fn parse(code: String, message: &str) -> (r: Result<StartReq, Status>)
        ensures
            match parsed_message(message@, |bytes: Seq<u8>| is_registration_request(bytes)) {
                Some(bytes) => r matches Ok(req) && req.code@ == code@ && req.message@ == bytes,
                None => r matches Err(status) && status == Status::UnprocessableEntity,
            },
    {
        match RegistrationRequest::deserialize(message) {
            Ok(message) => Ok(StartReq { code: InvitationCode::new(code), message }),
            Err(_) => Err(Status::UnprocessableEntity),
        }
    }
}

impl FinishReq {
    /// Reads the second step as it comes over the wire: the session must be
    /// the printed form of an identifier, and the message must be one.
    pub fn parse(session: &str, message: &str) -> (r: Result<FinishReq, Status>)
        ensures
            match (
                parsed_session(session@),
                parsed_message(message@, |bytes: Seq<u8>| is_registration_upload(bytes)),
            ) {
                (Some(id), Some(bytes)) => r matches Ok(req) && req.session@ == id && req.message@
                    == bytes,
                _ => r matches Err(status) && status == Status::UnprocessableEntity,
            },
    {
        let session = match SessionId::parse(session) {
            Ok(session) => session,
            Err(_) => { return Err(Status::UnprocessableEntity); },
        };
        match RegistrationUpload::deserialize(message) {
            Ok(message) => Ok(FinishReq { session, message }),
            Err(_) => Err(Status::UnprocessableEntity),
        }
    }
}

/// What the first step comes to in the state `state` at the time `now`: the
/// invited username and the server's message, or the status of the failure.
pub open spec fn start_outcome(
    state: AppState,
    code: Seq<char>,
    message: Seq<u8>,
    now: int,
) -> Result<(Seq<char>, Seq<u8>), Status> {
    match verified_invitation(state.key(), code, now) {
        Some(invitation) => match OpaqueServer::spec_registration_start(
            state.setup(),
            invitation.username,
            message,
        ) {
            Some(response) => Ok((invitation.username, response)),
            None => Err(Status::InternalServerError),
        },
        None => Err(Status::Unauthorized),
    }
}

/// Registration endpoint
pub fn signup(state: &mut AppState, req: Request, now: DateTime, rng: &mut CryptoRng) -> (r:
    Result<Response, Status>)
    requires
        old(state).wf(),
    ensures
        final(state).wf(),
        req matches Request::Start(start) ==> is_start(*old(state), *final(state), start, now@, r),
        req matches Request::Finish(finish) ==> is_finish(
            *old(state),
            *final(state),
            finish,
            now@,
            r,
        ),
{
    match req {
        Request::Start(req) => match start(state, req, now, rng) {
            Ok(res) => Ok(Response::Start(res)),
            Err(status) => Err(status),
        },
        Request::Finish(req) => match finish(state, req, now) {
            Ok(res) => Ok(Response::Finish(res)),
            Err(status) => Err(status),
        },
    }
}

/// Whether `r` and `after` are what the first step makes of `req` in the
/// state `before`.
pub open spec fn is_start(
    before: AppState,
    after: AppState,
    req: StartReq,
    now: int,
    r: Result<Response, Status>,
) -> bool {
    match start_outcome(before, req.code@, req.message@, now) {
        Ok((username, response)) => r matches Ok(Response::Start(res)) && started(
            before,
            after,
            res,
            username,
            response,
            now,
        ),
        Err(status) => r matches Err(s) && s == status && stepped(
            before,
            after,
            Seq::<Change>::empty(),
        ),
    }
}

/// Whether `r` and `after` are what the second step makes of `req` in the
/// state `before`.
pub open spec fn is_finish(
    before: AppState,
    after: AppState,
    req: FinishReq,
    now: int,
    r: Result<Response, Status>,
) -> bool {
    match resolve_signup(before.content(), req.session@, now) {
        Ok(Some(session)) => r matches Ok(Response::Finish(_)) && stepped(
            before,
            after,
            finish_changes(req.session@, Some(session.username), req.message@),
        ),
        Ok(None) => r matches Err(s) && s == Status::Unauthorized && stepped(
            before,
            after,
            finish_changes(req.session@, None, req.message@),
        ),
        Err(_) => r matches Err(s) && s == Status::InternalServerError && stepped(
            before,
            after,
            finish_changes(req.session@, None, req.message@),
        ),
    }
}

/// Whether `after` and `res` are what a successful first step leaves: the
/// server's message, and a fresh signup session for the invited user, created
/// now.
pub open spec fn started(
    before: AppState,
    after: AppState,
    res: StartRes,
    username: Seq<char>,
    response: Seq<u8>,
    now: int,
) -> bool {
    &&& res.message@ == response
    &&& res.session@.len() == SESSION_BYTES
    &&& stepped(
        before,
        after,
        seq![(signup_session_key(res.session@), Some(plain_record(now, username)))],
    )
}

/// First step of registration.
///
/// The invitation decides whose registration this is. Nothing is stored
/// unless the invitation is valid now and the exchange answers.
pub fn start(state: &mut AppState, req: StartReq, now: DateTime, rng: &mut CryptoRng) -> (r:
    Result<StartRes, Status>)
    requires
        old(state).wf(),
    ensures
        match start_outcome(*old(state), req.code@, req.message@, now@) {
            Ok((username, response)) => r matches Ok(res) && started(
                *old(state),
                *final(state),
                res,
                username,
                response,
                now@,
            ),
            Err(status) => r matches Err(s) && s == status && stepped(
                *old(state),
                *final(state),
                Seq::<Change>::empty(),
            ),
        },
{
    let StartReq { code, message } = req;
    proof {
        lemma_unchanged(*old(state));
    }
    let invitation = match state.invitation_key.verify(&code, now) {
        Ok(invitation) => invitation,
        Err(_) => { return Err(Status::Unauthorized); },
    };
    let username = invitation.into_username();
    let response = match state.signature.registration_start(username.as_str(), message) {
        Ok(response) => response,
        Err(_) => { return Err(Status::InternalServerError); },
    };
    let ghost name = username@;
    let session = SignupSession::new(username, now);
    let session_id = push_signup_session(&mut state.storage, session, rng);
    proof {
        lemma_changed_once(
            *old(state),
            *state,
            (signup_session_key(session_id@), Some(plain_record(now@, name))),
        );
    }
    Ok(StartRes { session: session_id, message: response })
}

/// The changes that the second step makes: the signup session goes, and
/// where it was valid the password file of its user comes.
pub open spec fn finish_changes(id: Seq<u8>, username: Option<Seq<char>>, upload: Seq<u8>) -> Seq<
    Change,
> {
    match username {
        Some(username) => seq![
            (signup_session_key(id), None),
            (password_key(username), Some(registration_record(upload))),
        ],
        None => seq![(signup_session_key(id), None)],
    }
}

/// Finish registration.
///
/// The signup session is consumed whatever comes of the step. The password
/// file is stored for the user that the signup session names, and only where
/// that session is there and within its lifetime.
pub fn finish(state: &mut AppState, req: FinishReq, now: DateTime) -> (r: Result<
    FinishRes,
    Status,
>)
    requires
        old(state).wf(),
    ensures
        match resolve_signup(old(state).content(), req.session@, now@) {
            Ok(Some(session)) => r is Ok && stepped(
                *old(state),
                *final(state),
                finish_changes(req.session@, Some(session.username), req.message@),
            ),
            Ok(None) => r matches Err(s) && s == Status::Unauthorized && stepped(
                *old(state),
                *final(state),
                finish_changes(req.session@, None, req.message@),
            ),
            Err(_) => r matches Err(s) && s == Status::InternalServerError && stepped(
                *old(state),
                *final(state),
                finish_changes(req.session@, None, req.message@),
            ),
        },
{
    let FinishReq { session: session_id, message } = req;
    let ghost id = session_id@;
    let ghost upload = message@;
    let pulled = pull_signup_session(&mut state.storage, session_id, now);
    let ghost between = state.storage;
    proof {
        lemma_changed_once(*old(state), *state, (signup_session_key(id), None));
    }
    let session = match pulled {
        Ok(Some(session)) => session,
        Ok(None) => { return Err(Status::Unauthorized); },
        Err(_) => { return Err(Status::InternalServerError); },
    };
    let username = session.into_username();
    let password_file = state.signature.registration_finish(message);
    state.storage.register_user_password(username.as_str(), password_file);
    proof {
        lemma_changed_twice(
            *old(state),
            between,
            *state,
            (signup_session_key(id), None),
            (password_key(username@), Some(registration_record(upload))),
        );
    }
    Ok(FinishRes {  })
}

} // verus!
