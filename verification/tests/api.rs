use authcore::api::state::AppState;
use authcore::api::{bootstrap, health, session, signin, signout, signup, Status};
use authcore::config::{ConfigKey, InvalidKey};
use authcore::invitation::{InvitationCode, InvitationKey};
use authcore::opaque::{
    CipherSuite, LoginFinalization, LoginRequest, OpaqueServer, RegistrationRequest,
    RegistrationUpload,
};
use authcore::rng::CryptoRng;
use authcore::session::SessionId;
use authcore::storage::KVStorage;
use authcore::time::{DateTime, Duration};
use base64ct::{Base64Url, Encoding};
use opaque_ke::rand::rngs::OsRng;
use opaque_ke::{
    ClientLogin, ClientLoginFinishParameters, ClientRegistration,
    ClientRegistrationFinishParameters, CredentialResponse, RegistrationResponse,
};

const T0: i128 = 1_700_000_000_000_000_000;
const SECOND: i128 = 1_000_000_000;
const KEY: &str = "AAECAwQFBgcICQoLDA0ODxAREhMUFRYXGBkaGxwdHh8=";

fn at(nanos: i128) -> DateTime {
    DateTime::from_unix_timestamp_nanos(nanos).unwrap()
}

fn again(id: &SessionId) -> SessionId {
    SessionId::parse(&id.serialize()).unwrap()
}

fn fresh_state(rng: &mut CryptoRng) -> AppState {
    let config = ConfigKey {
        opaque: OpaqueServer::generate_random_key(rng),
        invitation: KEY.to_string(),
        session: "session-signing-key".to_string(),
    };
    AppState::from_config(KVStorage::new(), &config).ok().unwrap()
}

fn invite(state: &AppState, username: &str, now: i128) -> InvitationCode {
    state
        .invitation_key()
        .issue(username, Duration::hours(24), at(now))
        .ok()
        .unwrap()
}

fn register(
    state: &mut AppState,
    rng: &mut CryptoRng,
    code: InvitationCode,
    password: &[u8],
    now: i128,
) -> Result<(), Status> {
    let mut client_rng = OsRng;
    let start = ClientRegistration::<CipherSuite>::start(&mut client_rng, password).unwrap();
    let message = RegistrationRequest::from_bytes(start.message.serialize().to_vec()).unwrap();
    let started = signup::start(state, signup::StartReq { code, message }, at(now), rng)?;
    let response =
        RegistrationResponse::<CipherSuite>::deserialize(started.message.as_bytes()).unwrap();
    let finish = start
        .state
        .finish(
            &mut client_rng,
            password,
            response,
            ClientRegistrationFinishParameters::default(),
        )
        .unwrap();
    let message = RegistrationUpload::from_bytes(finish.message.serialize().to_vec()).unwrap();
    let req = signup::FinishReq {
        session: started.session,
        message,
    };
    signup::finish(state, req, at(now + SECOND)).map(|_| ())
}

fn log_in(
    state: &mut AppState,
    rng: &mut CryptoRng,
    username: &str,
    password: &[u8],
    now: i128,
) -> Result<String, Status> {
    let mut client_rng = OsRng;
    let start = ClientLogin::<CipherSuite>::start(&mut client_rng, password).unwrap();
    let message = LoginRequest::from_bytes(start.message.serialize().to_vec()).unwrap();
    let req = signin::StartReq {
        username: username.to_string(),
        message,
    };
    let started = signin::start(state, req, at(now), rng)?;
    assert_eq!(started.message.as_bytes().len(), 320);
    let response =
        CredentialResponse::<CipherSuite>::deserialize(started.message.as_bytes()).unwrap();
    let message = match start.state.finish(
        password,
        response,
        ClientLoginFinishParameters::default(),
    ) {
        Ok(finish) => LoginFinalization::from_bytes(finish.message.serialize().to_vec()).unwrap(),
        Err(_) => LoginFinalization::from_bytes(vec![0u8; 64]).unwrap(),
    };
    let req = signin::FinishReq {
        session: started.session,
        message,
    };
    let cookie = signin::finish(state, req, at(now + SECOND), rng)?;
    assert_eq!(cookie.name, "SESSIONID");
    assert!(cookie.secure);
    assert!(cookie.http_only);
    Ok(cookie.value)
}

#[test]
fn status_codes() {
    assert_eq!(Status::Success.code(), 200);
    assert_eq!(Status::NoContent.code(), 204);
    assert_eq!(Status::Unauthorized.code(), 401);
    assert_eq!(Status::InternalServerError.code(), 500);
    assert_eq!(health(), Status::NoContent);
}

#[test]
fn state_is_made_from_the_configured_keys() {
    let mut rng = CryptoRng::new();
    let opaque = OpaqueServer::generate_random_key(&mut rng);
    let good = ConfigKey {
        opaque: opaque.clone(),
        invitation: KEY.to_string(),
        session: String::new(),
    };
    let state = AppState::from_config(KVStorage::new(), &good).ok().unwrap();
    assert_eq!(state.invitation_key().display().to_string(), KEY);
    assert_eq!(state.storage().len(), 0);

    let bad = ConfigKey {
        opaque: opaque.clone(),
        invitation: "nope".to_string(),
        session: String::new(),
    };
    assert_eq!(
        AppState::from_config(KVStorage::new(), &bad).err(),
        Some(InvalidKey::Invitation)
    );
    let bad = ConfigKey {
        opaque: KEY.to_string(),
        invitation: KEY.to_string(),
        session: String::new(),
    };
    assert_eq!(
        AppState::from_config(KVStorage::new(), &bad).err(),
        Some(InvalidKey::Opaque)
    );
    let bad = ConfigKey {
        opaque: "nope".to_string(),
        invitation: "nope".to_string(),
        session: String::new(),
    };
    assert_eq!(
        AppState::from_config(KVStorage::new(), &bad).err(),
        Some(InvalidKey::Invitation)
    );
}

#[test]
fn state_is_made_from_its_parts() {
    let mut rng = CryptoRng::new();
    let signature = OpaqueServer::new(&OpaqueServer::generate_random_key(&mut rng))
        .ok()
        .unwrap();
    let mut storage = KVStorage::new();
    storage.set("a", vec![1]);
    let state = AppState::new(storage, signature, InvitationKey::parse(KEY).unwrap());
    assert_eq!(state.storage().get("a"), Some(vec![1]));
    assert_eq!(state.invitation_key().display().to_string(), KEY);
    let request = {
        let mut client_rng = OsRng;
        let start = ClientRegistration::<CipherSuite>::start(&mut client_rng, b"pw").unwrap();
        RegistrationRequest::from_bytes(start.message.serialize().to_vec()).unwrap()
    };
    assert!(state.signature().registration_start("alice", request).is_ok());
}

#[test]
fn bootstrap_issues_the_administrator_invitation_once() {
    let mut rng = CryptoRng::new();
    let mut state = fresh_state(&mut rng);
    let code = bootstrap(&mut state, "root", at(T0)).ok().unwrap().unwrap();
    assert!(bootstrap(&mut state, "root", at(T0 + SECOND))
        .ok()
        .unwrap()
        .is_none());
    assert!(register(&mut state, &mut rng, code, b"a long admin password", T0 + SECOND).is_ok());
    assert!(state.storage().has("password:root"));
    assert!(state.storage().has("option:first-signup-invitation"));
    assert!(bootstrap(&mut state, "root", at(T0 + 3_600 * SECOND))
        .ok()
        .unwrap()
        .is_none());
}

#[test]
fn registration_then_login_through_the_handlers() {
    let mut rng = CryptoRng::new();
    let mut state = fresh_state(&mut rng);
    let code = invite(&state, "alice", T0);
    assert!(register(&mut state, &mut rng, code, b"correct horse", T0).is_ok());
    assert_eq!(state.storage().len(), 1);
    assert!(state.storage().has("password:alice"));

    let cookie = log_in(&mut state, &mut rng, "alice", b"correct horse", T0 + 10 * SECOND)
        .ok()
        .unwrap();
    assert_eq!(cookie.len(), 128);
    assert_eq!(state.storage().len(), 2);
    assert!(state.storage().has(&format!("session:{cookie}")));

    let id = SessionId::parse(&cookie).unwrap();
    let told = session::get_session(&state, again(&id), at(T0 + 20 * SECOND))
        .ok()
        .unwrap();
    assert_eq!(told.username, "alice");

    let removal = signout::signout(&mut state, Some(&cookie)).ok().unwrap();
    assert_eq!(removal.name, "SESSIONID");
    assert_eq!(removal.max_age_seconds, 0);
    assert_eq!(
        session::get_session(&state, id, at(T0 + 30 * SECOND)).err(),
        Some(Status::Unauthorized)
    );
    assert_eq!(state.storage().len(), 1);
}

#[test]
fn login_with_a_wrong_password_is_unauthorized() {
    let mut rng = CryptoRng::new();
    let mut state = fresh_state(&mut rng);
    let code = invite(&state, "alice", T0);
    assert!(register(&mut state, &mut rng, code, b"correct horse", T0).is_ok());
    assert_eq!(
        log_in(&mut state, &mut rng, "alice", b"correct hoarse", T0).err(),
        Some(Status::Unauthorized)
    );
    assert_eq!(state.storage().len(), 1);
}

#[test]
fn login_of_an_unknown_user_is_unauthorized() {
    let mut rng = CryptoRng::new();
    let mut state = fresh_state(&mut rng);
    assert_eq!(
        log_in(&mut state, &mut rng, "nobody", b"correct horse", T0).err(),
        Some(Status::Unauthorized)
    );
    assert_eq!(state.storage().len(), 0);
}

#[test]
fn signup_with_an_expired_invitation_is_unauthorized() {
    let mut rng = CryptoRng::new();
    let mut state = fresh_state(&mut rng);
    let code = invite(&state, "alice", T0);
    let result = register(
        &mut state,
        &mut rng,
        code,
        b"correct horse",
        T0 + 86_400 * SECOND,
    );
    assert_eq!(result.err(), Some(Status::Unauthorized));
    assert_eq!(state.storage().len(), 0);
    assert!(state.take_journal().is_empty());
}

#[test]
fn signup_with_a_forged_invitation_is_unauthorized() {
    let mut rng = CryptoRng::new();
    let mut state = fresh_state(&mut rng);
    let other = InvitationKey::generate(&mut rng);
    let code = other
        .issue("alice", Duration::hours(24), at(T0))
        .ok()
        .unwrap();
    let result = register(&mut state, &mut rng, code, b"correct horse", T0);
    assert_eq!(result.err(), Some(Status::Unauthorized));
    assert_eq!(state.storage().len(), 0);
}

#[test]
fn signup_session_cannot_be_finished_twice() {
    let mut rng = CryptoRng::new();
    let mut state = fresh_state(&mut rng);
    let code = invite(&state, "alice", T0);
    let mut client_rng = OsRng;
    let start = ClientRegistration::<CipherSuite>::start(&mut client_rng, b"pw").unwrap();
    let message = RegistrationRequest::from_bytes(start.message.serialize().to_vec()).unwrap();
    let started = signup::start(
        &mut state,
        signup::StartReq { code, message },
        at(T0),
        &mut rng,
    )
    .ok()
    .unwrap();
    let response =
        RegistrationResponse::<CipherSuite>::deserialize(started.message.as_bytes()).unwrap();
    let finish = start
        .state
        .finish(
            &mut client_rng,
            b"pw",
            response,
            ClientRegistrationFinishParameters::default(),
        )
        .unwrap();
    let upload = finish.message.serialize().to_vec();
    let first = signup::FinishReq {
        session: again(&started.session),
        message: RegistrationUpload::from_bytes(upload.clone()).unwrap(),
    };
    assert!(signup::finish(&mut state, first, at(T0 + SECOND)).is_ok());
    let second = signup::FinishReq {
        session: started.session,
        message: RegistrationUpload::from_bytes(upload).unwrap(),
    };
    assert_eq!(
        signup::finish(&mut state, second, at(T0 + 2 * SECOND)).err(),
        Some(Status::Unauthorized)
    );
}

#[test]
fn signup_session_expires_after_a_minute() {
    let mut rng = CryptoRng::new();
    let mut state = fresh_state(&mut rng);
    let code = invite(&state, "alice", T0);
    let mut client_rng = OsRng;
    let start = ClientRegistration::<CipherSuite>::start(&mut client_rng, b"pw").unwrap();
    let message = RegistrationRequest::from_bytes(start.message.serialize().to_vec()).unwrap();
    let started = signup::start(
        &mut state,
        signup::StartReq { code, message },
        at(T0),
        &mut rng,
    )
    .ok()
    .unwrap();
    let response =
        RegistrationResponse::<CipherSuite>::deserialize(started.message.as_bytes()).unwrap();
    let finish = start
        .state
        .finish(
            &mut client_rng,
            b"pw",
            response,
            ClientRegistrationFinishParameters::default(),
        )
        .unwrap();
    let req = signup::FinishReq {
        session: started.session,
        message: RegistrationUpload::from_bytes(finish.message.serialize().to_vec()).unwrap(),
    };
    assert_eq!(
        signup::finish(&mut state, req, at(T0 + 61 * SECOND)).err(),
        Some(Status::Unauthorized)
    );
    assert!(!state.storage().has("password:alice"));
    assert_eq!(state.storage().len(), 0);
}

#[test]
fn signup_endpoint_dispatches_on_the_step() {
    let mut rng = CryptoRng::new();
    let mut state = fresh_state(&mut rng);
    let code = invite(&state, "alice", T0);
    let mut client_rng = OsRng;
    let start = ClientRegistration::<CipherSuite>::start(&mut client_rng, b"pw").unwrap();
    let message = RegistrationRequest::from_bytes(start.message.serialize().to_vec()).unwrap();
    let req = signup::Request::Start(signup::StartReq { code, message });
    let started = match signup::signup(&mut state, req, at(T0), &mut rng).ok().unwrap() {
        signup::Response::Start(started) => started,
        signup::Response::Finish(_) => panic!("a start was asked for"),
    };
    let response =
        RegistrationResponse::<CipherSuite>::deserialize(started.message.as_bytes()).unwrap();
    let finish = start
        .state
        .finish(
            &mut client_rng,
            b"pw",
            response,
            ClientRegistrationFinishParameters::default(),
        )
        .unwrap();
    let req = signup::Request::Finish(signup::FinishReq {
        session: started.session,
        message: RegistrationUpload::from_bytes(finish.message.serialize().to_vec()).unwrap(),
    });
    let finished = signup::signup(&mut state, req, at(T0 + SECOND), &mut rng);
    assert!(matches!(finished, Ok(signup::Response::Finish(_))));
    assert!(state.storage().has("password:alice"));
}

#[test]
fn signin_session_cannot_be_finished_twice() {
    let mut rng = CryptoRng::new();
    let mut state = fresh_state(&mut rng);
    let code = invite(&state, "alice", T0);
    assert!(register(&mut state, &mut rng, code, b"correct horse", T0).is_ok());

    let mut client_rng = OsRng;
    let start = ClientLogin::<CipherSuite>::start(&mut client_rng, b"correct horse").unwrap();
    let message = LoginRequest::from_bytes(start.message.serialize().to_vec()).unwrap();
    let req = signin::StartReq {
        username: "alice".to_string(),
        message,
    };
    let started = signin::start(&mut state, req, at(T0), &mut rng).ok().unwrap();
    let response =
        CredentialResponse::<CipherSuite>::deserialize(started.message.as_bytes()).unwrap();
    let finish = start
        .state
        .finish(
            b"correct horse",
            response,
            ClientLoginFinishParameters::default(),
        )
        .unwrap();
    let finalization = finish.message.serialize().to_vec();
    let first = signin::FinishReq {
        session: again(&started.session),
        message: LoginFinalization::from_bytes(finalization.clone()).unwrap(),
    };
    assert!(signin::finish(&mut state, first, at(T0 + SECOND), &mut rng).is_ok());
    let second = signin::FinishReq {
        session: started.session,
        message: LoginFinalization::from_bytes(finalization).unwrap(),
    };
    assert_eq!(
        signin::finish(&mut state, second, at(T0 + SECOND), &mut rng).err(),
        Some(Status::Unauthorized)
    );
}

#[test]
fn signin_with_a_corrupt_password_file_is_a_server_error() {
    let mut rng = CryptoRng::new();
    let mut storage = KVStorage::new();
    storage.set("password:alice", vec![1, 2, 3]);
    let config = ConfigKey {
        opaque: OpaqueServer::generate_random_key(&mut rng),
        invitation: KEY.to_string(),
        session: String::new(),
    };
    let mut state = AppState::from_config(storage, &config).ok().unwrap();
    assert_eq!(
        log_in(&mut state, &mut rng, "alice", b"correct horse", T0).err(),
        Some(Status::InternalServerError)
    );
}

#[test]
fn signout_without_a_session_cookie_changes_nothing() {
    let mut rng = CryptoRng::new();
    let mut state = fresh_state(&mut rng);
    assert_eq!(
        signout::signout(&mut state, None).err(),
        Some(Status::Success)
    );
    assert_eq!(
        signout::signout(&mut state, Some("not a session")).err(),
        Some(Status::Success)
    );
    assert!(state.take_journal().is_empty());
}

#[test]
fn signout_is_idempotent() {
    let mut rng = CryptoRng::new();
    let mut state = fresh_state(&mut rng);
    let id = SessionId::random(&mut rng).serialize();
    assert!(signout::signout(&mut state, Some(&id)).is_ok());
    assert!(signout::signout(&mut state, Some(&id)).is_ok());
    assert_eq!(state.storage().len(), 0);
}

#[test]
fn journal_of_a_registration_rebuilds_the_store() {
    let mut rng = CryptoRng::new();
    let mut state = fresh_state(&mut rng);
    let code = invite(&state, "alice", T0);
    assert!(register(&mut state, &mut rng, code, b"correct horse", T0).is_ok());
    let log = state.take_journal();
    assert_eq!(log.len(), 3);
    assert!(log[0].key.starts_with("signup-session:"));
    assert!(log[0].value.is_some());
    assert_eq!(log[1].key, log[0].key);
    assert!(log[1].value.is_none());
    assert_eq!(log[2].key, "password:alice");
    assert_eq!(log[2].value, state.storage().get("password:alice"));
}

#[test]
fn requests_are_read_as_they_come_over_the_wire() {
    let mut client_rng = OsRng;
    let start = ClientRegistration::<CipherSuite>::start(&mut client_rng, b"pw").unwrap();
    let request = RegistrationRequest::from_bytes(start.message.serialize().to_vec()).unwrap();
    let text = {
        let mut rng = CryptoRng::new();
        let server = OpaqueServer::new(&OpaqueServer::generate_random_key(&mut rng))
            .ok()
            .unwrap();
        // The answer of a server is no request, but it is good Base64.
        let answer = server.registration_start("alice", request).ok().unwrap();
        answer.serialize()
    };
    let session = "A".repeat(128);

    let request_text = base64_of(&start.message.serialize());
    let parsed = signup::StartReq::parse("any code".to_string(), &request_text)
        .ok()
        .unwrap();
    assert_eq!(parsed.code.as_str(), "any code");
    assert_eq!(parsed.message.as_bytes(), start.message.serialize().as_slice());
    assert_eq!(
        signup::StartReq::parse("any code".to_string(), "***").err(),
        Some(Status::UnprocessableEntity)
    );
    assert_eq!(
        signup::FinishReq::parse(&session, &text).err(),
        Some(Status::UnprocessableEntity)
    );
    assert_eq!(
        signup::FinishReq::parse("short", &text).err(),
        Some(Status::UnprocessableEntity)
    );

    let login = ClientLogin::<CipherSuite>::start(&mut client_rng, b"pw").unwrap();
    let login_text = base64_of(&login.message.serialize());
    let parsed = signin::StartReq::parse("alice".to_string(), &login_text)
        .ok()
        .unwrap();
    assert_eq!(parsed.username, "alice");
    assert_eq!(
        signin::StartReq::parse("alice".to_string(), "AAAA").err(),
        Some(Status::UnprocessableEntity)
    );
    let finalization = base64_of(&[3u8; 64]);
    let parsed = signin::FinishReq::parse(&session, &finalization).ok().unwrap();
    assert_eq!(parsed.session.serialize(), session);
    assert_eq!(parsed.message.as_bytes(), [3u8; 64].as_slice());
    assert_eq!(
        signin::FinishReq::parse(&session, "AAAA").err(),
        Some(Status::UnprocessableEntity)
    );
    assert_eq!(
        signin::FinishReq::parse("AAAA", &finalization).err(),
        Some(Status::UnprocessableEntity)
    );

    assert_eq!(
        session::parse_session_id(&session).ok().unwrap().serialize(),
        session
    );
    assert_eq!(
        session::parse_session_id("nope").err(),
        Some(Status::BadRequest)
    );
    assert_eq!(Status::BadRequest.code(), 400);
    assert_eq!(Status::UnprocessableEntity.code(), 422);
}

fn base64_of(bytes: &[u8]) -> String {
    Base64Url::encode_string(bytes)
}
