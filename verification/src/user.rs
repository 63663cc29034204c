//! User management: password files and the three kinds of session.
//!
//! A signup session and a signin session carry an exchange from its first
//! round trip to its second; each is read once and is gone after that. An
//! authenticated session is read on every request until the user signs out.
//! Every kind has a lifetime, and a record past its lifetime counts as absent
//! even while the store still holds it.

use crate::base64::{base64url_bytes, base64url_text};
use crate::codec::{
    framed_record, lemma_framed_round_trip, lemma_plain_round_trip, parse_framed_record,
    parse_plain_record, plain_record, read_framed_record, read_plain_record,
    write_framed_record, write_plain_record,
};
use crate::opaque::{is_login_state, is_password_file, LoginState, PasswordFile};
use crate::rng::CryptoRng;
use crate::session::{SessionId, SESSION_BYTES};
use crate::storage::{changed_by, Content, KVStorage, WriteTransaction};
use crate::time::{timestamp_in_range, DateTime, Duration, NANOS_PER_SECOND};
use vstd::prelude::*;
use vstd::slice::slice_to_vec;
use vstd::string::StringExecFns;
use vstd::utf8::encode_utf8;

verus! {

/// Namespace of the signup sessions.
pub const SIGNUP_SESSION: &'static str = "signup-session";

/// Namespace of the signin sessions.
pub const SIGNIN_SESSION: &'static str = "signin-session";

/// Namespace of the authenticated sessions.
pub const SESSION: &'static str = "session";

/// Namespace of the password files.
pub const PASSWORD: &'static str = "password";

/// Seconds that a signup session lasts.
pub const SIGNUP_LIFETIME_SECONDS: i64 = 60;

/// Seconds that a signin session lasts.
pub const SIGNIN_LIFETIME_SECONDS: i64 = 60;

/// Seconds that an authenticated session lasts (seven days).
pub const SESSION_LIFETIME_SECONDS: i64 = 604_800;

/// A stored record that cannot be read back.
#[derive(Clone, Copy, Debug, PartialEq, Eq, Structural)]
pub struct CorruptRecord;

/// The key `name` in the namespace `namespace`.
pub open spec fn namespaced(namespace: Seq<char>, name: Seq<char>) -> Seq<char> {
    namespace + seq![':'] + name
}

/// The key under which the signup session `id` is stored.
pub open spec fn signup_session_key(id: Seq<u8>) -> Seq<char> {
    namespaced(SIGNUP_SESSION@, base64url_text(id))
}

/// The key under which the signin session `id` is stored.
pub open spec fn signin_session_key(id: Seq<u8>) -> Seq<char> {
    namespaced(SIGNIN_SESSION@, base64url_text(id))
}

/// The key under which the authenticated session `id` is stored.
pub open spec fn session_key(id: Seq<u8>) -> Seq<char> {
    namespaced(SESSION@, base64url_text(id))
}

/// The key under which the password file of `username` is stored.
pub open spec fn password_key(username: Seq<char>) -> Seq<char> {
    namespaced(PASSWORD@, username)
}

/// Records of different kinds never share a key: the namespaces differ
/// before the first colon.
pub proof fn lemma_namespaces_apart(
    signup: Seq<u8>,
    signin: Seq<u8>,
    session: Seq<u8>,
    username: Seq<char>,
)
    ensures
        signup_session_key(signup) != signin_session_key(signin),
        signup_session_key(signup) != session_key(session),
        signup_session_key(signup) != password_key(username),
        signin_session_key(signin) != session_key(session),
        signin_session_key(signin) != password_key(username),
        session_key(session) != password_key(username),
{
    reveal_strlit("signup-session");
    reveal_strlit("signin-session");
    reveal_strlit("session");
    reveal_strlit("password");
    assert(signup_session_key(signup)[4] == 'u');
    assert(signin_session_key(signin)[4] == 'i');
    assert(signup_session_key(signup)[1] == 'i');
    assert(signin_session_key(signin)[1] == 'i');
    assert(session_key(session)[1] == 'e');
    assert(signup_session_key(signup)[0] == 's');
    assert(signin_session_key(signin)[0] == 's');
    assert(session_key(session)[0] == 's');
    assert(password_key(username)[0] == 'p');
}

/// Whether a record created at `created_at` is past a lifetime of
/// `lifetime_seconds` at the time `now`.
pub open spec fn is_past_lifetime(created_at: int, lifetime_seconds: int, now: int) -> bool {
    now - created_at > lifetime_seconds * NANOS_PER_SECOND
}

/// Builds the key `name` in the namespace `namespace`.
fn storage_key(namespace: &str, name: &str) -> (key: String)
    ensures
        key@ == namespaced(namespace@, name@),
{
    let key = String::from_str(namespace).concat(":").concat(name);
    proof {
        reveal_strlit(":");
        assert(":"@ =~= seq![':']);
    }
    key
}

/// Whether more than `lifetime_seconds` seconds have passed between
/// `created_at` and `now`.
fn is_older_than(created_at: DateTime, lifetime_seconds: i64, now: DateTime) -> (r: bool)
    ensures
        r == is_past_lifetime(created_at@, lifetime_seconds as int, now@),
{
    now.duration_since(created_at) > Duration::seconds(lifetime_seconds)
}

/// What a signup session or an authenticated session says: who it belongs
/// to, and when it was created (nanoseconds since the Unix epoch).
pub struct SessionView {
    pub username: Seq<char>,
    pub created_at: int,
}

/// What a signin session says: who it belongs to, the state of the exchange,
/// and when it was created (nanoseconds since the Unix epoch).
pub struct SigninSessionView {
    pub username: Seq<char>,
    pub state: Seq<u8>,
    pub created_at: int,
}

/// What reading a session gives: the session, nothing, or the news that the
/// stored record cannot be read.
pub type Outcome<V> = Result<Option<V>, CorruptRecord>;

/// Function related to user's table.
pub trait UserTable: Sized {
    /// The table as a map from keys to values.
    spec fn table(&self) -> Content;

    /// Whether the table is well formed.
    spec fn table_wf(&self) -> bool;

    /// Check if the user has been already registered.
    fn user_is_registered(&self, username: &str) -> (r: bool)
        requires
            self.table_wf(),
        ensures
            r == self.table().contains_key(password_key(username@)),
    ;

    /// Register a new user: bind the password file to the username, in
    /// place of any file bound to it before.
    fn register_user_password(&mut self, username: &str, password_file: PasswordFile)
        requires
            old(self).table_wf(),
        ensures
            final(self).table_wf(),
            final(self).table() == old(self).table().insert(
                password_key(username@),
                password_file@,
            ),
    ;
}

impl UserTable for KVStorage {
    open spec fn table(&self) -> Content {
        self@
    }

    open spec fn table_wf(&self) -> bool {
        self.wf()
    }

    fn user_is_registered(&self, username: &str) -> (r: bool) {
        let key = storage_key(PASSWORD, username);
        self.has(key.as_str())
    }

    fn register_user_password(&mut self, username: &str, password_file: PasswordFile)
        ensures
            changed_by(
                *old(self),
                *final(self),
                (password_key(username@), Some(password_file@)),
            ),
    {
        let key = storage_key(PASSWORD, username);
        self.set(key.as_str(), slice_to_vec(password_file.as_bytes()));
    }
}

impl<'a> UserTable for WriteTransaction<'a> {
    open spec fn table(&self) -> Content {
        self@
    }

    open spec fn table_wf(&self) -> bool {
        self.wf()
    }

    fn user_is_registered(&self, username: &str) -> (r: bool) {
        let key = storage_key(PASSWORD, username);
        self.has(key.as_str())
    }

    fn register_user_password(&mut self, username: &str, password_file: PasswordFile) {
        let key = storage_key(PASSWORD, username);
        self.set(key.as_str(), slice_to_vec(password_file.as_bytes()));
    }
}

/// Sign up session
pub struct SignupSession {
    pub username: String,
    created_at: DateTime,
}

impl View for SignupSession {
    type V = SessionView;

    closed spec fn view(&self) -> SessionView {
        SessionView { username: self.username@, created_at: self.created_at@ }
    }
}

impl SignupSession {
    /// Create a new signup session with the given data.
    pub fn new(username: String, now: DateTime) -> (r: SignupSession)
        ensures
            r@ == (SessionView { username: username@, created_at: now@ }),
    {
        SignupSession { username, created_at: now }
    }

    /// Check if the signup session is expired.
    pub fn is_expired(&self, now: DateTime) -> (r: bool)
        ensures
            r == is_past_lifetime(self@.created_at, SIGNUP_LIFETIME_SECONDS as int, now@),
    {
        is_older_than(self.created_at, SIGNUP_LIFETIME_SECONDS, now)
    }

    /// Whose session it is.
    pub fn into_username(self) -> (r: String)
        ensures
            r@ == self@.username,
    {
        self.username
    }
}

/// The signup session that the store `content` yields for `id` at the time
/// `now`: nothing where the key is unbound or the session is past its
/// lifetime.
pub open spec fn resolve_signup(content: Content, id: Seq<u8>, now: int) -> Outcome<SessionView> {
    if !content.contains_key(signup_session_key(id)) {
        Ok(None)
    } else {
        match parse_plain_record(content[signup_session_key(id)]) {
            Some((created_at, username)) => if is_past_lifetime(
                created_at,
                SIGNUP_LIFETIME_SECONDS as int,
                now,
            ) {
                Ok(None)
            } else {
                Ok(Some(SessionView { username, created_at }))
            },
            None => Err(CorruptRecord),
        }
    }
}

/// Whether what a function returned, seen through views, is `expected`.
pub open spec fn is_outcome<T: View>(returned: Outcome<T>, expected: Outcome<T::V>) -> bool {
    match (returned, expected) {
        (Ok(Some(session)), Ok(Some(view))) => session@ == view,
        (Ok(None), Ok(None)) => true,
        (Err(_), Err(_)) => true,
        _ => false,
    }
}

/// Push the signup session in the storage, under a fresh random identifier.
pub fn push_signup_session(
    storage: &mut KVStorage,
    session: SignupSession,
    rng: &mut CryptoRng,
) -> (id: SessionId)
    requires
        old(storage).wf(),
    ensures
        id@.len() == SESSION_BYTES,
        changed_by(
            *old(storage),
            *final(storage),
            (
                signup_session_key(id@),
                Some(plain_record(session@.created_at, session@.username)),
            ),
        ),
{
    let id = SessionId::random(rng);
    proof {
        id.lemma_len();
    }
    let key = storage_key(SIGNUP_SESSION, id.serialize().as_str());
    storage.set(
        key.as_str(),
        write_plain_record(&session.created_at, session.username.as_str()),
    );
    id
}

/// Pull the signup session from the storage: read it and remove it, as one
/// step. Whatever is returned, the session is gone afterwards.
pub fn pull_signup_session(storage: &mut KVStorage, session_id: SessionId, now: DateTime) -> (r:
    Outcome<SignupSession>)
    requires
        old(storage).wf(),
    ensures
        changed_by(*old(storage), *final(storage), (signup_session_key(session_id@), None)),
        is_outcome(r, resolve_signup(old(storage)@, session_id@, now@)),
{
    let key = storage_key(SIGNUP_SESSION, session_id.serialize().as_str());
    let record = match storage.extract(key.as_str()) {
        Some(record) => record,
        None => { return Ok(None); },
    };
    match read_plain_record(record.as_slice()) {
        Some((created_at, username)) => {
            let session = SignupSession { username, created_at };
            if session.is_expired(now) {
                Ok(None)
            } else {
                Ok(Some(session))
            }
        },
        None => Err(CorruptRecord),
    }
}

/// A signup session is consumed by the first pull: whatever the store held
/// and whenever it is asked again, a second pull finds nothing.
pub proof fn lemma_signup_session_consumed_once(content: Content, id: Seq<u8>, later: int)
    ensures
        resolve_signup(content.remove(signup_session_key(id)), id, later) == Ok::<
            Option<SessionView>,
            CorruptRecord,
        >(None),
{
}

/// A signup session that has just been pushed is there until its lifetime
/// is over, and counts as absent from then on.
pub proof fn lemma_signup_session_expiry(
    content: Content,
    id: Seq<u8>,
    session: SessionView,
    now: int,
)
    requires
        timestamp_in_range(session.created_at),
    ensures
        resolve_signup(
            content.insert(
                signup_session_key(id),
                plain_record(session.created_at, session.username),
            ),
            id,
            now,
        ) == (if is_past_lifetime(session.created_at, SIGNUP_LIFETIME_SECONDS as int, now) {
            Ok::<Option<SessionView>, CorruptRecord>(None)
        } else {
            Ok::<Option<SessionView>, CorruptRecord>(Some(session))
        }),
{
    lemma_plain_round_trip(session.created_at, session.username);
}

/// Sign in session
pub struct SigninSession {
    pub username: String,
    pub state: LoginState,
    created_at: DateTime,
}

impl View for SigninSession {
    type V = SigninSessionView;

    closed spec fn view(&self) -> SigninSessionView {
        SigninSessionView {
            username: self.username@,
            state: self.state@,
            created_at: self.created_at@,
        }
    }
}

impl SigninSession {
    /// Create a new signin session with the given data.
    pub fn new(username: String, state: LoginState, now: DateTime) -> (r: SigninSession)
        ensures
            r@ == (SigninSessionView { username: username@, state: state@, created_at: now@ }),
    {
        SigninSession { username, state, created_at: now }
    }

    /// Check if the signin session is expired.
    pub fn is_expired(&self, now: DateTime) -> (r: bool)
        ensures
            r == is_past_lifetime(self@.created_at, SIGNIN_LIFETIME_SECONDS as int, now@),
    {
        is_older_than(self.created_at, SIGNIN_LIFETIME_SECONDS, now)
    }

    /// Takes the session apart: whose it is, and the state of the exchange.
    pub fn into_parts(self) -> (r: (String, LoginState))
        ensures
            r.0@ == self@.username,
            r.1@ == self@.state,
            is_login_state(self@.state),
    {
        proof {
            use_type_invariant(&self.state);
        }
        (self.username, self.state)
    }
}

/// The stored form of a signin session.
pub open spec fn signin_record(session: SigninSessionView) -> Seq<u8> {
    framed_record(session.created_at, session.username, session.state)
}

/// The signin session that the store `content` yields for `id` at the time
/// `now`: nothing where the key is unbound or the session is past its
/// lifetime.
pub open spec fn resolve_signin(content: Content, id: Seq<u8>, now: int) -> Outcome<
    SigninSessionView,
> {
    if !content.contains_key(signin_session_key(id)) {
        Ok(None)
    } else {
        match parse_framed_record(content[signin_session_key(id)]) {
            Some((created_at, username, state)) => if !is_login_state(state) {
                Err(CorruptRecord)
            } else if is_past_lifetime(created_at, SIGNIN_LIFETIME_SECONDS as int, now) {
                Ok(None)
            } else {
                Ok(Some(SigninSessionView { username, state, created_at }))
            },
            None => Err(CorruptRecord),
        }
    }
}

/// Push the signin session in the storage, under a fresh random identifier.
pub fn push_signin_session(
    storage: &mut KVStorage,
    session: SigninSession,
    rng: &mut CryptoRng,
) -> (id: SessionId)
    requires
        old(storage).wf(),
    ensures
        id@.len() == SESSION_BYTES,
        changed_by(
            *old(storage),
            *final(storage),
            (signin_session_key(id@), Some(signin_record(session@))),
        ),
{
    let id = SessionId::random(rng);
    proof {
        id.lemma_len();
    }
    let key = storage_key(SIGNIN_SESSION, id.serialize().as_str());
    storage.set(
        key.as_str(),
        write_framed_record(
            &session.created_at,
            session.username.as_str(),
            session.state.as_bytes(),
        ),
    );
    id
}

/// Pull the signin session from the storage: read it and remove it, as one
/// step. Whatever is returned, the session is gone afterwards.
pub fn pull_signin_session(storage: &mut KVStorage, session_id: SessionId, now: DateTime) -> (r:
    Outcome<SigninSession>)
    requires
        old(storage).wf(),
    ensures
        changed_by(*old(storage), *final(storage), (signin_session_key(session_id@), None)),
        is_outcome(r, resolve_signin(old(storage)@, session_id@, now@)),
{
    let key = storage_key(SIGNIN_SESSION, session_id.serialize().as_str());
    let record = match storage.extract(key.as_str()) {
        Some(record) => record,
        None => { return Ok(None); },
    };
    match read_framed_record(record.as_slice()) {
        Some((created_at, username, state)) => {
            let state = match LoginState::from_bytes(state) {
                Some(state) => state,
                None => { return Err(CorruptRecord); },
            };
            let session = SigninSession { username, state, created_at };
            if session.is_expired(now) {
                Ok(None)
            } else {
                Ok(Some(session))
            }
        },
        None => Err(CorruptRecord),
    }
}

/// A signin session is consumed by the first pull: whatever the store held
/// and whenever it is asked again, a second pull finds nothing.
pub proof fn lemma_signin_session_consumed_once(content: Content, id: Seq<u8>, later: int)
    ensures
        resolve_signin(content.remove(signin_session_key(id)), id, later) == Ok::<
            Option<SigninSessionView>,
            CorruptRecord,
        >(None),
{
}

/// A signin session that has just been pushed is there until its lifetime
/// is over, and counts as absent from then on.
pub proof fn lemma_signin_session_expiry(
    content: Content,
    id: Seq<u8>,
    session: SigninSessionView,
    now: int,
)
    requires
        timestamp_in_range(session.created_at),
        is_login_state(session.state),
        encode_utf8(session.username).len() <= u64::MAX,
    ensures
        resolve_signin(content.insert(signin_session_key(id), signin_record(session)), id, now)
            == (if is_past_lifetime(session.created_at, SIGNIN_LIFETIME_SECONDS as int, now) {
            Ok::<Option<SigninSessionView>, CorruptRecord>(None)
        } else {
            Ok::<Option<SigninSessionView>, CorruptRecord>(Some(session))
        }),
{
    lemma_framed_round_trip(session.created_at, session.username, session.state);
}

/// The password file that the store `content` holds for `username`.
pub open spec fn stored_password_file(content: Content, username: Seq<char>) -> Outcome<Seq<u8>> {
    if !content.contains_key(password_key(username)) {
        Ok(None)
    } else if is_password_file(content[password_key(username)]) {
        Ok(Some(content[password_key(username)]))
    } else {
        Err(CorruptRecord)
    }
}

/// Retrieve the password file of a user, if the user has registered.
pub fn get_password_file(storage: &KVStorage, username: &str) -> (r: Outcome<PasswordFile>)
    requires
        storage.wf(),
    ensures
        is_outcome(r, stored_password_file(storage@, username@)),
{
    let key = storage_key(PASSWORD, username);
    match storage.get(key.as_str()) {
        Some(record) => match PasswordFile::from_bytes(record) {
            Some(file) => Ok(Some(file)),
            None => Err(CorruptRecord),
        },
        None => Ok(None),
    }
}

/// How far a cookie travels with requests to other sites.
#[derive(Clone, Copy, Debug, PartialEq, Eq, Structural)]
pub enum SameSite {
    /// Only with requests from the site itself.
    Strict,
    /// Also with top-level navigation from other sites.
    Lax,
}

/// A cookie as the server sets it: its name and value, and the attributes
/// that tell the client where and how long to keep it.
pub struct SessionCookie {
    pub name: String,
    pub value: String,
    /// Only over a confidential transport.
    pub secure: bool,
    /// Out of reach of scripts.
    pub http_only: bool,
    pub same_site: Option<SameSite>,
    pub path: String,
    /// Seconds that the client keeps the cookie; zero removes it.
    pub max_age_seconds: i64,
}

/// An authenticated session.
pub struct Session {
    pub username: String,
    created_at: DateTime,
}

impl View for Session {
    type V = SessionView;

    closed spec fn view(&self) -> SessionView {
        SessionView { username: self.username@, created_at: self.created_at@ }
    }
}

/// Name of the cookie that carries the identifier of the authenticated
/// session.
pub const COOKIE: &'static str = "SESSIONID";

/// Path that the cookie is scoped to.
pub const COOKIE_PATH: &'static str = "/api";

impl Session {
    /// Whether `cookie` is the cookie of the session `id`: it carries the
    /// identifier in URL-safe Base64, travels only over a confidential
    /// transport, is out of reach of scripts and of other sites, and lasts as
    /// long as the session.
    pub open spec fn is_session_cookie(cookie: SessionCookie, id: Seq<u8>) -> bool {
        &&& cookie.name@ == COOKIE@
        &&& cookie.value@ == base64url_text(id)
        &&& cookie.secure
        &&& cookie.http_only
        &&& cookie.same_site == Some(SameSite::Strict)
        &&& cookie.path@ == COOKIE_PATH@
        &&& cookie.max_age_seconds == SESSION_LIFETIME_SECONDS
    }

    /// Whether `cookie` tells the client to forget the session cookie: the
    /// same name and path, no value, and no time to live.
    pub open spec fn is_removal_cookie(cookie: SessionCookie) -> bool {
        &&& cookie.name@ == COOKIE@
        &&& cookie.value@ == Seq::<char>::empty()
        &&& !cookie.secure
        &&& !cookie.http_only
        &&& cookie.same_site is None
        &&& cookie.path@ == COOKIE_PATH@
        &&& cookie.max_age_seconds == 0
    }

    /// Check if the session is expired.
    pub fn is_expired(&self, now: DateTime) -> (r: bool)
        ensures
            r == is_past_lifetime(self@.created_at, SESSION_LIFETIME_SECONDS as int, now@),
    {
        is_older_than(self.created_at, SESSION_LIFETIME_SECONDS, now)
    }

    /// Whose session it is.
    pub fn into_username(self) -> (r: String)
        ensures
            r@ == self@.username,
    {
        self.username
    }

    /// Create the session cookie.
    pub fn create_cookie(session_id: SessionId) -> (cookie: SessionCookie)
        ensures
            Session::is_session_cookie(cookie, session_id@),
            base64url_bytes(cookie.value@) == Some(session_id@),
    {
        SessionCookie {
            name: String::from_str(COOKIE),
            value: session_id.serialize(),
            secure: true,
            http_only: true,
            same_site: Some(SameSite::Strict),
            path: String::from_str(COOKIE_PATH),
            max_age_seconds: SESSION_LIFETIME_SECONDS,
        }
    }

    /// Remove cookie.
    pub fn remove_cookie() -> (cookie: SessionCookie)
        ensures
            Session::is_removal_cookie(cookie),
    {
        SessionCookie {
            name: String::from_str(COOKIE),
            value: String::new(),
            secure: false,
            http_only: false,
            same_site: None,
            path: String::from_str(COOKIE_PATH),
            max_age_seconds: 0,
        }
    }
}

/// The authenticated session that the store `content` yields for `id` at
/// the time `now`: nothing where the key is unbound or the session is past
/// its lifetime.
pub open spec fn resolve_session(content: Content, id: Seq<u8>, now: int) -> Outcome<SessionView> {
    if !content.contains_key(session_key(id)) {
        Ok(None)
    } else {
        match parse_plain_record(content[session_key(id)]) {
            Some((created_at, username)) => if is_past_lifetime(
                created_at,
                SESSION_LIFETIME_SECONDS as int,
                now,
            ) {
                Ok(None)
            } else {
                Ok(Some(SessionView { username, created_at }))
            },
            None => Err(CorruptRecord),
        }
    }
}

/// The identifier that a session cookie carries.
pub open spec fn cookie_session(cookie: SessionCookie) -> Seq<u8> {
    base64url_bytes(cookie.value@).unwrap()
}

/// Start a new session and return the cookie that should be set by the client.
pub fn start_new_session(
    storage: &mut KVStorage,
    username: String,
    now: DateTime,
    rng: &mut CryptoRng,
) -> (cookie: SessionCookie)
    requires
        old(storage).wf(),
    ensures
        base64url_bytes(cookie.value@) is Some,
        cookie_session(cookie).len() == SESSION_BYTES,
        Session::is_session_cookie(cookie, cookie_session(cookie)),
        changed_by(
            *old(storage),
            *final(storage),
            (session_key(cookie_session(cookie)), Some(plain_record(now@, username@))),
        ),
{
    let session_id = SessionId::random(rng);
    proof {
        session_id.lemma_len();
    }
    let session = Session { username, created_at: now };
    let key = storage_key(SESSION, session_id.serialize().as_str());
    storage.set(
        key.as_str(),
        write_plain_record(&session.created_at, session.username.as_str()),
    );
    Session::create_cookie(session_id)
}

/// End the session and return the cookie that should be set by the client.
/// Ending a session that is not there changes nothing.
pub fn finish_session(storage: &mut KVStorage, session_id: SessionId) -> (cookie: SessionCookie)
    requires
        old(storage).wf(),
    ensures
        Session::is_removal_cookie(cookie),
        changed_by(*old(storage), *final(storage), (session_key(session_id@), None)),
{
    let key = storage_key(SESSION, session_id.serialize().as_str());
    storage.delete(key.as_str());
    Session::remove_cookie()
}

/// Retrieve the session.
pub fn get_session(storage: &KVStorage, session_id: SessionId, now: DateTime) -> (r: Outcome<
    Session,
>)
    requires
        storage.wf(),
    ensures
        is_outcome(r, resolve_session(storage@, session_id@, now@)),
{
    let key = storage_key(SESSION, session_id.serialize().as_str());
    let record = match storage.get(key.as_str()) {
        Some(record) => record,
        None => { return Ok(None); },
    };
    match read_plain_record(record.as_slice()) {
        Some((created_at, username)) => {
            let session = Session { username, created_at };
            if session.is_expired(now) {
                Ok(None)
            } else {
                Ok(Some(session))
            }
        },
        None => Err(CorruptRecord),
    }
}

/// An authenticated session that has just been started is there until its
/// lifetime is over, and counts as absent from then on.
pub proof fn lemma_session_expiry(content: Content, id: Seq<u8>, session: SessionView, now: int)
    requires
        timestamp_in_range(session.created_at),
    ensures
        resolve_session(
            content.insert(session_key(id), plain_record(session.created_at, session.username)),
            id,
            now,
        ) == (if is_past_lifetime(session.created_at, SESSION_LIFETIME_SECONDS as int, now) {
            Ok::<Option<SessionView>, CorruptRecord>(None)
        } else {
            Ok::<Option<SessionView>, CorruptRecord>(Some(session))
        }),
{
    lemma_plain_round_trip(session.created_at, session.username);
}

/// Once a session has been ended it is not there, whenever it is asked for.
pub proof fn lemma_session_ended(content: Content, id: Seq<u8>, later: int)
    ensures
        resolve_session(content.remove(session_key(id)), id, later) == Ok::<
            Option<SessionView>,
            CorruptRecord,
        >(None),
{
}

} // verus!
