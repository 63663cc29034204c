//! The server's side of the password-authenticated key exchange.
//!
//! The exchange itself is the work of the `opaque_ke` crate. This module
//! holds every message as the bytes that travel or are stored, checks each
//! one when it comes in, and says of each step what it returns.

use crate::base64::{base64url_bytes, base64url_text, decode, encode};
use crate::rng::CryptoRng;
use opaque_ke::{
    CredentialFinalization, CredentialRequest, ServerLogin, ServerLoginStartParameters,
    ServerRegistration, ServerSetup,
};
use rand_chacha::ChaCha20Rng;
use vstd::prelude::*;
use vstd::utf8::encode_utf8;

verus! {

/// `opaque_ke::Ristretto255`, the group of the exchange.
#[verifier::external_type_specification]
#[verifier::external_body]
pub struct ExRistretto255(opaque_ke::Ristretto255);

/// `opaque_ke::key_exchange::tripledh::TripleDh`, the key exchange.
#[verifier::external_type_specification]
#[verifier::external_body]
pub struct ExTripleDh(opaque_ke::key_exchange::tripledh::TripleDh);

/// `argon2::Argon2`, the key stretching function.
#[verifier::external_type_specification]
#[verifier::external_body]
pub struct ExArgon2<'key>(argon2::Argon2<'key>);

/// Cipher suite definition
pub struct CipherSuite;

impl opaque_ke::CipherSuite for CipherSuite {
    type OprfCs = opaque_ke::Ristretto255;

    type KeGroup = opaque_ke::Ristretto255;

    type KeyExchange = opaque_ke::key_exchange::tripledh::TripleDh;

    type Ksf = argon2::Argon2<'static>;
}

/// Number of bytes in the server's key material.
pub const SERVER_SETUP_BYTES: usize = 128;

/// Number of bytes in the server's answer to a registration request.
pub const REGISTRATION_RESPONSE_BYTES: usize = 64;

/// Number of bytes in the server's answer to a login request.
pub const LOGIN_RESPONSE_BYTES: usize = 320;

/// A message that is not what it should be: bad Base64, or bytes that the
/// exchange does not accept as a message of that kind.
#[derive(Clone, Copy, Debug)]
pub struct MalformedMessage;

/// The exchange could not take the step.
#[derive(Clone, Copy, Debug)]
pub struct ProtocolFailure;

/// The client did not prove that it knows the password.
#[derive(Clone, Copy, Debug)]
pub struct AuthFailure;

/// The text is not the printed form of the server's key material.
#[derive(Clone, Copy, Debug)]
pub struct InvalidOpaqueKey;

/// Whether `opaque_ke::ServerSetup::deserialize` accepts `bytes`.
pub uninterp spec fn is_server_setup(bytes: Seq<u8>) -> bool;

/// Whether `opaque_ke::RegistrationRequest::deserialize` accepts `bytes`.
pub uninterp spec fn is_registration_request(bytes: Seq<u8>) -> bool;

/// Whether `opaque_ke::RegistrationUpload::deserialize` accepts `bytes`.
pub uninterp spec fn is_registration_upload(bytes: Seq<u8>) -> bool;

/// Whether `opaque_ke::CredentialRequest::deserialize` accepts `bytes`.
pub uninterp spec fn is_login_request(bytes: Seq<u8>) -> bool;

/// Whether `opaque_ke::CredentialFinalization::deserialize` accepts `bytes`.
pub uninterp spec fn is_login_finalization(bytes: Seq<u8>) -> bool;

/// Whether `opaque_ke::ServerLogin::deserialize` accepts `bytes`.
pub uninterp spec fn is_login_state(bytes: Seq<u8>) -> bool;

/// Whether `opaque_ke::ServerRegistration::deserialize` accepts `bytes`.
pub uninterp spec fn is_password_file(bytes: Seq<u8>) -> bool;

/// What `opaque_ke::ServerRegistration::start` answers, in bytes, to the
/// request `request` for the user `username` under the key material `setup`;
/// `None` where it reports an error.
pub uninterp spec fn registration_response(
    setup: Seq<u8>,
    username: Seq<u8>,
    request: Seq<u8>,
) -> Option<Seq<u8>>;

/// The bytes of the record that `opaque_ke::ServerRegistration::finish`
/// makes of the upload `upload`.
pub uninterp spec fn registration_record(upload: Seq<u8>) -> Seq<u8>;

/// Whether `opaque_ke::ServerLogin::finish` accepts the client's last
/// message `finalization` in the state `state`.
pub uninterp spec fn login_accepts(state: Seq<u8>, finalization: Seq<u8>) -> bool;

/// The message that `text` carries, if it carries one that the exchange
/// accepts as a message of its kind; `accepts` tells what the exchange
/// accepts.
pub open spec fn parsed_message(text: Seq<char>, accepts: spec_fn(Seq<u8>) -> bool) -> Option<
    Seq<u8>,
> {
    match base64url_bytes(text) {
        Some(message) => if accepts(message) {
            Some(message)
        } else {
            None
        },
        None => None,
    }
}

/// Tries `opaque_ke::ServerSetup::deserialize` on the bytes and tells whether it
/// accepted them.
#[verifier::external_body]
fn check_server_setup(bytes: &[u8]) -> (accepted: bool)
    ensures
        accepted == is_server_setup(bytes@),
{
    ServerSetup::<CipherSuite>::deserialize(bytes).is_ok()
}

/// Tries `opaque_ke::RegistrationRequest::deserialize` on the bytes and tells whether it
/// accepted them.
#[verifier::external_body]
fn check_registration_request(bytes: &[u8]) -> (accepted: bool)
    ensures
        accepted == is_registration_request(bytes@),
{
    opaque_ke::RegistrationRequest::<CipherSuite>::deserialize(bytes).is_ok()
}

/// Tries `opaque_ke::RegistrationUpload::deserialize` on the bytes and tells whether it
/// accepted them.
#[verifier::external_body]
fn check_registration_upload(bytes: &[u8]) -> (accepted: bool)
    ensures
        accepted == is_registration_upload(bytes@),
{
    opaque_ke::RegistrationUpload::<CipherSuite>::deserialize(bytes).is_ok()
}

/// Tries `opaque_ke::CredentialRequest::deserialize` on the bytes and tells whether it
/// accepted them.
#[verifier::external_body]
fn check_login_request(bytes: &[u8]) -> (accepted: bool)
    ensures
        accepted == is_login_request(bytes@),
{
    CredentialRequest::<CipherSuite>::deserialize(bytes).is_ok()
}

/// Tries `opaque_ke::CredentialFinalization::deserialize` on the bytes and tells whether it
/// accepted them.
#[verifier::external_body]
fn check_login_finalization(bytes: &[u8]) -> (accepted: bool)
    ensures
        accepted == is_login_finalization(bytes@),
{
    CredentialFinalization::<CipherSuite>::deserialize(bytes).is_ok()
}

/// Tries `opaque_ke::ServerLogin::deserialize` on the bytes and tells whether it
/// accepted them.
#[verifier::external_body]
fn check_login_state(bytes: &[u8]) -> (accepted: bool)
    ensures
        accepted == is_login_state(bytes@),
{
    ServerLogin::<CipherSuite>::deserialize(bytes).is_ok()
}

/// Tries `opaque_ke::ServerRegistration::deserialize` on the bytes and tells whether it
/// accepted them.
#[verifier::external_body]
fn check_password_file(bytes: &[u8]) -> (accepted: bool)
    ensures
        accepted == is_password_file(bytes@),
{
    ServerRegistration::<CipherSuite>::deserialize(bytes).is_ok()
}

/// Makes fresh key material with `opaque_ke::ServerSetup::new` and
/// serializes it. The material is random; claimed are its length, which the
/// crate fixes for this cipher suite (a seed of 64 bytes and two private keys
/// of 32), and that `ServerSetup::deserialize` reads it back.
#[verifier::external_body]
fn fresh_server_setup(generator: &mut ChaCha20Rng) -> (setup: Vec<u8>)
    ensures
        setup@.len() == SERVER_SETUP_BYTES,
        is_server_setup(setup@),
{
    ServerSetup::<CipherSuite>::new(generator).serialize().to_vec()
}

/// Runs `opaque_ke::ServerRegistration::start` on the deserialized key
/// material and request, and serializes the answer.
#[verifier::external_body]
fn run_registration_start(setup: &[u8], username: &[u8], request: &[u8]) -> (response: Option<
    Vec<u8>,
>)
    requires
        is_server_setup(setup@),
        is_registration_request(request@),
    ensures
        response is Some <==> registration_response(setup@, username@, request@) is Some,
        response is Some ==> response.unwrap()@ == registration_response(
            setup@,
            username@,
            request@,
        ).unwrap(),
{
    let setup = ServerSetup::<CipherSuite>::deserialize(setup).unwrap();
    let request = opaque_ke::RegistrationRequest::<CipherSuite>::deserialize(request).unwrap();
    match ServerRegistration::<CipherSuite>::start(&setup, request, username) {
        Ok(start) => Some(start.message.serialize().to_vec()),
        Err(_) => None,
    }
}

/// Runs `opaque_ke::ServerRegistration::finish` on the deserialized upload
/// and serializes the record, which `ServerRegistration::deserialize` reads
/// back.
#[verifier::external_body]
fn run_registration_finish(upload: &[u8]) -> (record: Vec<u8>)
    requires
        is_registration_upload(upload@),
    ensures
        record@ == registration_record(upload@),
        is_password_file(record@),
{
    let upload = opaque_ke::RegistrationUpload::<CipherSuite>::deserialize(upload).unwrap();
    ServerRegistration::<CipherSuite>::finish(upload).serialize().to_vec()
}

/// Runs `opaque_ke::ServerLogin::start` on the deserialized key material,
/// record and request, with default parameters, and serializes the answer and
/// the state; an error becomes `None`. Both depend on the random numbers
/// drawn, and nothing is claimed of them.
#[verifier::external_body]
fn run_login_start(
    generator: &mut ChaCha20Rng,
    setup: &[u8],
    username: &[u8],
    record: Option<&[u8]>,
    request: &[u8],
) -> (started: Option<(Vec<u8>, Vec<u8>)>)
    requires
        is_server_setup(setup@),
        record is Some ==> is_password_file(record.unwrap()@),
        is_login_request(request@),
{
    let setup = ServerSetup::<CipherSuite>::deserialize(setup).unwrap();
    let record = record.map(|r| ServerRegistration::<CipherSuite>::deserialize(r).unwrap());
    let request = CredentialRequest::<CipherSuite>::deserialize(request).unwrap();
    let parameters = ServerLoginStartParameters::default();
    match ServerLogin::start(generator, &setup, record, request, username, parameters) {
        Ok(start) => Some((start.message.serialize().to_vec(), start.state.serialize().to_vec())),
        Err(_) => None,
    }
}

/// Runs `opaque_ke::ServerLogin::finish` on the deserialized state and last
/// message; any error means that the login is not accepted.
#[verifier::external_body]
fn run_login_finish(state: &[u8], finalization: &[u8]) -> (accepted: bool)
    requires
        is_login_state(state@),
        is_login_finalization(finalization@),
    ensures
        accepted == login_accepts(state@, finalization@),
{
    let state = ServerLogin::<CipherSuite>::deserialize(state).unwrap();
    let finalization = CredentialFinalization::<CipherSuite>::deserialize(finalization).unwrap();
    state.finish(finalization).is_ok()
}

/// Client registration request
pub struct RegistrationRequest {
    message: Vec<u8>,
}

impl View for RegistrationRequest {
    type V = Seq<u8>;

    /// The bytes of the message.
    closed spec fn view(&self) -> Seq<u8> {
        self.message@
    }
}

impl RegistrationRequest {
    /// The exchange accepts the bytes as a message of this kind.
    #[verifier::type_invariant]
    pub open spec fn wf(&self) -> bool {
        is_registration_request(self@)
    }

    /// Takes the bytes of a message; `None` unless the exchange accepts
    /// them as a message of this kind.
    pub fn from_bytes(bytes: Vec<u8>) -> (r: Option<RegistrationRequest>)
        ensures
            r is Some <==> is_registration_request(bytes@),
            r is Some ==> r.unwrap()@ == bytes@ && r.unwrap().wf(),
    {
        if check_registration_request(bytes.as_slice()) {
            Some(RegistrationRequest { message: bytes })
        } else {
            None
        }
    }

    /// The bytes of the message.
    pub fn as_bytes(&self) -> (r: &[u8])
        ensures
            r@ == self@,
            is_registration_request(r@),
    {
        proof {
            use_type_invariant(self);
        }
        self.message.as_slice()
    }

    /// Reads a message from URL-safe Base64.
    pub fn deserialize(text: &str) -> (r: Result<RegistrationRequest, MalformedMessage>)
        ensures
            r is Ok <==> parsed_message(text@, |bytes: Seq<u8>| is_registration_request(bytes))
                is Some,
            r is Ok ==> r.unwrap()@ == parsed_message(
                text@,
                |bytes: Seq<u8>| is_registration_request(bytes),
            ).unwrap() && r.unwrap().wf(),
    {
        match decode(text) {
            Some(bytes) => match RegistrationRequest::from_bytes(bytes) {
                Some(message) => Ok(message),
                None => Err(MalformedMessage),
            },
            None => Err(MalformedMessage),
        }
    }
}

/// Server registration response
pub struct RegistrationResponse {
    message: Vec<u8>,
}

impl View for RegistrationResponse {
    type V = Seq<u8>;

    /// The bytes of the message.
    closed spec fn view(&self) -> Seq<u8> {
        self.message@
    }
}

impl RegistrationResponse {
    /// The message has [`REGISTRATION_RESPONSE_BYTES`] bytes.
    #[verifier::type_invariant]
    pub open spec fn wf(&self) -> bool {
        self@.len() == REGISTRATION_RESPONSE_BYTES
    }

    /// The bytes of the message.
    pub fn as_bytes(&self) -> (r: &[u8])
        ensures
            r@ == self@,
            r@.len() == REGISTRATION_RESPONSE_BYTES,
    {
        proof {
            use_type_invariant(self);
        }
        self.message.as_slice()
    }

    /// The message in URL-safe Base64.
    pub fn serialize(&self) -> (r: String)
        ensures
            r@ == base64url_text(self@),
            base64url_bytes(r@) == Some(self@),
    {
        proof {
            use_type_invariant(self);
        }
        encode(self.message.as_slice())
    }
}

/// Client final registration request.
pub struct RegistrationUpload {
    message: Vec<u8>,
}

impl View for RegistrationUpload {
    type V = Seq<u8>;

    /// The bytes of the message.
    closed spec fn view(&self) -> Seq<u8> {
        self.message@
    }
}

impl RegistrationUpload {
    /// The exchange accepts the bytes as a message of this kind.
    #[verifier::type_invariant]
    pub open spec fn wf(&self) -> bool {
        is_registration_upload(self@)
    }

    /// Takes the bytes of a message; `None` unless the exchange accepts
    /// them as a message of this kind.
    pub fn from_bytes(bytes: Vec<u8>) -> (r: Option<RegistrationUpload>)
        ensures
            r is Some <==> is_registration_upload(bytes@),
            r is Some ==> r.unwrap()@ == bytes@ && r.unwrap().wf(),
    {
        if check_registration_upload(bytes.as_slice()) {
            Some(RegistrationUpload { message: bytes })
        } else {
            None
        }
    }

    /// The bytes of the message.
    pub fn as_bytes(&self) -> (r: &[u8])
        ensures
            r@ == self@,
            is_registration_upload(r@),
    {
        proof {
            use_type_invariant(self);
        }
        self.message.as_slice()
    }

    /// Reads a message from URL-safe Base64.
    pub fn deserialize(text: &str) -> (r: Result<RegistrationUpload, MalformedMessage>)
        ensures
            r is Ok <==> parsed_message(text@, |bytes: Seq<u8>| is_registration_upload(bytes))
                is Some,
            r is Ok ==> r.unwrap()@ == parsed_message(
                text@,
                |bytes: Seq<u8>| is_registration_upload(bytes),
            ).unwrap() && r.unwrap().wf(),
    {
        match decode(text) {
            Some(bytes) => match RegistrationUpload::from_bytes(bytes) {
                Some(message) => Ok(message),
                None => Err(MalformedMessage),
            },
            None => Err(MalformedMessage),
        }
    }
}

/// Client login request
pub struct LoginRequest {
    message: Vec<u8>,
}

impl View for LoginRequest {
    type V = Seq<u8>;

    /// The bytes of the message.
    closed spec fn view(&self) -> Seq<u8> {
        self.message@
    }
}

impl LoginRequest {
    /// The exchange accepts the bytes as a message of this kind.
    #[verifier::type_invariant]
    pub open spec fn wf(&self) -> bool {
        is_login_request(self@)
    }

    /// Takes the bytes of a message; `None` unless the exchange accepts
    /// them as a message of this kind.
    pub fn from_bytes(bytes: Vec<u8>) -> (r: Option<LoginRequest>)
        ensures
            r is Some <==> is_login_request(bytes@),
            r is Some ==> r.unwrap()@ == bytes@ && r.unwrap().wf(),
    {
        if check_login_request(bytes.as_slice()) {
            Some(LoginRequest { message: bytes })
        } else {
            None
        }
    }

    /// The bytes of the message.
    pub fn as_bytes(&self) -> (r: &[u8])
        ensures
            r@ == self@,
            is_login_request(r@),
    {
        proof {
            use_type_invariant(self);
        }
        self.message.as_slice()
    }

    /// Reads a message from URL-safe Base64.
    pub fn deserialize(text: &str) -> (r: Result<LoginRequest, MalformedMessage>)
        ensures
            r is Ok <==> parsed_message(text@, |bytes: Seq<u8>| is_login_request(bytes))
                is Some,
            r is Ok ==> r.unwrap()@ == parsed_message(
                text@,
                |bytes: Seq<u8>| is_login_request(bytes),
            ).unwrap() && r.unwrap().wf(),
    {
        match decode(text) {
            Some(bytes) => match LoginRequest::from_bytes(bytes) {
                Some(message) => Ok(message),
                None => Err(MalformedMessage),
            },
            None => Err(MalformedMessage),
        }
    }
}

/// Server login response
pub struct LoginResponse {
    message: Vec<u8>,
}

impl View for LoginResponse {
    type V = Seq<u8>;

    /// The bytes of the message.
    closed spec fn view(&self) -> Seq<u8> {
        self.message@
    }
}

impl LoginResponse {
    /// The message has [`LOGIN_RESPONSE_BYTES`] bytes.
    #[verifier::type_invariant]
    pub open spec fn wf(&self) -> bool {
        self@.len() == LOGIN_RESPONSE_BYTES
    }

    /// The bytes of the message.
    pub fn as_bytes(&self) -> (r: &[u8])
        ensures
            r@ == self@,
            r@.len() == LOGIN_RESPONSE_BYTES,
    {
        proof {
            use_type_invariant(self);
        }
        self.message.as_slice()
    }

    /// The message in URL-safe Base64.
    pub fn serialize(&self) -> (r: String)
        ensures
            r@ == base64url_text(self@),
            base64url_bytes(r@) == Some(self@),
    {
        proof {
            use_type_invariant(self);
        }
        encode(self.message.as_slice())
    }
}

/// Client final login request.
pub struct LoginFinalization {
    message: Vec<u8>,
}

impl View for LoginFinalization {
    type V = Seq<u8>;

    /// The bytes of the message.
    closed spec fn view(&self) -> Seq<u8> {
        self.message@
    }
}

impl LoginFinalization {
    /// The exchange accepts the bytes as a message of this kind.
    #[verifier::type_invariant]
    pub open spec fn wf(&self) -> bool {
        is_login_finalization(self@)
    }

    /// Takes the bytes of a message; `None` unless the exchange accepts
    /// them as a message of this kind.
    pub fn from_bytes(bytes: Vec<u8>) -> (r: Option<LoginFinalization>)
        ensures
            r is Some <==> is_login_finalization(bytes@),
            r is Some ==> r.unwrap()@ == bytes@ && r.unwrap().wf(),
    {
        if check_login_finalization(bytes.as_slice()) {
            Some(LoginFinalization { message: bytes })
        } else {
            None
        }
    }

    /// The bytes of the message.
    pub fn as_bytes(&self) -> (r: &[u8])
        ensures
            r@ == self@,
            is_login_finalization(r@),
    {
        proof {
            use_type_invariant(self);
        }
        self.message.as_slice()
    }

    /// Reads a message from URL-safe Base64.
    pub fn deserialize(text: &str) -> (r: Result<LoginFinalization, MalformedMessage>)
        ensures
            r is Ok <==> parsed_message(text@, |bytes: Seq<u8>| is_login_finalization(bytes))
                is Some,
            r is Ok ==> r.unwrap()@ == parsed_message(
                text@,
                |bytes: Seq<u8>| is_login_finalization(bytes),
            ).unwrap() && r.unwrap().wf(),
    {
        match decode(text) {
            Some(bytes) => match LoginFinalization::from_bytes(bytes) {
                Some(message) => Ok(message),
                None => Err(MalformedMessage),
            },
            None => Err(MalformedMessage),
        }
    }
}

/// Server login state
pub struct LoginState {
    message: Vec<u8>,
}

impl View for LoginState {
    type V = Seq<u8>;

    /// The bytes of the message.
    closed spec fn view(&self) -> Seq<u8> {
        self.message@
    }
}

impl LoginState {
    /// The exchange accepts the bytes as a message of this kind.
    #[verifier::type_invariant]
    pub open spec fn wf(&self) -> bool {
        is_login_state(self@)
    }

    /// Takes the bytes of a message; `None` unless the exchange accepts
    /// them as a message of this kind.
    pub fn from_bytes(bytes: Vec<u8>) -> (r: Option<LoginState>)
        ensures
            r is Some <==> is_login_state(bytes@),
            r is Some ==> r.unwrap()@ == bytes@ && r.unwrap().wf(),
    {
        if check_login_state(bytes.as_slice()) {
            Some(LoginState { message: bytes })
        } else {
            None
        }
    }

    /// The bytes of the message.
    pub fn as_bytes(&self) -> (r: &[u8])
        ensures
            r@ == self@,
            is_login_state(r@),
    {
        proof {
            use_type_invariant(self);
        }
        self.message.as_slice()
    }
}

/// User registration password file.
pub struct PasswordFile {
    message: Vec<u8>,
}

impl View for PasswordFile {
    type V = Seq<u8>;

    /// The bytes of the message.
    closed spec fn view(&self) -> Seq<u8> {
        self.message@
    }
}

impl PasswordFile {
    /// The exchange accepts the bytes as a message of this kind.
    #[verifier::type_invariant]
    pub open spec fn wf(&self) -> bool {
        is_password_file(self@)
    }

    /// Takes the bytes of a message; `None` unless the exchange accepts
    /// them as a message of this kind.
    pub fn from_bytes(bytes: Vec<u8>) -> (r: Option<PasswordFile>)
        ensures
            r is Some <==> is_password_file(bytes@),
            r is Some ==> r.unwrap()@ == bytes@ && r.unwrap().wf(),
    {
        if check_password_file(bytes.as_slice()) {
            Some(PasswordFile { message: bytes })
        } else {
            None
        }
    }

    /// The bytes of the message.
    pub fn as_bytes(&self) -> (r: &[u8])
        ensures
            r@ == self@,
            is_password_file(r@),
    {
        proof {
            use_type_invariant(self);
        }
        self.message.as_slice()
    }
}

/// The server of the exchange: the key material that every step runs under.
pub struct OpaqueServer {
    setup: Vec<u8>,
}

impl View for OpaqueServer {
    type V = Seq<u8>;

    /// The bytes of the key material.
    closed spec fn view(&self) -> Seq<u8> {
        self.setup@
    }
}

impl OpaqueServer {
    /// The key material has [`SERVER_SETUP_BYTES`] bytes, and the exchange
    /// accepts it.
    #[verifier::type_invariant]
    pub open spec fn wf(&self) -> bool {
        self@.len() == SERVER_SETUP_BYTES && is_server_setup(self@)
    }

    /// Generate new random key material, in URL-safe Base64.
    pub fn generate_random_key(rng: &mut CryptoRng) -> (key: String)
        ensures
            base64url_bytes(key@) is Some,
            base64url_bytes(key@).unwrap().len() == SERVER_SETUP_BYTES,
            is_server_setup(base64url_bytes(key@).unwrap()),
    {
        let setup = fresh_server_setup(&mut rng.inner);
        encode(setup.as_slice())
    }

    /// Reads the key material from its printed form.
    pub fn new(key: &str) -> (r: Result<OpaqueServer, InvalidOpaqueKey>)
        ensures
            r is Ok <==> base64url_bytes(key@) is Some && base64url_bytes(key@).unwrap().len()
                == SERVER_SETUP_BYTES && is_server_setup(base64url_bytes(key@).unwrap()),
            r is Ok ==> r.unwrap()@ == base64url_bytes(key@).unwrap() && r.unwrap().wf(),
    {
        match decode(key) {
            Some(setup) => {
                if setup.len() == SERVER_SETUP_BYTES && check_server_setup(setup.as_slice()) {
                    Ok(OpaqueServer { setup })
                } else {
                    Err(InvalidOpaqueKey)
                }
            },
            None => Err(InvalidOpaqueKey),
        }
    }

    /// The answer that [`OpaqueServer::registration_start`] gives: what the
    /// exchange answers, if that has the length of an answer.
    pub open spec fn spec_registration_start(
        setup: Seq<u8>,
        username: Seq<char>,
        request: Seq<u8>,
    ) -> Option<Seq<u8>> {
        match registration_response(setup, encode_utf8(username), request) {
            Some(response) => if response.len() == REGISTRATION_RESPONSE_BYTES {
                Some(response)
            } else {
                None
            },
            None => None,
        }
    }

    /// From the client's blinded password returns a response to be sent back to the client.
    pub fn registration_start(&self, username: &str, request: RegistrationRequest) -> (r: Result<
        RegistrationResponse,
        ProtocolFailure,
    >)
        ensures
            r is Ok <==> OpaqueServer::spec_registration_start(self@, username@, request@)
                is Some,
            r is Ok ==> r.unwrap()@ == OpaqueServer::spec_registration_start(
                self@,
                username@,
                request@,
            ).unwrap(),
    {
        proof {
            use_type_invariant(self);
        }
        let response = run_registration_start(
            self.setup.as_slice(),
            username.as_bytes(),
            request.as_bytes(),
        );
        match response {
            Some(message) => {
                if message.len() == REGISTRATION_RESPONSE_BYTES {
                    Ok(RegistrationResponse { message })
                } else {
                    Err(ProtocolFailure)
                }
            },
            None => Err(ProtocolFailure),
        }
    }

    /// Finish the registration process and generate a password file.
    pub fn registration_finish(&self, upload: RegistrationUpload) -> (file: PasswordFile)
        ensures
            file@ == registration_record(upload@),
            file.wf(),
    {
        PasswordFile { message: run_registration_finish(upload.as_bytes()) }
    }

    /// From the client's blinded password returns a response to be sent back
    /// to the client, and the state to keep until the client answers.
    ///
    /// The exchange runs whether or not there is a password file, and a
    /// response has the same length either way.
    pub fn login_start(
        &self,
        rng: &mut CryptoRng,
        username: &str,
        password_file: Option<PasswordFile>,
        request: LoginRequest,
    ) -> (r: Result<(LoginResponse, LoginState), ProtocolFailure>)
        ensures
            r is Ok ==> r.unwrap().0@.len() == LOGIN_RESPONSE_BYTES && r.unwrap().0.wf()
                && r.unwrap().1.wf(),
    {
        proof {
            use_type_invariant(self);
        }
        let started = match &password_file {
            Some(file) => run_login_start(
                &mut rng.inner,
                self.setup.as_slice(),
                username.as_bytes(),
                Some(file.as_bytes()),
                request.as_bytes(),
            ),
            None => run_login_start(
                &mut rng.inner,
                self.setup.as_slice(),
                username.as_bytes(),
                None,
                request.as_bytes(),
            ),
        };
        OpaqueServer::login_started(started)
    }

    /// What [`OpaqueServer::login_start`] makes of the answer and the state
    /// that the exchange hands back: it passes them on where the answer has
    /// the length of an answer and the state is one, and fails otherwise.
    pub fn login_started(started: Option<(Vec<u8>, Vec<u8>)>) -> (r: Result<
        (LoginResponse, LoginState),
        ProtocolFailure,
    >)
        ensures
            r is Ok <==> started is Some && started.unwrap().0@.len() == LOGIN_RESPONSE_BYTES
                && is_login_state(started.unwrap().1@),
            r is Ok ==> r.unwrap().0@ == started.unwrap().0@ && r.unwrap().1@
                == started.unwrap().1@ && r.unwrap().0.wf() && r.unwrap().1.wf(),
    {
        match started {
            Some((message, state)) => {
                if message.len() != LOGIN_RESPONSE_BYTES {
                    return Err(ProtocolFailure);
                }
                match LoginState::from_bytes(state) {
                    Some(state) => Ok((LoginResponse { message }, state)),
                    None => Err(ProtocolFailure),
                }
            },
            None => Err(ProtocolFailure),
        }
    }

    /// Check the client's authentication
    pub fn login_finish(&self, state: LoginState, message: LoginFinalization) -> (r: Result<
        (),
        AuthFailure,
    >)
        ensures
            r is Ok <==> login_accepts(state@, message@),
    {
        if run_login_finish(state.as_bytes(), message.as_bytes()) {
            Ok(())
        } else {
            Err(AuthFailure)
        }
    }
}

} // verus!
