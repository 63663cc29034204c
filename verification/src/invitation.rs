//! Signed, self-contained invitations to register.
//!
//! An invitation names a user and a moment of expiry. Its code is the stored
//! form of the invitation and an Ed25519 signature over it, each in URL-safe
//! Base64, joined by a period. Whoever holds the key can check a code without
//! looking anything up.

use crate::base64::{base64url_bytes, base64url_text, decode, encodable_len, encode};
use crate::codec::{
    lemma_plain_round_trip, parse_plain_record, plain_record, read_plain_record,
    write_plain_record,
};
use crate::rng::CryptoRng;
use crate::time::{
    lemma_timestamp_round_trip, timestamp_in_range, DateTime, Duration, NANOS_PER_SECOND,
    TIMESTAMP_BYTES,
};
use ed25519_dalek::{Signature, Signer, SigningKey};
use vstd::prelude::*;
use vstd::string::{StrSliceExecFns, StringExecFns};
use vstd::utf8::{encode_utf8, is_ascii_chars};

verus! {

/// Number of bytes in an invitation key.
pub const SECRET_KEY_BYTES: usize = 32;

/// Number of characters in the printed form of an invitation key.
pub const ENCODED_KEY_BYTES: usize = 44;

/// Number of bytes in a signature.
pub const SIGNATURE_BYTES: usize = 64;

/// Seconds that an ordinary invitation lasts (one day).
pub const DEFAULT_LIFETIME_SECONDS: i64 = 86_400;

/// Seconds that an administrator's invitation lasts (ten minutes).
pub const ADMIN_LIFETIME_SECONDS: i64 = 600;

/// What an invitation says: who is invited, and until when (nanoseconds since
/// the Unix epoch).
pub struct InvitationView {
    pub username: Seq<char>,
    pub expiration: int,
}

/// Sign up invitation.
pub struct Invitation {
    /// Invited username (should match on registration).
    pub username: String,
    /// The moment from which the invitation no longer counts.
    expiration: DateTime,
}

impl View for Invitation {
    type V = InvitationView;

    closed spec fn view(&self) -> InvitationView {
        InvitationView { username: self.username@, expiration: self.expiration@ }
    }
}

/// The stored form of an invitation: the plain record of its expiry and
/// the username.
pub open spec fn invitation_payload(invitation: InvitationView) -> Seq<u8> {
    plain_record(invitation.expiration, invitation.username)
}

/// The invitation that `payload` is the stored form of, if it is one.
pub open spec fn payload_invitation(payload: Seq<u8>) -> Option<InvitationView> {
    match parse_plain_record(payload) {
        Some((expiration, username)) => Some(InvitationView { username, expiration }),
        None => None,
    }
}

/// Reading back the stored form of an invitation gives that invitation.
pub proof fn lemma_payload_round_trip(invitation: InvitationView)
    requires
        timestamp_in_range(invitation.expiration),
    ensures
        payload_invitation(invitation_payload(invitation)) == Some(invitation),
{
    lemma_plain_round_trip(invitation.expiration, invitation.username);
}

/// The stored form of an invitation has sixteen bytes more than the
/// username.
pub proof fn lemma_payload_len(invitation: InvitationView)
    requires
        timestamp_in_range(invitation.expiration),
    ensures
        invitation_payload(invitation).len() == TIMESTAMP_BYTES + encode_utf8(
            invitation.username,
        ).len(),
{
    lemma_timestamp_round_trip(invitation.expiration);
}

impl Invitation {
    /// Whether the invitation no longer counts at the time `now`.
    pub open spec fn spec_is_expired(invitation: InvitationView, now: int) -> bool {
        now >= invitation.expiration
    }

    /// Create a new invitation for the user, good for one day from `now`.
    pub fn new(username: &str, now: DateTime) -> (r: Option<Invitation>)
        ensures
            r is Some <==> timestamp_in_range(now@ + DEFAULT_LIFETIME_SECONDS * NANOS_PER_SECOND),
            r is Some ==> r.unwrap()@ == (InvitationView {
                username: username@,
                expiration: now@ + DEFAULT_LIFETIME_SECONDS * NANOS_PER_SECOND,
            }),
    {
        Invitation::with_lifetime(username, Duration::seconds(DEFAULT_LIFETIME_SECONDS), now)
    }

    /// Create a new invitation for an administrator, good for ten minutes
    /// from `now`.
    pub fn admin(username: &str, now: DateTime) -> (r: Option<Invitation>)
        ensures
            r is Some <==> timestamp_in_range(now@ + ADMIN_LIFETIME_SECONDS * NANOS_PER_SECOND),
            r is Some ==> r.unwrap()@ == (InvitationView {
                username: username@,
                expiration: now@ + ADMIN_LIFETIME_SECONDS * NANOS_PER_SECOND,
            }),
    {
        Invitation::with_lifetime(username, Duration::seconds(ADMIN_LIFETIME_SECONDS), now)
    }

    /// Create a new invitation for the user that expires `lifetime` after
    /// `now`; `None` where that moment is beyond what a `DateTime` holds.
    pub fn with_lifetime(username: &str, lifetime: Duration, now: DateTime) -> (r: Option<
        Invitation,
    >)
        ensures
            r is Some <==> timestamp_in_range(now@ + lifetime@),
            r is Some ==> r.unwrap()@ == (InvitationView {
                username: username@,
                expiration: now@ + lifetime@,
            }),
    {
        match now.checked_add(lifetime) {
            Some(expiration) => Some(Invitation { username: username.to_owned(), expiration }),
            None => None,
        }
    }

    /// Check if the invitation is expired at the time `now`: it counts only
    /// while `now` is before its expiry.
    pub fn is_expired(&self, now: DateTime) -> (r: bool)
        ensures
            r == Invitation::spec_is_expired(self@, now@),
    {
        now >= self.expiration
    }

    /// Who is invited.
    pub fn into_username(self) -> (r: String)
        ensures
            r@ == self@.username,
    {
        self.username
    }

    /// The moment from which the invitation no longer counts.
    pub fn expiration(&self) -> (r: DateTime)
        ensures
            r@ == self@.expiration,
    {
        self.expiration
    }

    /// The stored form, see [`invitation_payload`].
    pub fn to_payload(&self) -> (payload: Vec<u8>)
        ensures
            payload@ == invitation_payload(self@),
    {
        write_plain_record(&self.expiration, self.username.as_str())
    }

    /// Reads a stored form back; `None` unless `payload` is the stored form
    /// of an invitation.
    pub fn from_payload(payload: &[u8]) -> (r: Option<Invitation>)
        ensures
            r is Some <==> payload_invitation(payload@) is Some,
            r is Some ==> r.unwrap()@ == payload_invitation(payload@).unwrap(),
    {
        match read_plain_record(payload) {
            Some((expiration, username)) => Some(Invitation { username, expiration }),
            None => None,
        }
    }
}

/// The signature that `ed25519_dalek::SigningKey::sign` computes over
/// `message` with the key made from the secret bytes `key`.
pub uninterp spec fn ed25519_signature(key: Seq<u8>, message: Seq<u8>) -> Seq<u8>;

/// Whether `ed25519_dalek::SigningKey::verify`, with the key made from the
/// secret bytes `key`, accepts `signature` as one over `message`.
pub uninterp spec fn ed25519_accepts(key: Seq<u8>, message: Seq<u8>, signature: Seq<u8>) -> bool;

/// Signs `message` with `ed25519_dalek`: `SigningKey::from_bytes`, then
/// `Signer::sign`. Ed25519 signing is deterministic, so the signature is
/// named; it has sixty-four bytes, and the same key accepts it.
#[verifier::external_body]
fn ed25519_sign(key: &[u8], message: &[u8]) -> (signature: Vec<u8>)
    requires
        key@.len() == SECRET_KEY_BYTES,
    ensures
        signature@ == ed25519_signature(key@, message@),
        signature@.len() == SIGNATURE_BYTES,
        ed25519_accepts(key@, message@, signature@),
{
    let secret: [u8; 32] = key.try_into().unwrap();
    SigningKey::from_bytes(&secret).sign(message).to_bytes().to_vec()
}

/// Checks a signature with `ed25519_dalek`: `SigningKey::from_bytes`,
/// `Signature::from_bytes`, then `SigningKey::verify`; any error means that
/// the signature is not accepted.
#[verifier::external_body]
fn ed25519_verify(key: &[u8], message: &[u8], signature: &[u8]) -> (accepted: bool)
    requires
        key@.len() == SECRET_KEY_BYTES,
        signature@.len() == SIGNATURE_BYTES,
    ensures
        accepted == ed25519_accepts(key@, message@, signature@),
{
    let secret: [u8; 32] = key.try_into().unwrap();
    let signature: [u8; 64] = signature.try_into().unwrap();
    SigningKey::from_bytes(&secret).verify(message, &Signature::from_bytes(&signature)).is_ok()
}

/// The code made of a stored invitation and a signature: each in URL-safe
/// Base64, with a period between them.
pub open spec fn code_text(payload: Seq<u8>, signature: Seq<u8>) -> Seq<char> {
    base64url_text(payload) + seq!['.'] + base64url_text(signature)
}

/// Whether the first period of `code` stands at `at`.
pub open spec fn is_separator_at(code: Seq<char>, at: int) -> bool {
    &&& 0 <= at < code.len()
    &&& code[at] == '.'
    &&& forall|j: int| 0 <= j < at ==> code[j] != '.'
}

/// The stored invitation and the signature that `code` carries, if it has
/// the shape of a code: plain ASCII, a period, valid Base64 before and after
/// the first period, and sixty-four bytes of signature.
pub open spec fn code_parts(code: Seq<char>) -> Option<(Seq<u8>, Seq<u8>)> {
    if is_ascii_chars(code) && exists|at: int| is_separator_at(code, at) {
        let at = choose|at: int| is_separator_at(code, at);
        let payload = base64url_bytes(code.subrange(0, at));
        let signature = base64url_bytes(code.subrange(at + 1, code.len() as int));
        if payload is Some && signature is Some && signature.unwrap().len()
            == SIGNATURE_BYTES {
            Some((payload.unwrap(), signature.unwrap()))
        } else {
            None
        }
    } else {
        None
    }
}

/// The first period of a text stands in one place only.
pub proof fn lemma_separator_unique(code: Seq<char>, a: int, b: int)
    requires
        is_separator_at(code, a),
        is_separator_at(code, b),
    ensures
        a == b,
{
}

/// The code that the key `key` issues for `invitation`.
pub open spec fn signed_code(key: Seq<u8>, invitation: InvitationView) -> Seq<char> {
    code_text(
        invitation_payload(invitation),
        ed25519_signature(key, invitation_payload(invitation)),
    )
}

/// The invitation that `code` carries and that `key` has signed, whatever
/// the time; `None` where the code is malformed, the signature is not
/// accepted, or what was signed is no stored invitation.
pub open spec fn authentic_invitation(key: Seq<u8>, code: Seq<char>) -> Option<InvitationView> {
    match code_parts(code) {
        Some((payload, signature)) => if ed25519_accepts(key, payload, signature) {
            payload_invitation(payload)
        } else {
            None
        },
        None => None,
    }
}

/// The invitation that `code` grants at the time `now`: the authentic
/// invitation, while `now` is before its expiry.
pub open spec fn verified_invitation(key: Seq<u8>, code: Seq<char>, now: int) -> Option<
    InvitationView,
> {
    match authentic_invitation(key, code) {
        Some(invitation) => if Invitation::spec_is_expired(invitation, now) {
            None
        } else {
            Some(invitation)
        },
        None => None,
    }
}

/// An error which can be returned when parsing a [`InvitationCode`].
#[derive(Clone, Copy, Debug)]
pub struct InvalidInvitationCode;

/// An error which can be returned when parsing a [`InvitationKey`].
#[derive(Clone, Copy, Debug)]
pub struct InvalidInvitationKey;

/// Why no invitation could be issued.
#[derive(Clone, Copy, Debug, PartialEq, Eq, Structural)]
pub enum IssueError {
    /// The moment of expiry is beyond what a `DateTime` holds.
    ExpiryOutOfRange,
    /// The username is too long for a code to carry.
    UsernameTooLong,
}

/// Whether a username is short enough for a code to carry.
pub open spec fn username_fits(username: Seq<char>) -> bool {
    encodable_len((TIMESTAMP_BYTES + encode_utf8(username).len()) as nat)
}

impl InvalidInvitationKey {
    /// What the error says.
    pub fn message(&self) -> (r: &'static str)
        ensures
            r@ == "Invalid invitation key"@,
    {
        "Invalid invitation key"
    }
}

/// Invitation code.
///
/// Invitation code is composed by two parts encoded separately using base64
/// url encoding and concatenated using a period. The first part is the
/// stored [`Invitation`] and the second one is the signature produced using
/// the [`InvitationKey`].
#[derive(Debug)]
pub struct InvitationCode(String);

impl View for InvitationCode {
    type V = Seq<char>;

    closed spec fn view(&self) -> Seq<char> {
        self.0@
    }
}

impl InvitationCode {
    /// Takes a code as it came over the wire; nothing is checked yet.
    pub fn new(code: String) -> (r: InvitationCode)
        ensures
            r@ == code@,
    {
        InvitationCode(code)
    }

    /// The code as text.
    pub fn as_str(&self) -> (r: &str)
        ensures
            r@ == self@,
    {
        self.0.as_str()
    }

    /// Compose the invitation code from the parts.
    pub fn from_parts(payload: &[u8], signature: &[u8]) -> (r: InvitationCode)
        requires
            encodable_len(payload@.len()),
            encodable_len(signature@.len()),
        ensures
            r@ == code_text(payload@, signature@),
            code_parts(r@) == (if signature@.len() == SIGNATURE_BYTES {
                Some((payload@, signature@))
            } else {
                None
            }),
    {
        let first = encode(payload);
        let second = encode(signature);
        let joined = first.concat(".").concat(second.as_str());
        proof {
            reveal_strlit(".");
            let code = joined@;
            let at = base64url_text(payload@).len() as int;
            assert("."@ =~= seq!['.']);
            assert(code =~= code_text(payload@, signature@));
            assert(is_ascii_chars(code));
            assert(is_separator_at(code, at));
            let chosen = choose|at: int| is_separator_at(code, at);
            lemma_separator_unique(code, at, chosen);
            assert(code.subrange(0, at) =~= base64url_text(payload@));
            assert(code.subrange(at + 1, code.len() as int) =~= base64url_text(signature@));
        }
        InvitationCode(joined)
    }

    /// Split the invitation code into its parts.
    pub fn into_parts(&self) -> (r: Result<(Vec<u8>, Vec<u8>), InvalidInvitationCode>)
        ensures
            r is Ok <==> code_parts(self@) is Some,
            r is Ok ==> (r.unwrap().0@, r.unwrap().1@) == code_parts(self@).unwrap(),
    {
        let text = self.0.as_str();
        if !text.is_ascii() {
            return Err(InvalidInvitationCode);
        }
        let len = text.unicode_len();
        let mut at: usize = 0;
        while at < len && text.get_ascii(at) != 46u8
            invariant
                text@ == self@,
                is_ascii_chars(text@),
                len == text@.len(),
                at <= len,
                forall|j: int| 0 <= j < at ==> text@[j] != '.',
            decreases len - at,
        {
            at = at + 1;
        }
        if at >= len {
            assert(!exists|at: int| is_separator_at(self@, at));
            return Err(InvalidInvitationCode);
        }
        proof {
            assert(is_separator_at(self@, at as int));
            let chosen = choose|at: int| is_separator_at(self@, at);
            lemma_separator_unique(self@, at as int, chosen);
        }
        let payload = match decode(text.substring_ascii(0, at)) {
            Some(payload) => payload,
            None => { return Err(InvalidInvitationCode); },
        };
        let signature = match decode(text.substring_ascii(at + 1, len)) {
            Some(signature) => signature,
            None => { return Err(InvalidInvitationCode); },
        };
        if signature.len() != SIGNATURE_BYTES {
            return Err(InvalidInvitationCode);
        }
        Ok((payload, signature))
    }
}

/// Invitation key, used to sign the [`Invitation`].
pub struct InvitationKey {
    key: Vec<u8>,
}

impl View for InvitationKey {
    type V = Seq<u8>;

    /// The thirty-two secret bytes.
    closed spec fn view(&self) -> Seq<u8> {
        self.key@
    }
}

/// Helper struct for explicit printing a [`InvitationKey`].
pub struct DisplayInvitationKey<'a> {
    bytes: &'a [u8],
}

impl<'a> DisplayInvitationKey<'a> {
    /// The bytes that are printed.
    pub closed spec fn bytes(&self) -> Seq<u8> {
        self.bytes@
    }

    /// There are [`SECRET_KEY_BYTES`] bytes to print.
    #[verifier::type_invariant]
    pub closed spec fn wf(&self) -> bool {
        self.bytes@.len() == SECRET_KEY_BYTES
    }

    /// The key in URL-safe Base64, which takes [`ENCODED_KEY_BYTES`]
    /// characters.
    pub fn to_string(&self) -> (r: String)
        ensures
            r@ == base64url_text(self.bytes()),
            r@.len() == ENCODED_KEY_BYTES,
            base64url_bytes(r@) == Some(self.bytes()),
    {
        proof {
            use_type_invariant(self);
        }
        encode(self.bytes)
    }
}

impl InvitationKey {
    /// Every key has [`SECRET_KEY_BYTES`] bytes.
    #[verifier::type_invariant]
    pub closed spec fn wf(&self) -> bool {
        self.key@.len() == SECRET_KEY_BYTES
    }

    /// Generate a new random invitation key.
    pub fn generate(rng: &mut CryptoRng) -> (r: InvitationKey)
        ensures
            r.wf(),
    {
        InvitationKey { key: rng.bytes(SECRET_KEY_BYTES) }
    }

    /// Reads a key from its printed form: thirty-two bytes in URL-safe
    /// Base64.
    pub fn parse(text: &str) -> (r: Result<InvitationKey, InvalidInvitationKey>)
        ensures
            r is Ok <==> base64url_bytes(text@) is Some && base64url_bytes(text@).unwrap().len()
                == SECRET_KEY_BYTES,
            r is Ok ==> r.unwrap()@ == base64url_bytes(text@).unwrap() && r.unwrap().wf(),
    {
        match decode(text) {
            Some(key) => {
                if key.len() == SECRET_KEY_BYTES {
                    Ok(InvitationKey { key })
                } else {
                    Err(InvalidInvitationKey)
                }
            },
            None => Err(InvalidInvitationKey),
        }
    }

    /// Returns an object for printing the invitation key.
    pub fn display(&self) -> (r: DisplayInvitationKey<'_>)
        ensures
            r.bytes() == self@,
    {
        proof {
            use_type_invariant(self);
        }
        DisplayInvitationKey { bytes: self.key.as_slice() }
    }

    /// Sign an [`Invitation`] and generate a new [`InvitationCode`].
    ///
    /// The code carries the invitation back: checked with this key, it
    /// grants the same invitation at every moment before the expiry, and
    /// nothing from the expiry on.
    pub fn sign(&self, invitation: &Invitation) -> (code: InvitationCode)
        requires
            encodable_len(invitation_payload(invitation@).len()),
        ensures
            code@ == signed_code(self@, invitation@),
            authentic_invitation(self@, code@) == Some(invitation@),
            forall|now: int|
                now < invitation@.expiration ==> #[trigger] verified_invitation(
                    self@,
                    code@,
                    now,
                ) == Some(invitation@),
            forall|now: int|
                now >= invitation@.expiration ==> #[trigger] verified_invitation(
                    self@,
                    code@,
                    now,
                ) is None,
    {
        proof {
            use_type_invariant(self);
            use_type_invariant(&invitation.expiration);
            lemma_payload_round_trip(invitation@);
        }
        let payload = invitation.to_payload();
        let signature = ed25519_sign(self.key.as_slice(), payload.as_slice());
        InvitationCode::from_parts(payload.as_slice(), signature.as_slice())
    }

    /// Issue an invitation for `username` that expires `lifetime` after
    /// `now`, and sign it.
    ///
    /// The code grants the invitation at every moment before the expiry,
    /// and nothing from the expiry on.
    pub fn issue(&self, username: &str, lifetime: Duration, now: DateTime) -> (r: Result<
        InvitationCode,
        IssueError,
    >)
        ensures
            r is Ok <==> timestamp_in_range(now@ + lifetime@) && username_fits(username@),
            r is Ok ==> r.unwrap()@ == signed_code(
                self@,
                InvitationView { username: username@, expiration: now@ + lifetime@ },
            ),
            r is Ok ==> forall|at: int|
                at < now@ + lifetime@ ==> #[trigger] verified_invitation(
                    self@,
                    r.unwrap()@,
                    at,
                ) == Some(InvitationView { username: username@, expiration: now@ + lifetime@ }),
            r is Ok ==> forall|at: int|
                at >= now@ + lifetime@ ==> #[trigger] verified_invitation(
                    self@,
                    r.unwrap()@,
                    at,
                ) is None,
            r is Err ==> r.unwrap_err() == (if !timestamp_in_range(now@ + lifetime@) {
                IssueError::ExpiryOutOfRange
            } else {
                IssueError::UsernameTooLong
            }),
    {
        let invitation = match Invitation::with_lifetime(username, lifetime, now) {
            Some(invitation) => invitation,
            None => { return Err(IssueError::ExpiryOutOfRange); },
        };
        if username.as_bytes().len() > usize::MAX / 4 - TIMESTAMP_BYTES {
            return Err(IssueError::UsernameTooLong);
        }
        proof {
            lemma_payload_len(invitation@);
        }
        Ok(self.sign(&invitation))
    }

    /// Verify an [`InvitationCode`] at the time `now` and return the
    /// [`Invitation`] that it grants.
    pub fn verify(&self, code: &InvitationCode, now: DateTime) -> (r: Result<
        Invitation,
        InvalidInvitationCode,
    >)
        ensures
            r is Ok <==> verified_invitation(self@, code@, now@) is Some,
            r is Ok ==> r.unwrap()@ == verified_invitation(self@, code@, now@).unwrap(),
    {
        proof {
            use_type_invariant(self);
        }
        let (payload, signature) = match code.into_parts() {
            Ok(parts) => parts,
            Err(error) => { return Err(error); },
        };
        if !ed25519_verify(self.key.as_slice(), payload.as_slice(), signature.as_slice()) {
            return Err(InvalidInvitationCode);
        }
        let invitation = match Invitation::from_payload(payload.as_slice()) {
            Some(invitation) => invitation,
            None => { return Err(InvalidInvitationCode); },
        };
        if invitation.is_expired(now) {
            return Err(InvalidInvitationCode);
        }
        Ok(invitation)
    }
}

impl core::str::FromStr for InvitationKey {
    type Err = InvalidInvitationKey;

    fn from_str(s: &str) -> (r: Result<InvitationKey, InvalidInvitationKey>)
        ensures
            r is Ok <==> base64url_bytes(s@) is Some && base64url_bytes(s@).unwrap().len()
                == SECRET_KEY_BYTES,
            r is Ok ==> r.unwrap()@ == base64url_bytes(s@).unwrap() && r.unwrap().wf(),
    {
        InvitationKey::parse(s)
    }
}

} // verus!
