//! Session identifiers: random byte strings whose possession stands for the
//! session they name.

use crate::base64::{base64url_bytes, base64url_text, decode, encode};
use crate::rng::CryptoRng;
use vstd::prelude::*;

verus! {

/// Number of random bytes in a session identifier.
pub const SESSION_BYTES: usize = 96;

/// Number of characters in the printed form of a session identifier.
pub const ENCODED_BYTES: usize = 128;

/// Generic session identifier.
pub struct SessionId {
    bytes: Vec<u8>,
}

impl View for SessionId {
    type V = Seq<u8>;

    /// The ninety-six bytes.
    closed spec fn view(&self) -> Seq<u8> {
        self.bytes@
    }
}

/// Helper struct for explicit printing a `SessionId`.
pub struct DisplaySessionId<'a> {
    bytes: &'a [u8],
}

/// An error which can be returned when parsing a [`SessionId`].
#[derive(Clone, Copy, Debug)]
pub struct InvalidSessionId;

impl InvalidSessionId {
    /// What the error says.
    pub fn message(&self) -> (r: &'static str)
        ensures
            r@ == "expected a string with 96 bytes base64 encoded"@,
    {
        "expected a string with 96 bytes base64 encoded"
    }
}

/// The session that `text` names, if it names one.
pub open spec fn parsed_session(text: Seq<char>) -> Option<Seq<u8>> {
    match base64url_bytes(text) {
        Some(id) => if id.len() == SESSION_BYTES {
            Some(id)
        } else {
            None
        },
        None => None,
    }
}

impl<'a> DisplaySessionId<'a> {
    /// The bytes that are printed.
    pub closed spec fn bytes(&self) -> Seq<u8> {
        self.bytes@
    }

    /// There are [`SESSION_BYTES`] bytes to print.
    #[verifier::type_invariant]
    pub closed spec fn wf(&self) -> bool {
        self.bytes@.len() == SESSION_BYTES
    }

    /// The identifier in URL-safe Base64, which takes [`ENCODED_BYTES`]
    /// characters.
    pub fn to_string(&self) -> (r: String)
        ensures
            r@ == base64url_text(self.bytes()),
            r@.len() == ENCODED_BYTES,
            parsed_session(r@) == Some(self.bytes()),
    {
        proof {
            use_type_invariant(self);
        }
        encode(self.bytes)
    }
}

impl SessionId {
    /// Every identifier has [`SESSION_BYTES`] bytes.
    #[verifier::type_invariant]
    pub closed spec fn wf(&self) -> bool {
        self.bytes@.len() == SESSION_BYTES
    }

    /// An identifier has [`SESSION_BYTES`] bytes.
    pub proof fn lemma_len(&self)
        requires
            self.wf(),
        ensures
            self@.len() == SESSION_BYTES,
    {
    }

    /// Generate a random session id.
    pub fn random(rng: &mut CryptoRng) -> (r: SessionId)
        ensures
            r.wf(),
    {
        SessionId { bytes: rng.bytes(SESSION_BYTES) }
    }

    /// Returns an object for printing the session identifier.
    pub fn display(&self) -> (r: DisplaySessionId<'_>)
        ensures
            r.bytes() == self@,
    {
        proof {
            use_type_invariant(self);
        }
        DisplaySessionId { bytes: self.bytes.as_slice() }
    }

    /// The printed form: the bytes in URL-safe Base64, which takes
    /// [`ENCODED_BYTES`] characters.
    pub fn serialize(&self) -> (r: String)
        ensures
            r@ == base64url_text(self@),
            r@.len() == ENCODED_BYTES,
            parsed_session(r@) == Some(self@),
    {
        self.display().to_string()
    }

    /// Reads an identifier from its printed form: ninety-six bytes in
    /// URL-safe Base64.
    pub fn parse(text: &str) -> (r: Result<SessionId, InvalidSessionId>)
        ensures
            r is Ok <==> parsed_session(text@) is Some,
            r is Ok ==> r.unwrap()@ == parsed_session(text@).unwrap() && r.unwrap().wf(),
    {
        match decode(text) {
            Some(bytes) => {
                if bytes.len() == SESSION_BYTES {
                    Ok(SessionId { bytes })
                } else {
                    Err(InvalidSessionId)
                }
            },
            None => Err(InvalidSessionId),
        }
    }
}

impl core::str::FromStr for SessionId {
    type Err = InvalidSessionId;

    fn from_str(s: &str) -> (r: Result<SessionId, InvalidSessionId>)
        ensures
            r is Ok <==> parsed_session(s@) is Some,
            r is Ok ==> r.unwrap()@ == parsed_session(s@).unwrap() && r.unwrap().wf(),
    {
        SessionId::parse(s)
    }
}

} // verus!
