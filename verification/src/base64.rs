//! URL-safe, padded Base64, as the `base64ct` crate computes it.

use base64ct::{Base64Url, Encoding};
use vstd::prelude::*;

verus! {

/// The text that `base64ct::Base64Url::encode_string` returns for `bytes`.
pub uninterp spec fn base64url_text(bytes: Seq<u8>) -> Seq<char>;

/// What `base64ct::Base64Url::decode_vec` returns for `text`: the decoded
/// bytes, or `None` where it reports an error.
pub uninterp spec fn base64url_bytes(text: Seq<char>) -> Option<Seq<u8>>;

/// The characters of URL-safe Base64: letters, digits, `-`, `_`, and the
/// padding character `=`.
pub open spec fn is_base64url_char(c: char) -> bool {
    ||| 'A' <= c <= 'Z'
    ||| 'a' <= c <= 'z'
    ||| '0' <= c <= '9'
    ||| c == '-'
    ||| c == '_'
    ||| c == '='
}

/// Whether every character of `text` is one of URL-safe Base64.
pub open spec fn is_base64url_text(text: Seq<char>) -> bool {
    forall|i: int| 0 <= i < text.len() ==> is_base64url_char(#[trigger] text[i])
}

/// Largest number of bytes that can be encoded: the encoder refuses inputs
/// whose fourfold length does not fit in a `usize`.
pub open spec fn encodable_len(len: nat) -> bool {
    len <= usize::MAX / 4
}

/// The number of characters that encode `len` bytes: four for every three
/// bytes or part of three.
pub open spec fn encoded_len(len: nat) -> nat {
    4 * ((len + 2) / 3)
}

/// Calls `base64ct::Base64Url::encode_string`. The contract names the text
/// that comes back and claims of it what the crate documents for this
/// alphabet: it is made of the sixty-four URL-safe characters and `=`, it
/// has four characters for every three bytes or part of three, and decoding
/// it gives the input back.
#[verifier::external_body]
pub(crate) fn encode(bytes: &[u8]) -> (text: String)
    requires
        encodable_len(bytes@.len()),
    ensures
        text@ == base64url_text(bytes@),
        is_base64url_text(text@),
        text@.len() == encoded_len(bytes@.len()),
        base64url_bytes(text@) == Some(bytes@),
{
    Base64Url::encode_string(bytes)
}

/// Calls `base64ct::Base64Url::decode_vec`; an error of any kind becomes
/// `None`.
#[verifier::external_body]
pub(crate) fn decode(text: &str) -> (bytes: Option<Vec<u8>>)
    ensures
        bytes is Some <==> base64url_bytes(text@) is Some,
        bytes is Some ==> bytes.unwrap()@ == base64url_bytes(text@).unwrap(),
{
    Base64Url::decode_vec(text).ok()
}

} // verus!
