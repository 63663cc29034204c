//! The keys that the service is configured with.

use vstd::prelude::*;

verus! {

/// Private keys, each in its printed form.
pub struct ConfigKey {
    /// Opaque signature.
    pub opaque: String,
    /// Invitation key, used to sign generated user invitation.
    pub invitation: String,
    /// Session key, used to sign session id.
    pub session: String,
}

/// Which of the configured keys cannot be read.
#[derive(Clone, Copy, Debug, PartialEq, Eq, Structural)]
pub enum InvalidKey {
    /// The invitation key.
    Invitation,
    /// The key material of the key exchange.
    Opaque,
}

} // verus!
