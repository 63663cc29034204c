//! The source of randomness that session identifiers, keys and the login
//! exchange draw from.

use rand::{RngCore, SeedableRng};
use rand_chacha::ChaCha20Rng;
use vstd::prelude::*;

verus! {

/// `rand_chacha::ChaCha20Rng`, whose state Verus does not look into.
#[verifier::external_type_specification]
#[verifier::external_body]
pub struct ExChaCha20Rng(ChaCha20Rng);

/// Cryptographically secure random number generator, seeded once from the
/// operating system and handed explicitly to whatever needs randomness.
pub struct CryptoRng {
    pub(crate) inner: ChaCha20Rng,
}

/// Calls `ChaCha20Rng::from_entropy`, which seeds a generator from the
/// operating system. Nothing is claimed of the generator.
#[verifier::external_body]
fn seeded_generator() -> ChaCha20Rng {
    ChaCha20Rng::from_entropy()
}

/// Calls `RngCore::fill_bytes` on a fresh buffer of `len` zero bytes. The
/// bytes are random; only their number is claimed.
#[verifier::external_body]
fn random_bytes(generator: &mut ChaCha20Rng, len: usize) -> (bytes: Vec<u8>)
    ensures
        bytes@.len() == len,
{
    let mut bytes = vec![0u8; len];
    generator.fill_bytes(&mut bytes);
    bytes
}

impl CryptoRng {
    /// A new generator, seeded from the operating system.
    pub fn new() -> CryptoRng {
        CryptoRng { inner: seeded_generator() }
    }

    /// The next `len` random bytes.
    pub fn bytes(&mut self, len: usize) -> (bytes: Vec<u8>)
        ensures
            bytes@.len() == len,
    {
        random_bytes(&mut self.inner, len)
    }
}

} // verus!
