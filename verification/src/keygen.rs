//! Fresh ML-KEM-768 key material for leaf payloads.

use ml_kem::{EncodedSizeUser, KemCore, MlKem768};
use rand::rngs::OsRng;
use vstd::prelude::*;

verus! {

/// Bytes in an encoded ML-KEM-768 encapsulation key.
pub const ML_KEM_768_KEY_LEN: usize = 1184;

/// Trusted: `ml_kem::KemCore::generate` for `MlKem768`, seeded from
/// `rand::rngs::OsRng`, makes a fresh key pair, and
/// `ml_kem::EncodedSizeUser::as_bytes` encodes its encapsulation key in 1184
/// bytes. The key is random, so nothing more is claimed of its bytes. The
/// call panics if the operating system cannot supply randomness.
#[verifier::external_body]
pub(crate) fn ml_kem_768_encapsulation_key() -> (key: Vec<u8>)
    ensures
        key@.len() == ML_KEM_768_KEY_LEN,
{
    let (_decapsulation_key, encapsulation_key) = MlKem768::generate(&mut OsRng);
    encapsulation_key.as_bytes().to_vec()
}

} // verus!
