//! Serial reference encryption.
//!
//! The cluster engine is checked against an independent single-core
//! implementation: the RustCrypto `chacha20` crate, driven once over the
//! whole buffer.  Its call is the one trusted item of this crate; tests
//! hold both paths to the same published vectors and to each other.

use vstd::prelude::*;

use crate::chacha::spec_encrypted;
use chacha20::cipher::KeyIvInit;
use chacha20::cipher::StreamCipher;

verus! {

/// Reference single-core implementation, used by tests to cross-check the
/// cluster engine.
///
/// Relies on `chacha20::ChaCha20` of the `chacha20` crate: the RFC 8439
/// stream cipher in its IETF variant (32-byte key, 12-byte nonce, 32-bit
/// block counter starting at zero, 20 rounds), whose `apply_keystream`
/// XORs the keystream into the buffer in place.  That is byte for byte the
/// function that `spec_encrypted` states.  The length bound keeps the call
/// inside the first `2^32` blocks, where the crate's 32-bit counter does
/// not wrap.
#[verifier::external_body]
pub fn encrypt_serial_orig(data: &mut Vec<u8>, key: &Vec<u8>, iv: &Vec<u8>)
    requires
        key@.len() == 32,
        iv@.len() == 12,
        old(data)@.len() <= 0xFFFF_FFFF * 64,
    ensures
        final(data)@ == spec_encrypted(old(data)@, key@, iv@),
        final(data)@.len() == old(data)@.len(),
{
    let mut cipher = chacha20::ChaCha20::new(
        chacha20::Key::from_slice(key.as_slice()),
        chacha20::Nonce::from_slice(iv.as_slice()),
    );
    cipher.apply_keystream(data.as_mut_slice());
}

} // verus!
