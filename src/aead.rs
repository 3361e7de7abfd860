//! AES-256-GCM sealing and opening, as provided by the `aes-gcm` crate.
use vstd::prelude::*;

use aes_gcm::aead::{Aead, Payload};
use aes_gcm::{Aes256Gcm, Key, KeyInit, Nonce};

verus! {

/// The cipher's opaque error value.
#[verifier::external_type_specification]
#[verifier::external_body]
pub struct ExAeadError(aes_gcm::aead::Error);

/// Largest plaintext the cipher seals, in bytes.
pub const PLAINTEXT_MAX: u64 = 68719476736;

/// Largest associated data the cipher authenticates, in bytes.
pub const AAD_MAX: u64 = 68719476736;

/// The ciphertext followed by its 16-byte tag that AES-256-GCM computes for a
/// key, a nonce, associated data and a message.
pub uninterp spec fn aes256gcm_seal(key: Seq<u8>, nonce: Seq<u8>, aad: Seq<u8>, msg: Seq<u8>) -> Seq<u8>;

/// Whether the cipher accepts a message and associated data of these lengths.
pub open spec fn within_limits(aad: Seq<u8>, msg: Seq<u8>) -> bool {
    msg.len() <= PLAINTEXT_MAX && aad.len() <= AAD_MAX
}

/// Relies on `Aead::encrypt` of `aes_gcm::Aes256Gcm`: it refuses a message or
/// associated data longer than 2^36 bytes, and otherwise returns the CTR-mode
/// ciphertext followed by the 16-byte GHASH tag.
#[verifier::external_body]
pub(crate) fn seal(key: &[u8; 32], nonce: &[u8], aad: &[u8], msg: &[u8]) -> (r: Result<Vec<u8>, aes_gcm::aead::Error>)
    requires
        nonce@.len() == 12,
    ensures
        r is Ok <==> within_limits(aad@, msg@),
        r matches Ok(c) ==> c@ == aes256gcm_seal(key@, nonce@, aad@, msg@),
        r matches Ok(c) ==> c@.len() == msg@.len() + 16,
{
    let cipher = Aes256Gcm::new(Key::<Aes256Gcm>::from_slice(key));
    cipher.encrypt(Nonce::from_slice(nonce), Payload { msg, aad })
}

/// Relies on `Aead::decrypt` of `aes_gcm::Aes256Gcm`: it recomputes the tag over
/// the associated data and the ciphertext, compares it with the trailing 16
/// bytes, and only on a match returns the CTR-mode decryption. So what it
/// returns is the one message that seals to exactly these bytes, and a
/// message that the cipher sealed to these bytes is returned.
#[verifier::external_body]
pub(crate) fn open(key: &[u8; 32], nonce: &[u8], aad: &[u8], ct: &[u8]) -> (r: Result<Vec<u8>, aes_gcm::aead::Error>)
    requires
        nonce@.len() == 12,
    ensures
        r matches Ok(p) ==> ct@ == aes256gcm_seal(key@, nonce@, aad@, p@),
        r is Err ==> forall|p: Seq<u8>| !(within_limits(aad@, p) && ct@ == #[trigger] aes256gcm_seal(key@, nonce@, aad@, p)),
        r matches Ok(q) ==> forall|p: Seq<u8>| within_limits(aad@, p) && ct@ == #[trigger] aes256gcm_seal(key@, nonce@, aad@, p) ==> q@ == p,
{
    let cipher = Aes256Gcm::new(Key::<Aes256Gcm>::from_slice(key));
    cipher.decrypt(Nonce::from_slice(nonce), Payload { msg: ct, aad })
}

} // verus!
