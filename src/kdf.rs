//! Key derivation: a passphrase and a salt stretched into an AES-256 key.
use vstd::prelude::*;

use pbkdf2::pbkdf2_hmac_array;
use sha2::Sha256;
use zeroize::Zeroize;

verus! {

/// Iterations of PBKDF2: fixed by the format, not stored in an envelope.
pub const PBKDF2_ITERS: u32 = 120000;

/// Length of the derived key.
pub const KEY_LEN: usize = 32;

/// The 32-byte output of PBKDF2-HMAC-SHA256 on a password, a salt and an
/// iteration count.
pub uninterp spec fn pbkdf2_sha256(password: Seq<u8>, salt: Seq<u8>, rounds: u32) -> Seq<u8>;

/// The key that a passphrase and a salt yield in this format.
pub open spec fn derived_key(passphrase: Seq<u8>, salt: Seq<u8>) -> Seq<u8> {
    pbkdf2_sha256(passphrase, salt, PBKDF2_ITERS)
}

/// Relies on `pbkdf2::pbkdf2_hmac_array::<Sha256, 32>`: PBKDF2 with HMAC-SHA256,
/// a deterministic function of its three arguments that fills a 32-byte array.
#[verifier::external_body]
fn pbkdf2_sha256_32(password: &[u8], salt: &[u8], rounds: u32) -> (r: [u8; 32])
    ensures
        r@ == pbkdf2_sha256(password@, salt@, rounds),
{
    pbkdf2_hmac_array::<Sha256, 32>(password, salt, rounds)
}

/// Relies on `zeroize::Zeroize` for `[u8; N]`: every byte is overwritten with
/// zero through volatile writes.
#[verifier::external_body]
pub(crate) fn wipe_key(key: &mut [u8; 32])
    ensures
        forall|i: int| 0 <= i < 32 ==> #[trigger] final(key)@[i] == 0u8,
{
    key.zeroize()
}

/// Derives the AES-256 key for `passphrase` and `salt`.
///
/// Deterministic: the same passphrase and salt always give the same key.
pub fn derive_key(passphrase: &[u8], salt: &[u8]) -> (r: [u8; 32])
    ensures
        r@ == derived_key(passphrase@, salt@),
{
    pbkdf2_sha256_32(passphrase, salt, PBKDF2_ITERS)
}

} // verus!
