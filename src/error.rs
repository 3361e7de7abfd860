use vstd::prelude::*;

verus! {

/// Why an encryption or decryption did not produce its result.
///
/// A wrong passphrase, wrong associated data and a tampered ciphertext all
/// surface as `AuthenticationFailure`: the three causes are deliberately
/// indistinguishable.
#[derive(Debug, Clone, Copy, PartialEq, Eq, Structural)]
pub enum CryptoError {
    /// The input is shorter than the fixed header (magic, salt and nonce).
    MalformedEnvelope,
    /// The input does not start with the expected magic tag.
    UnsupportedFormat,
    /// The cipher rejected the ciphertext, its tag or the associated data.
    AuthenticationFailure,
    /// The cipher refused to seal the inputs (they exceed its length limits).
    EncryptionFailure,
    /// No secure random bytes could be obtained.
    RandomSourceFailure,
    /// Reading or writing the source or destination data failed.
    IoFailure,
}

impl CryptoError {
    /// A short description that reveals no offsets and no key material.
    pub fn message(&self) -> &'static str {
        match self {
            CryptoError::MalformedEnvelope => "file too short or corrupt",
            CryptoError::UnsupportedFormat => "invalid magic header",
            CryptoError::AuthenticationFailure => "decryption failed: authentication error",
            CryptoError::EncryptionFailure => "encryption failed",
            CryptoError::RandomSourceFailure => "secure random source unavailable",
            CryptoError::IoFailure => "i/o failure",
        }
    }
}

} // verus!
