//! An authenticated-encryption envelope for whole files.
//!
//! A passphrase and a fresh random salt are stretched with PBKDF2-HMAC-SHA256
//! into an AES-256 key; the plaintext is sealed with AES-256-GCM under a fresh
//! random nonce and optional associated data; the result is framed as
//! `magic ‖ salt ‖ nonce ‖ ciphertext-with-tag`.
pub mod error;
pub mod envelope;
pub mod kdf;
pub mod aead;
pub mod codec;
