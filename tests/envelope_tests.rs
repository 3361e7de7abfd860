use blockvault_crypto::codec::{decrypt, encrypt, encrypt_with};
use blockvault_crypto::envelope::{
    assemble_envelope, magic_bytes, parse_envelope, HEADER_LEN, MAGIC_LEN, NONCE_LEN, SALT_LEN,
    TAG_LEN,
};
use blockvault_crypto::error::CryptoError;
use blockvault_crypto::kdf::derive_key;

const PASS: &[u8] = b"example-passphrase";

#[test]
fn round_trip_encryption() {
    let data = "Test secret data ☃".as_bytes();
    let env = encrypt(data, PASS, Some(b"meta".as_slice())).unwrap();
    let dec = decrypt(&env, PASS, Some(b"meta".as_slice())).unwrap();
    assert_eq!(data.to_vec(), dec);
}

#[test]
fn concrete_scenario_fails_without_or_with_other_aad() {
    let data = "Test secret data ☃".as_bytes();
    assert_eq!(data.len(), 20);
    let env = encrypt(data, PASS, Some(b"meta".as_slice())).unwrap();
    assert_eq!(env.len(), 72);
    assert_eq!(&env[..8], b"BVENC001");
    assert_eq!(decrypt(&env, PASS, None), Err(CryptoError::AuthenticationFailure));
    assert_eq!(
        decrypt(&env, PASS, Some(b"metb".as_slice())),
        Err(CryptoError::AuthenticationFailure)
    );
}

#[test]
fn empty_plaintext_round_trips() {
    let env = encrypt(&[], PASS, None).unwrap();
    assert_eq!(env.len(), HEADER_LEN + TAG_LEN);
    assert_eq!(decrypt(&env, PASS, None).unwrap(), Vec::<u8>::new());
}

#[test]
fn two_encryptions_differ_and_both_round_trip() {
    let data = b"same input twice";
    let a = encrypt(data, PASS, None).unwrap();
    let b = encrypt(data, PASS, None).unwrap();
    assert_ne!(a, b);
    assert_ne!(&a[MAGIC_LEN..HEADER_LEN], &b[MAGIC_LEN..HEADER_LEN]);
    assert_eq!(decrypt(&a, PASS, None).unwrap(), data.to_vec());
    assert_eq!(decrypt(&b, PASS, None).unwrap(), data.to_vec());
}

#[test]
fn wrong_passphrase_is_authentication_failure() {
    let env = encrypt(b"secret", PASS, Some(b"ctx".as_slice())).unwrap();
    assert_eq!(
        decrypt(&env, b"example-passphrasf", Some(b"ctx".as_slice())),
        Err(CryptoError::AuthenticationFailure)
    );
}

#[test]
fn aad_absent_on_encrypt_present_on_decrypt_fails() {
    let env = encrypt(b"secret", PASS, None).unwrap();
    assert_eq!(
        decrypt(&env, PASS, Some(b"ctx".as_slice())),
        Err(CryptoError::AuthenticationFailure)
    );
}

#[test]
fn absent_aad_differs_from_empty_aad() {
    let env = encrypt(b"secret", PASS, None).unwrap();
    assert_eq!(
        decrypt(&env, PASS, Some(b"".as_slice())),
        Err(CryptoError::AuthenticationFailure)
    );
    assert_eq!(decrypt(&env, PASS, None).unwrap(), b"secret".to_vec());
}

#[test]
fn empty_aad_envelope_does_not_open_without_aad() {
    let env = encrypt(b"secret", PASS, Some(b"".as_slice())).unwrap();
    assert_eq!(decrypt(&env, PASS, None), Err(CryptoError::AuthenticationFailure));
    assert_eq!(decrypt(&env, PASS, Some(b"".as_slice())).unwrap(), b"secret".to_vec());
}

fn fixed_envelope() -> Vec<u8> {
    let salt = [7u8; 16];
    let nonce = [9u8; 12];
    encrypt_with(b"tamper target", PASS, None, &salt, &nonce).unwrap()
}

#[test]
fn flipped_bit_in_ciphertext_is_authentication_failure() {
    let mut env = fixed_envelope();
    env[HEADER_LEN] ^= 0x01;
    assert_eq!(decrypt(&env, PASS, None), Err(CryptoError::AuthenticationFailure));
}

#[test]
fn flipped_bit_in_tag_is_authentication_failure() {
    let mut env = fixed_envelope();
    let last = env.len() - 1;
    env[last] ^= 0x80;
    assert_eq!(decrypt(&env, PASS, None), Err(CryptoError::AuthenticationFailure));
}

#[test]
fn flipped_bit_in_salt_is_authentication_failure() {
    let mut env = fixed_envelope();
    env[MAGIC_LEN] ^= 0x10;
    assert_eq!(decrypt(&env, PASS, None), Err(CryptoError::AuthenticationFailure));
}

#[test]
fn truncated_tag_is_authentication_failure() {
    let env = fixed_envelope();
    assert_eq!(
        decrypt(&env[..HEADER_LEN + 5], PASS, None),
        Err(CryptoError::AuthenticationFailure)
    );
}

#[test]
fn short_input_is_malformed() {
    assert_eq!(decrypt(&[], PASS, None), Err(CryptoError::MalformedEnvelope));
    let env = fixed_envelope();
    assert_eq!(decrypt(&env[..HEADER_LEN - 1], PASS, None), Err(CryptoError::MalformedEnvelope));
}

#[test]
fn wrong_magic_is_unsupported_format() {
    let mut env = fixed_envelope();
    env[7] = b'2';
    assert_eq!(decrypt(&env, PASS, None), Err(CryptoError::UnsupportedFormat));
    let zeros = [0u8; 36];
    assert_eq!(decrypt(&zeros, PASS, None), Err(CryptoError::UnsupportedFormat));
}

#[test]
fn encrypt_with_is_deterministic_and_laid_out() {
    let salt = [1u8; 16];
    let nonce = [2u8; 12];
    let msg = b"hello envelope";
    let a = encrypt_with(msg, PASS, Some(b"m".as_slice()), &salt, &nonce).unwrap();
    let b = encrypt_with(msg, PASS, Some(b"m".as_slice()), &salt, &nonce).unwrap();
    assert_eq!(a, b);
    assert_eq!(a.len(), HEADER_LEN + msg.len() + TAG_LEN);
    assert_eq!(&a[..MAGIC_LEN], b"BVENC001");
    assert_eq!(&a[MAGIC_LEN..MAGIC_LEN + SALT_LEN], &salt);
    assert_eq!(&a[MAGIC_LEN + SALT_LEN..HEADER_LEN], &nonce);
    assert_ne!(&a[HEADER_LEN..HEADER_LEN + msg.len()], msg.as_slice());
    assert_eq!(decrypt(&a, PASS, Some(b"m".as_slice())).unwrap(), msg.to_vec());
}

#[test]
fn encrypt_envelope_starts_with_magic() {
    let env = encrypt(b"abc", PASS, None).unwrap();
    assert_eq!(&env[..8], b"BVENC001");
    assert_eq!(env.len(), 36 + 3 + 16);
}

#[test]
fn derive_key_is_deterministic_and_salted() {
    let k1 = derive_key(PASS, &[3u8; 16]);
    let k2 = derive_key(PASS, &[3u8; 16]);
    let k3 = derive_key(PASS, &[4u8; 16]);
    assert_eq!(k1, k2);
    assert_ne!(k1, k3);
    assert_ne!(k1, [0u8; 32]);
    assert_ne!(&k1[..PASS.len().min(32)], &PASS[..PASS.len().min(32)]);
}

#[test]
fn magic_is_ascii_tag() {
    assert_eq!(&magic_bytes(), b"BVENC001");
}

#[test]
fn assemble_then_parse() {
    let salt = [5u8; 16];
    let nonce = [6u8; 12];
    let ct = [1u8, 2, 3];
    let env = assemble_envelope(&salt, &nonce, &ct);
    assert_eq!(env.len(), 8 + 16 + 12 + 3);
    assert_eq!(&env[..8], b"BVENC001");
    let (s, n, c) = parse_envelope(&env).unwrap();
    assert_eq!(s, &salt);
    assert_eq!(n, &nonce);
    assert_eq!(c, &ct);
    assert_eq!(SALT_LEN + NONCE_LEN + MAGIC_LEN, HEADER_LEN);
}

#[test]
fn parse_header_only_gives_empty_ciphertext() {
    let env = assemble_envelope(&[0u8; 16], &[0u8; 12], &[]);
    let (_, _, c) = parse_envelope(&env).unwrap();
    assert!(c.is_empty());
}

#[test]
fn parse_errors() {
    assert_eq!(parse_envelope(&[0u8; 35]), Err(CryptoError::MalformedEnvelope));
    assert_eq!(parse_envelope(&[0u8; 36]), Err(CryptoError::UnsupportedFormat));
}

#[test]
fn error_messages_are_distinct() {
    let all = [
        CryptoError::MalformedEnvelope,
        CryptoError::UnsupportedFormat,
        CryptoError::AuthenticationFailure,
        CryptoError::EncryptionFailure,
        CryptoError::RandomSourceFailure,
        CryptoError::IoFailure,
    ];
    for (i, a) in all.iter().enumerate() {
        for b in all.iter().skip(i + 1) {
            assert_ne!(a.message(), b.message());
        }
    }
}
